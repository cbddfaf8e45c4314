use circe::text::InputStream;

#[test]
fn test_input_stream() {
    let mut stream = InputStream::new("Hello!");

    let next_char: char = stream.next().unwrap();
    assert_eq!(next_char, 'H');

    let next_char: char = stream.next().unwrap();
    assert_eq!(next_char, 'e');

    let next_char: char = stream.peek().unwrap();
    assert_eq!(next_char, 'l');

    let next_char: char = stream.next().unwrap();
    assert_eq!(next_char, 'l');

    let next_char: char = stream.next().unwrap();
    assert_eq!(next_char, 'l');

    let next_char: char = stream.peek().unwrap();
    assert_eq!(next_char, 'o');
}

#[test]
fn test_input_stream_none() {
    let mut stream = InputStream::new("");

    let next_char: Option<char> = stream.next();
    assert_eq!(next_char, None);
}

#[test]
fn text_peek_n_looks_ahead_without_reading() {
    let mut stream = InputStream::new("a\u{e9}c");
    assert_eq!(stream.peek_n(0), Some('a'));
    assert_eq!(stream.peek_n(1), Some('\u{e9}'));
    assert_eq!(stream.peek_n(2), Some('c'));
    assert_eq!(stream.peek_n(3), None);
    assert_eq!(stream.peek_n(usize::MAX), None);
    assert_eq!(stream.peek(), Some('a'));
    assert_eq!(stream.pos(), 0);
    assert_eq!(stream.next(), Some('a'));
    assert_eq!(stream.peek_n(0), Some('\u{e9}'));
    assert_eq!(stream.peek_n(1), Some('c'));
    assert_eq!(stream.peek_n(2), None);
}

#[test]
fn text_tracks_lines_and_columns() {
    let mut stream = InputStream::new("a\n\u{20ac}b\n");
    assert_eq!((stream.line(), stream.column(), stream.pos()), (1, 1, 0));
    assert_eq!(stream.next(), Some('a'));
    assert_eq!((stream.line(), stream.column(), stream.pos()), (1, 2, 1));
    assert_eq!(stream.next(), Some('\n'));
    assert_eq!((stream.line(), stream.column(), stream.pos()), (2, 1, 2));
    assert_eq!(stream.next(), Some('\u{20ac}'));
    assert_eq!(stream.next(), Some('b'));
    assert_eq!((stream.line(), stream.column(), stream.pos()), (2, 3, 4));
    assert_eq!(stream.next(), Some('\n'));
    assert_eq!((stream.line(), stream.column(), stream.pos()), (3, 1, 5));
    assert_eq!(stream.next(), None);
    assert_eq!(stream.next(), None);
    assert_eq!((stream.line(), stream.column(), stream.pos()), (3, 1, 5));
}
