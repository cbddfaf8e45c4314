use circe::stream::{InputStream, InputStreamError};

#[test]
fn test_stream() {
    let mut stream = InputStream::new(b"Hello, world!".to_vec());

    let next_char: char = stream.next().unwrap().unwrap();
    assert_eq!(next_char, 'H');

    let next_char: char = stream.next().unwrap().unwrap();
    assert_eq!(next_char, 'e');
}

#[test]
fn test_convert_string() {
    let mut istream: InputStream = InputStream::from("Hello!".to_string());

    assert_eq!(istream.next().unwrap().unwrap(), 'H');
    assert_eq!(istream.next().unwrap().unwrap(), 'e');
    assert_eq!(istream.next().unwrap().unwrap(), 'l');
    assert_eq!(istream.next().unwrap().unwrap(), 'l');
    assert_eq!(istream.next().unwrap().unwrap(), 'o');
    assert_eq!(istream.next().unwrap().unwrap(), '!');
}

#[test]
fn test_convert_string_slice() {
    let mut istream: InputStream = InputStream::from("Hello!");

    assert_eq!(istream.next().unwrap().unwrap(), 'H');
    assert_eq!(istream.next().unwrap().unwrap(), 'e');
    assert_eq!(istream.next().unwrap().unwrap(), 'l');
    assert_eq!(istream.next().unwrap().unwrap(), 'l');
    assert_eq!(istream.next().unwrap().unwrap(), 'o');
    assert_eq!(istream.next().unwrap().unwrap(), '!');
}

#[test]
fn test_convert_byte_slice() {
    let contents: &[u8] = b"Hello!";
    let mut istream: InputStream = InputStream::from(contents);

    assert_eq!(istream.next().unwrap().unwrap(), 'H');
    assert_eq!(istream.next().unwrap().unwrap(), 'e');
    assert_eq!(istream.next().unwrap().unwrap(), 'l');
    assert_eq!(istream.next().unwrap().unwrap(), 'l');
    assert_eq!(istream.next().unwrap().unwrap(), 'o');
    assert_eq!(istream.next().unwrap().unwrap(), '!');
}

#[test]
fn stream_end_of_input_is_not_an_error() {
    let mut stream = InputStream::from("a");
    assert_eq!(stream.next(), Ok(Some('a')));
    assert_eq!(stream.next(), Ok(None));
    assert_eq!(stream.next(), Ok(None));
    assert_eq!(stream.pos(), 1);
}

#[test]
fn stream_peek_is_idempotent_and_does_not_move() {
    let mut stream = InputStream::from("xy");
    assert_eq!(stream.peek(), Ok(Some('x')));
    assert_eq!(stream.peek(), Ok(Some('x')));
    assert_eq!(stream.peek(), Ok(Some('x')));
    assert_eq!((stream.line(), stream.column(), stream.pos()), (1, 1, 0));
    assert_eq!(stream.next(), Ok(Some('x')));
    assert_eq!((stream.line(), stream.column(), stream.pos()), (1, 2, 1));
    assert_eq!(stream.peek(), Ok(Some('y')));
    assert_eq!(stream.next(), Ok(Some('y')));
    assert_eq!(stream.peek(), Ok(None));
}

#[test]
fn stream_tracks_lines_and_columns() {
    let mut stream = InputStream::from("ab\nc\n");
    assert_eq!((stream.line(), stream.column(), stream.pos()), (1, 1, 0));
    stream.next().unwrap();
    stream.next().unwrap();
    assert_eq!((stream.line(), stream.column(), stream.pos()), (1, 3, 2));
    assert_eq!(stream.next(), Ok(Some('\n')));
    assert_eq!((stream.line(), stream.column(), stream.pos()), (2, 1, 3));
    stream.next().unwrap();
    assert_eq!((stream.line(), stream.column(), stream.pos()), (2, 2, 4));
    stream.next().unwrap();
    assert_eq!((stream.line(), stream.column(), stream.pos()), (3, 1, 5));
    assert_eq!(stream.next(), Ok(None));
    assert_eq!((stream.line(), stream.column(), stream.pos()), (3, 1, 5));
}

#[test]
fn stream_decodes_multibyte_sequences() {
    // one, two, three and four bytes
    let mut stream = InputStream::from("a\u{e9}\u{20ac}\u{1f600}z");
    assert_eq!(stream.next(), Ok(Some('a')));
    assert_eq!(stream.next(), Ok(Some('\u{e9}')));
    assert_eq!(stream.next(), Ok(Some('\u{20ac}')));
    assert_eq!(stream.peek(), Ok(Some('\u{1f600}')));
    assert_eq!(stream.next(), Ok(Some('\u{1f600}')));
    assert_eq!(stream.next(), Ok(Some('z')));
    assert_eq!(stream.next(), Ok(None));
    assert_eq!(stream.pos(), 5);
    assert_eq!(stream.column(), 6);
}

#[test]
fn stream_decodes_the_extremes_of_each_width() {
    let text = "\u{0}\u{7f}\u{80}\u{7ff}\u{800}\u{d7ff}\u{e000}\u{ffff}\u{10000}\u{10ffff}";
    let mut stream = InputStream::new(text.as_bytes().to_vec());
    for expected in text.chars() {
        assert_eq!(stream.next(), Ok(Some(expected)));
    }
    assert_eq!(stream.next(), Ok(None));
}

#[test]
fn stream_rejects_a_truncated_sequence() {
    let mut stream = InputStream::new(vec![b'a', 0xe2, 0x82]);
    assert_eq!(stream.next(), Ok(Some('a')));
    assert_eq!(stream.peek(), Err(InputStreamError::InvalidUtf8));
    assert_eq!(stream.next(), Err(InputStreamError::InvalidUtf8));
    assert_eq!(stream.next(), Err(InputStreamError::InvalidUtf8));
    assert_eq!(stream.pos(), 1);
}

#[test]
fn stream_rejects_malformed_sequences() {
    // a continuation byte on its own
    assert_eq!(InputStream::new(vec![0x80]).next(), Err(InputStreamError::InvalidUtf8));
    // a leading byte followed by no continuation byte
    assert_eq!(InputStream::new(vec![0xc3, b'a']).next(), Err(InputStreamError::InvalidUtf8));
    // an overlong encoding of '/'
    assert_eq!(InputStream::new(vec![0xc0, 0xaf]).next(), Err(InputStreamError::InvalidUtf8));
    assert_eq!(InputStream::new(vec![0xe0, 0x80, 0xaf]).next(), Err(InputStreamError::InvalidUtf8));
    // a surrogate
    assert_eq!(InputStream::new(vec![0xed, 0xa0, 0x80]).next(), Err(InputStreamError::InvalidUtf8));
    // beyond the last scalar value
    assert_eq!(
        InputStream::new(vec![0xf4, 0x90, 0x80, 0x80]).next(),
        Err(InputStreamError::InvalidUtf8)
    );
    // bytes that never occur in UTF-8
    assert_eq!(InputStream::new(vec![0xf8, 0x80, 0x80, 0x80]).next(), Err(InputStreamError::InvalidUtf8));
    assert_eq!(InputStream::new(vec![0xff]).next(), Err(InputStreamError::InvalidUtf8));
}
