//! The high-level lexer: identifiers, keywords, quoted literals, punctuation
//! and low-level escape blocks.

use crate::chars::{ascii_letter, is_ascii_letter, push_char, text_is};
use crate::scan::{find, lemma_find, lemma_run_end, read_run, read_until, run_end, skip_run, CharClass};
use crate::stream::{InputStream, InputStreamError};
use vstd::prelude::*;
use vstd::std_specs::convert::FromSpecImpl;

verus! {

/// A token of the high-level language.
#[derive(Debug, PartialEq)]
pub enum Token {
    /// A word that is no keyword.
    Identifier(String),
    /// One of the words `howto` and `whatis`.
    Keyword(String),
    /// The text between two single quotes.
    Literal(String),
    /// One of `-`, `|` and `.`.
    Punctuation(char),
    /// The raw text of a low-level escape block, without its delimiters.
    LowLevelSequence(String),
}

/// A token as a value of the mathematical model: texts are sequences of
/// characters.
pub enum TokenView {
    Identifier(Seq<char>),
    Keyword(Seq<char>),
    Literal(Seq<char>),
    Punctuation(char),
    LowLevelSequence(Seq<char>),
}

impl View for Token {
    type V = TokenView;

    open spec fn view(&self) -> TokenView {
        match self {
            Token::Identifier(text) => TokenView::Identifier(text@),
            Token::Keyword(text) => TokenView::Keyword(text@),
            Token::Literal(text) => TokenView::Literal(text@),
            Token::Punctuation(c) => TokenView::Punctuation(*c),
            Token::LowLevelSequence(text) => TokenView::LowLevelSequence(text@),
        }
    }
}

impl Clone for Token {
    fn clone(&self) -> (r: Token)
        ensures
            r@ == self@,
    {
        match self {
            Token::Identifier(text) => Token::Identifier(text.clone()),
            Token::Keyword(text) => Token::Keyword(text.clone()),
            Token::Literal(text) => Token::Literal(text.clone()),
            Token::Punctuation(c) => Token::Punctuation(*c),
            Token::LowLevelSequence(text) => Token::LowLevelSequence(text.clone()),
        }
    }
}

/// Why no token could be read.
#[derive(Debug, Clone, Copy, PartialEq, Eq, Structural)]
pub enum LexerError {
    /// The source could not be decoded.
    InputStreamError(InputStreamError),
    /// The source ended inside a quoted literal.
    UnterminatedLiteral,
    /// The source ended inside a low-level escape block.
    UnterminatedLowLevelEscape,
    /// A character that starts no token, or that cannot stand where it does.
    UnexpectedCharacter(char),
}

/// What lexing from some position gives: a token, the end of the input or an
/// error, and the position at which the lexer then stands.
pub struct Lexed {
    pub outcome: Result<Option<TokenView>, LexerError>,
    pub end: int,
}

/// What a read past the last character gives: the end of an intact source, an
/// error of one that is not.
pub open spec fn at_end<T>(intact: bool) -> Result<Option<T>, LexerError> {
    if intact {
        Ok(None)
    } else {
        Err(LexerError::InputStreamError(InputStreamError::InvalidUtf8))
    }
}

/// The error of a source that ends inside something that `unterminated` names.
pub open spec fn cut_short(intact: bool, unterminated: LexerError) -> LexerError {
    if intact {
        unterminated
    } else {
        LexerError::InputStreamError(InputStreamError::InvalidUtf8)
    }
}

/// Whether `text` is one of the two keywords.
pub open spec fn is_keyword(text: Seq<char>) -> bool {
    text == "howto"@ || text == "whatis"@
}

/// The word whose first character stands at `at`: that character and the
/// longest run of letters, digits and underscores behind it, a keyword if it
/// reads `howto` or `whatis`. Where the run reaches the end of a source that
/// is not intact, the error of the source comes in place of the word.
pub open spec fn lex_word(src: Seq<char>, intact: bool, at: int) -> Lexed {
    let end = run_end(src, at + 1, CharClass::Word);
    let text = src.subrange(at, end);
    if end >= src.len() && !intact {
        Lexed { outcome: at_end(intact), end }
    } else if is_keyword(text) {
        Lexed { outcome: Ok(Some(TokenView::Keyword(text))), end }
    } else {
        Lexed { outcome: Ok(Some(TokenView::Identifier(text))), end }
    }
}

/// The literal whose opening quote stands at `at`: everything up to the next
/// quote, which is read too. Without a closing quote the literal is
/// unterminated.
pub open spec fn lex_literal(src: Seq<char>, intact: bool, at: int) -> Lexed {
    let close = find(src, at + 1, '\'');
    if close < src.len() {
        Lexed {
            outcome: Ok(Some(TokenView::Literal(src.subrange(at + 1, close)))),
            end: close + 1,
        }
    } else {
        Lexed { outcome: Err(cut_short(intact, LexerError::UnterminatedLiteral)), end: close }
    }
}

/// The body of a low-level escape block, scanned from `at` with `text` already
/// gathered and, if `pending`, a dash read whose meaning the next character
/// decides.
///
/// A dash is held back. Before `*` it closes the block. Before `|` or `.` it
/// lets that character into the text and is dropped itself. Before another
/// dash it goes into the text and the new dash is held back. Before anything
/// else it goes into the text, followed by that character. A `*` with no dash
/// before it is text; a `|` or `.` with no dash before it is an error.
pub open spec fn escape_scan(
    src: Seq<char>,
    intact: bool,
    at: int,
    pending: bool,
    text: Seq<char>,
) -> Lexed
    decreases src.len() - at,
{
    if at < 0 || at >= src.len() {
        Lexed { outcome: Err(cut_short(intact, LexerError::UnterminatedLowLevelEscape)), end: at }
    } else {
        let c = src[at];
        if c == '-' {
            escape_scan(
                src,
                intact,
                at + 1,
                true,
                if pending {
                    text.push('-')
                } else {
                    text
                },
            )
        } else if c == '|' || c == '.' {
            if pending {
                escape_scan(src, intact, at + 1, false, text.push(c))
            } else {
                Lexed { outcome: Err(LexerError::UnexpectedCharacter(c)), end: at }
            }
        } else if c == '*' {
            if pending {
                Lexed { outcome: Ok(Some(TokenView::LowLevelSequence(text))), end: at + 1 }
            } else {
                escape_scan(src, intact, at + 1, false, text.push(c))
            }
        } else {
            escape_scan(
                src,
                intact,
                at + 1,
                false,
                if pending {
                    text.push('-').push(c)
                } else {
                    text.push(c)
                },
            )
        }
    }
}

/// What stands at a punctuation character at `at`: the opening of a low-level
/// escape block if a `*` follows it directly, else the punctuation itself.
/// Where nothing follows it in a source that is not intact, the error of the
/// source comes in its place.
pub open spec fn lex_punctuation(src: Seq<char>, intact: bool, at: int) -> Lexed {
    if at + 1 < src.len() {
        if src[at + 1] == '*' {
            escape_scan(src, intact, at + 2, false, Seq::empty())
        } else {
            Lexed { outcome: Ok(Some(TokenView::Punctuation(src[at]))), end: at + 1 }
        }
    } else if intact {
        Lexed { outcome: Ok(Some(TokenView::Punctuation(src[at]))), end: at + 1 }
    } else {
        Lexed { outcome: at_end(intact), end: at + 1 }
    }
}

/// The token that lexing `src` from `at` gives. White space before it is
/// skipped; the first character after that decides what is read.
pub open spec fn lex(src: Seq<char>, intact: bool, at: int) -> Lexed {
    let start = run_end(src, at, CharClass::Whitespace);
    if start < 0 || start >= src.len() {
        Lexed { outcome: at_end(intact), end: start }
    } else {
        let c = src[start];
        if ascii_letter(c) || c == '_' {
            lex_word(src, intact, start)
        } else if c == '\'' {
            lex_literal(src, intact, start)
        } else if c == '-' || c == '|' || c == '.' {
            lex_punctuation(src, intact, start)
        } else {
            Lexed { outcome: Err(LexerError::UnexpectedCharacter(c)), end: start }
        }
    }
}

/// The result of a lexer call as a value of the model.
pub open spec fn outcome_view(r: Result<Option<Token>, LexerError>) -> Result<
    Option<TokenView>,
    LexerError,
> {
    match r {
        Ok(Some(token)) => Ok(Some(token@)),
        Ok(None) => Ok(None),
        Err(e) => Err(e),
    }
}

/// Lexing ends at or after the white space before the token, within the
/// source. A token read takes at least one character, and the end of the
/// input is reported where that white space ends.
pub proof fn lemma_lex_advances(src: Seq<char>, intact: bool, at: int)
    requires
        0 <= at <= src.len(),
    ensures
        run_end(src, at, CharClass::Whitespace) <= lex(src, intact, at).end <= src.len(),
        lex(src, intact, at).outcome matches Ok(Some(_)) ==> at < lex(src, intact, at).end,
        lex(src, intact, at).outcome matches Ok(None) ==> lex(src, intact, at).end == run_end(
            src,
            at,
            CharClass::Whitespace,
        ),
{
    lemma_run_end(src, at, CharClass::Whitespace);
    let start = run_end(src, at, CharClass::Whitespace);
    if start < src.len() {
        let c = src[start];
        if ascii_letter(c) || c == '_' {
            lemma_run_end(src, start + 1, CharClass::Word);
        } else if c == '\'' {
            lemma_find(src, start + 1, '\'');
        } else if c == '-' || c == '|' || c == '.' {
            if start + 1 < src.len() && src[start + 1] == '*' {
                lemma_escape_scan_advances(src, intact, start + 2, false, Seq::empty());
            }
        }
    }
}

/// An escape scan ends at or after its start and within the source, and past
/// its start if it gives a token. It never reports the end of the input.
pub proof fn lemma_escape_scan_advances(
    src: Seq<char>,
    intact: bool,
    at: int,
    pending: bool,
    text: Seq<char>,
)
    requires
        0 <= at <= src.len(),
    ensures
        at <= escape_scan(src, intact, at, pending, text).end <= src.len(),
        escape_scan(src, intact, at, pending, text).outcome is Ok ==> at < escape_scan(
            src,
            intact,
            at,
            pending,
            text,
        ).end,
        !(escape_scan(src, intact, at, pending, text).outcome matches Ok(None)),
    decreases src.len() - at,
{
    if at < src.len() {
        let c = src[at];
        if c == '-' {
            lemma_escape_scan_advances(
                src,
                intact,
                at + 1,
                true,
                if pending {
                    text.push('-')
                } else {
                    text
                },
            );
        } else if c == '|' || c == '.' {
            if pending {
                lemma_escape_scan_advances(src, intact, at + 1, false, text.push(c));
            }
        } else if c == '*' {
            if !pending {
                lemma_escape_scan_advances(src, intact, at + 1, false, text.push(c));
            }
        } else {
            lemma_escape_scan_advances(
                src,
                intact,
                at + 1,
                false,
                if pending {
                    text.push('-').push(c)
                } else {
                    text.push(c)
                },
            );
        }
    }
}

/// The high-level lexer: a stream and at most one token read ahead.
pub struct Lexer {
    stream: InputStream,
    peeked: Option<Token>,
    cursor: Ghost<int>,
}

impl Lexer {
    /// The characters of the source that is lexed.
    pub closed spec fn source(&self) -> Seq<char> {
        self.stream.source()
    }

    /// Whether the source is well-formed to its end.
    pub closed spec fn intact(&self) -> bool {
        self.stream.intact()
    }

    /// The position in the source from which the next token is lexed. A token
    /// read ahead lies after it.
    pub closed spec fn cursor(&self) -> int {
        self.cursor@
    }

    /// The invariant of a lexer: a token read ahead is the one that lexing
    /// from the cursor gives, and the stream stands where lexing has got to or
    /// in the white space after that.
    pub closed spec fn wf(&self) -> bool {
        &&& self.stream.wf()
        &&& 0 <= self.cursor@ <= self.source().len()
        &&& self.stream.consumed() <= self.source().len()
        &&& self.base() <= self.stream.consumed() <= run_end(
            self.source(),
            self.base(),
            CharClass::Whitespace,
        )
        &&& match self.peeked {
            Some(token) => lex(self.source(), self.intact(), self.cursor@).outcome == Ok::<
                Option<TokenView>,
                LexerError,
            >(Some(token@)),
            None => true,
        }
    }

    /// The position up to which the source has been lexed: the end of the
    /// token read ahead, or the cursor if there is none.
    spec fn base(&self) -> int {
        if self.peeked is Some {
            lex(self.source(), self.intact(), self.cursor@).end
        } else {
            self.cursor@
        }
    }

    /// What the next call of `next` gives, and where it leaves the cursor.
    pub open spec fn upcoming(&self) -> Lexed {
        lex(self.source(), self.intact(), self.cursor())
    }

    /// What a call of `next` does to a lexer that it leaves as `after` with
    /// the result `r`: it gives what was upcoming and puts the cursor behind
    /// it.
    pub open spec fn advances(&self, after: Lexer, r: Result<Option<Token>, LexerError>) -> bool {
        &&& after.source() == self.source()
        &&& after.intact() == self.intact()
        &&& outcome_view(r) == self.upcoming().outcome
        &&& after.cursor() == self.upcoming().end
    }

    /// What a call of `peek` does to a lexer that it leaves as `after` with
    /// the result `r`: it gives what was upcoming, and unless that is an
    /// error it leaves the cursor where it was.
    pub open spec fn peeks(&self, after: Lexer, r: Result<Option<Token>, LexerError>) -> bool {
        &&& after.source() == self.source()
        &&& after.intact() == self.intact()
        &&& outcome_view(r) == self.upcoming().outcome
        &&& after.cursor() == (if r is Ok {
            self.cursor()
        } else {
            self.upcoming().end
        })
    }

    /// Peeking is stable: where a first `peek` gives no error, any number of
    /// calls of `peek` in a row give the same result, and none of them moves
    /// the cursor. `states` holds the lexer before the first call and after
    /// each call, `results` what the calls gave.
    pub proof fn lemma_peek_is_stable(states: Seq<Lexer>, results: Seq<Result<Option<Token>, LexerError>>)
        requires
            states.len() == results.len() + 1,
            forall|i: int|
                0 <= i < results.len() ==> (#[trigger] states[i]).peeks(states[i + 1], results[i]),
            results.len() > 0 ==> results[0] is Ok,
        ensures
            forall|i: int|
                0 <= i < results.len() ==> outcome_view(#[trigger] results[i]) == outcome_view(
                    results[0],
                ),
            forall|i: int|
                0 <= i < states.len() ==> (#[trigger] states[i]).upcoming()
                    == states[0].upcoming(),
        decreases results.len(),
    {
        if results.len() > 0 {
            let n = results.len() - 1;
            Lexer::lemma_peek_is_stable(states.take(n + 1), results.take(n));
            assert(states.take(n + 1)[n] == states[n]);
            assert(states[n].peeks(states[n + 1], results[n]));
            assert forall|i: int| 0 <= i < results.len() implies outcome_view(
                #[trigger] results[i],
            ) == outcome_view(results[0]) by {
                if i < n {
                    assert(results.take(n)[i] == results[i]);
                    assert(results.take(n)[0] == results[0]);
                }
            }
            assert forall|i: int| 0 <= i < states.len() implies (#[trigger] states[i]).upcoming()
                == states[0].upcoming() by {
                if i <= n {
                    assert(states.take(n + 1)[i] == states[i]);
                    assert(states.take(n + 1)[0] == states[0]);
                }
            }
        }
    }

    /// After a `peek` that gives no error, `next` gives the same result and
    /// puts the cursor behind exactly the token that was seen.
    pub proof fn lemma_next_gives_what_peek_saw(
        self,
        peeked: Lexer,
        after: Lexer,
        seen: Result<Option<Token>, LexerError>,
        got: Result<Option<Token>, LexerError>,
    )
        requires
            self.peeks(peeked, seen),
            seen is Ok,
            peeked.advances(after, got),
        ensures
            outcome_view(got) == outcome_view(seen),
            after.cursor() == self.upcoming().end,
    {
    }

    /// The cursor lies within the source.
    pub proof fn lemma_cursor_in_source(&self)
        requires
            self.wf(),
        ensures
            0 <= self.cursor() <= self.source().len(),
    {
    }

    /// A lexer at the read position of `stream`.
    pub fn new(stream: InputStream) -> (r: Lexer)
        requires
            stream.wf(),
        ensures
            r.wf(),
            r.source() == stream.source(),
            r.intact() == stream.intact(),
            r.cursor() == stream.consumed(),
    {
        proof {
            stream.lemma_consumed_in_source();
            lemma_run_end(stream.source(), stream.consumed() as int, CharClass::Whitespace);
        }
        Lexer { stream, peeked: None, cursor: Ghost(stream.consumed() as int) }
    }

    /// Reads the word on whose first character the stream stands.
    fn create_ident_or_keyword(&mut self) -> (r: Result<Token, LexerError>)
        requires
            old(self).stream.wf(),
            old(self).stream.consumed() < old(self).source().len(),
        ensures
            final(self).stream.wf(),
            final(self).source() == old(self).source(),
            final(self).intact() == old(self).intact(),
            final(self).peeked == old(self).peeked,
            final(self).cursor == old(self).cursor,
            ({
                let lexed = lex_word(
                    old(self).source(),
                    old(self).intact(),
                    old(self).stream.consumed() as int,
                );
                &&& final(self).stream.consumed() == lexed.end
                &&& match r {
                    Ok(token) => lexed.outcome == Ok::<Option<TokenView>, LexerError>(
                        Some(token@),
                    ),
                    Err(e) => lexed.outcome == Err::<Option<TokenView>, LexerError>(e),
                }
            }),
    {
        let ghost src = self.source();
        let ghost at = self.stream.consumed() as int;
        let mut ident = String::new();
        let first = self.stream.next();
        match first {
            Ok(Some(c)) => {
                push_char(&mut ident, c);
            },
            _ => {},
        }
        let run = read_run(&mut self.stream, CharClass::Word, &mut ident);
        proof {
            lemma_run_end(src, at + 1, CharClass::Word);
            assert(ident@ =~= src.subrange(at, self.stream.consumed() as int));
        }
        match run {
            Err(e) => Err(LexerError::InputStreamError(e)),
            Ok(()) => {
                if text_is(&ident, "howto") || text_is(&ident, "whatis") {
                    Ok(Token::Keyword(ident))
                } else {
                    Ok(Token::Identifier(ident))
                }
            },
        }
    }

    /// Reads the rest of a literal whose opening quote has been read.
    fn create_string_literal(&mut self) -> (r: Result<Token, LexerError>)
        requires
            old(self).stream.wf(),
            old(self).stream.consumed() >= 1,
        ensures
            final(self).stream.wf(),
            final(self).source() == old(self).source(),
            final(self).intact() == old(self).intact(),
            final(self).peeked == old(self).peeked,
            final(self).cursor == old(self).cursor,
            ({
                let lexed = lex_literal(
                    old(self).source(),
                    old(self).intact(),
                    old(self).stream.consumed() - 1,
                );
                &&& final(self).stream.consumed() == lexed.end
                &&& match r {
                    Ok(token) => lexed.outcome == Ok::<Option<TokenView>, LexerError>(
                        Some(token@),
                    ),
                    Err(e) => lexed.outcome == Err::<Option<TokenView>, LexerError>(e),
                }
            }),
    {
        let mut literal = String::new();
        let ghost src = self.source();
        let ghost from = self.stream.consumed() as int;
        proof {
            self.stream.lemma_consumed_in_source();
            lemma_find(src, from, '\'');
        }
        let closed = read_until(&mut self.stream, '\'', &mut literal);
        proof {
            assert(literal@ =~= src.subrange(from, find(src, from, '\'')));
        }
        match closed {
            Ok(true) => Ok(Token::Literal(literal)),
            Ok(false) => Err(LexerError::UnterminatedLiteral),
            Err(e) => Err(LexerError::InputStreamError(e)),
        }
    }

    /// Reads the body of a low-level escape block whose opening has been read.
    fn create_low_level_sequence(&mut self) -> (r: Result<Token, LexerError>)
        requires
            old(self).stream.wf(),
        ensures
            final(self).stream.wf(),
            final(self).source() == old(self).source(),
            final(self).intact() == old(self).intact(),
            final(self).peeked == old(self).peeked,
            final(self).cursor == old(self).cursor,
            ({
                let lexed = escape_scan(
                    old(self).source(),
                    old(self).intact(),
                    old(self).stream.consumed() as int,
                    false,
                    Seq::empty(),
                );
                &&& final(self).stream.consumed() == lexed.end
                &&& match r {
                    Ok(token) => lexed.outcome == Ok::<Option<TokenView>, LexerError>(
                        Some(token@),
                    ),
                    Err(e) => lexed.outcome == Err::<Option<TokenView>, LexerError>(e),
                }
            }),
    {
        let mut sequence = String::new();
        let mut pending = false;
        let ghost src = self.source();
        let ghost intact = self.intact();
        let ghost start = self.stream.consumed() as int;
        proof {
            self.stream.lemma_consumed_in_source();
        }
        loop
            invariant
                self.stream.wf(),
                self.source() == src,
                self.intact() == intact,
                src == old(self).source(),
                intact == old(self).intact(),
                start == old(self).stream.consumed(),
                self.peeked == old(self).peeked,
                self.cursor == old(self).cursor,
                start <= self.stream.consumed() <= src.len(),
                escape_scan(src, intact, self.stream.consumed() as int, pending, sequence@)
                    == escape_scan(src, intact, start, false, Seq::empty()),
            decreases src.len() - self.stream.consumed(),
        {
            match self.stream.peek() {
                Err(e) => {
                    return Err(LexerError::InputStreamError(e));
                },
                Ok(None) => {
                    return Err(LexerError::UnterminatedLowLevelEscape);
                },
                Ok(Some(c)) => {
                    if c == '-' {
                        let _ = self.stream.next();
                        if pending {
                            push_char(&mut sequence, '-');
                        } else {
                            pending = true;
                        }
                    } else if c == '|' || c == '.' {
                        if !pending {
                            return Err(LexerError::UnexpectedCharacter(c));
                        }
                        let _ = self.stream.next();
                        push_char(&mut sequence, c);
                        pending = false;
                    } else if c == '*' {
                        let _ = self.stream.next();
                        if pending {
                            return Ok(Token::LowLevelSequence(sequence));
                        }
                        push_char(&mut sequence, c);
                    } else {
                        let _ = self.stream.next();
                        if pending {
                            push_char(&mut sequence, '-');
                            pending = false;
                        }
                        push_char(&mut sequence, c);
                    }
                },
            }
        }
    }

    /// Lexes one token off the stream, with no token read ahead.
    fn read_token(&mut self) -> (r: Result<Option<Token>, LexerError>)
        requires
            old(self).wf(),
            old(self).peeked is None,
        ensures
            final(self).stream.wf(),
            final(self).source() == old(self).source(),
            final(self).intact() == old(self).intact(),
            final(self).peeked is None,
            final(self).cursor == old(self).cursor,
            outcome_view(r) == old(self).upcoming().outcome,
            final(self).stream.consumed() == old(self).upcoming().end,
    {
        let ghost src = self.source();
        let ghost from = self.cursor@;
        proof {
            lemma_run_end(src, from, CharClass::Whitespace);
        }
        skip_run(&mut self.stream, CharClass::Whitespace);
        match self.stream.peek() {
            Err(e) => Err(LexerError::InputStreamError(e)),
            Ok(None) => Ok(None),
            Ok(Some(c)) => {
                if is_ascii_letter(c) || c == '_' {
                    match self.create_ident_or_keyword() {
                        Ok(token) => Ok(Some(token)),
                        Err(e) => Err(e),
                    }
                } else if c == '\'' {
                    let _ = self.stream.next();
                    match self.create_string_literal() {
                        Ok(token) => Ok(Some(token)),
                        Err(e) => Err(e),
                    }
                } else if c == '-' || c == '|' || c == '.' {
                    let _ = self.stream.next();
                    match self.stream.peek() {
                        Err(e) => Err(LexerError::InputStreamError(e)),
                        Ok(Some('*')) => {
                            let _ = self.stream.next();
                            match self.create_low_level_sequence() {
                                Ok(token) => Ok(Some(token)),
                                Err(e) => Err(e),
                            }
                        },
                        _ => Ok(Some(Token::Punctuation(c))),
                    }
                } else {
                    Err(LexerError::UnexpectedCharacter(c))
                }
            },
        }
    }

    /// Reads the next token, `None` at the end of the input.
    pub fn next(&mut self) -> (r: Result<Option<Token>, LexerError>)
        requires
            old(self).wf(),
        ensures
            final(self).wf(),
            old(self).advances(*final(self), r),
    {
        proof {
            lemma_lex_advances(self.source(), self.intact(), self.cursor@);
        }
        if self.peeked.is_some() {
            let token = self.peeked.take();
            self.cursor = Ghost(lex(self.source(), self.intact(), self.cursor@).end);
            return Ok(token);
        }
        let r = self.read_token();
        self.cursor = Ghost(self.stream.consumed() as int);
        proof {
            lemma_run_end(self.source(), self.cursor@, CharClass::Whitespace);
        }
        r
    }

    /// The next token, which stays unread: whatever is called next, `peek` or
    /// `next`, gives it again. Only an error moves the cursor.
    pub fn peek(&mut self) -> (r: Result<Option<Token>, LexerError>)
        requires
            old(self).wf(),
        ensures
            final(self).wf(),
            old(self).peeks(*final(self), r),
    {
        proof {
            lemma_lex_advances(self.source(), self.intact(), self.cursor@);
        }
        if self.peeked.is_none() {
            match self.read_token() {
                Ok(token) => {
                    self.peeked = token;
                    proof {
                        lemma_run_end(self.source(), self.cursor@, CharClass::Whitespace);
                        lemma_run_end(
                            self.source(),
                            self.stream.consumed() as int,
                            CharClass::Whitespace,
                        );
                    }
                },
                Err(e) => {
                    self.cursor = Ghost(self.stream.consumed() as int);
                    proof {
                        lemma_run_end(self.source(), self.cursor@, CharClass::Whitespace);
                    }
                    return Err(e);
                },
            }
        }
        match &self.peeked {
            Some(token) => Ok(Some(token.clone())),
            None => Ok(None),
        }
    }
}

impl<'a> FromSpecImpl<&'a str> for Lexer {
    open spec fn obeys_from_spec() -> bool {
        false
    }

    open spec fn from_spec(text: &'a str) -> Lexer {
        arbitrary()
    }
}

impl<'a> From<&'a str> for Lexer {
    /// A lexer at the start of `text`.
    fn from(text: &'a str) -> (r: Lexer)
        ensures
            r.wf(),
            r.source() == text@,
            r.intact(),
            r.cursor() == 0,
    {
        Lexer::new(InputStream::from(text))
    }
}

} // verus!
