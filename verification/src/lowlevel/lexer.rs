//! The low-level lexer: variables, identifiers, numeric literals, `=` and
//! high-level escape blocks.

use crate::chars::{ascii_digit, ascii_uppercase, is_ascii_digit, is_ascii_uppercase, push_char};
use crate::scan::{find, lemma_find, lemma_run_end, read_run, read_until, run_end, skip_run, CharClass};
use crate::stream::{InputStream, InputStreamError};
use vstd::prelude::*;

verus! {

/// A token of the low-level language.
#[derive(Debug, PartialEq)]
pub enum Token {
    /// The name of a variable, without the `@` before it.
    Variable(String),
    /// A word that starts with a capital letter.
    Identifier(String),
    /// A run of digits.
    Literal(String),
    /// The character `=`.
    Punctuation(char),
    /// The raw text between `<` and `>`.
    HighLevelSequence(String),
}

/// A token as a value of the mathematical model: texts are sequences of
/// characters.
pub enum TokenView {
    Variable(Seq<char>),
    Identifier(Seq<char>),
    Literal(Seq<char>),
    Punctuation(char),
    HighLevelSequence(Seq<char>),
}

impl View for Token {
    type V = TokenView;

    open spec fn view(&self) -> TokenView {
        match self {
            Token::Variable(text) => TokenView::Variable(text@),
            Token::Identifier(text) => TokenView::Identifier(text@),
            Token::Literal(text) => TokenView::Literal(text@),
            Token::Punctuation(c) => TokenView::Punctuation(*c),
            Token::HighLevelSequence(text) => TokenView::HighLevelSequence(text@),
        }
    }
}

impl Clone for Token {
    fn clone(&self) -> (r: Token)
        ensures
            r@ == self@,
    {
        match self {
            Token::Variable(text) => Token::Variable(text.clone()),
            Token::Identifier(text) => Token::Identifier(text.clone()),
            Token::Literal(text) => Token::Literal(text.clone()),
            Token::Punctuation(c) => Token::Punctuation(*c),
            Token::HighLevelSequence(text) => Token::HighLevelSequence(text.clone()),
        }
    }
}

/// Why no token could be read.
#[derive(Debug, Clone, Copy, PartialEq, Eq, Structural)]
pub enum LexerError {
    /// The source could not be decoded.
    InputStreamError(InputStreamError),
    /// A character that starts no token.
    UnexpectedCharacter(char),
    /// The source ended inside a high-level escape block.
    UnterminatedEscape,
}

/// What lexing from some position gives: a token, the end of the input or an
/// error, and the position at which the lexer then stands.
pub struct Lexed {
    pub outcome: Result<Option<TokenView>, LexerError>,
    pub end: int,
}

/// The kinds of token that are a run of characters.
#[derive(Clone, Copy, PartialEq, Eq, Structural)]
pub enum RunKind {
    Variable,
    Identifier,
    Literal,
}

impl RunKind {
    /// The class of characters that a token of this kind goes on with.
    pub open spec fn class(self) -> CharClass {
        match self {
            RunKind::Variable => CharClass::Alphanumeric,
            RunKind::Identifier => CharClass::Alphanumeric,
            RunKind::Literal => CharClass::Numeric,
        }
    }

    /// The token of this kind with the text `text`.
    pub open spec fn token(self, text: Seq<char>) -> TokenView {
        match self {
            RunKind::Variable => TokenView::Variable(text),
            RunKind::Identifier => TokenView::Identifier(text),
            RunKind::Literal => TokenView::Literal(text),
        }
    }
}

/// The token of `kind` whose text starts at `from` and goes on from `run`
/// with the longest run of characters of the kind's class. Where the run
/// reaches the end of a source that is not intact, the error of the source
/// comes in place of the token.
pub open spec fn lex_run(src: Seq<char>, intact: bool, from: int, run: int, kind: RunKind) -> Lexed {
    let end = run_end(src, run, kind.class());
    if end >= src.len() && !intact {
        Lexed { outcome: Err(LexerError::InputStreamError(InputStreamError::InvalidUtf8)), end }
    } else {
        Lexed { outcome: Ok(Some(kind.token(src.subrange(from, end)))), end }
    }
}

/// The escape block whose `<` stands at `at`: everything up to the next `>`,
/// which is read too. Without a `>` the block is unterminated.
pub open spec fn lex_escape(src: Seq<char>, intact: bool, at: int) -> Lexed {
    let close = find(src, at + 1, '>');
    if close < src.len() {
        Lexed {
            outcome: Ok(Some(TokenView::HighLevelSequence(src.subrange(at + 1, close)))),
            end: close + 1,
        }
    } else if intact {
        Lexed { outcome: Err(LexerError::UnterminatedEscape), end: close }
    } else {
        Lexed {
            outcome: Err(LexerError::InputStreamError(InputStreamError::InvalidUtf8)),
            end: close,
        }
    }
}

/// The token that lexing `src` from `at` gives. White space before it is
/// skipped; the first character after that decides what is read: `@` a
/// variable, a digit a literal, a capital letter an identifier, `=` itself
/// and `<` an escape block.
pub open spec fn lex(src: Seq<char>, intact: bool, at: int) -> Lexed {
    let start = run_end(src, at, CharClass::Whitespace);
    if start < 0 || start >= src.len() {
        Lexed {
            outcome: if intact {
                Ok(None)
            } else {
                Err(LexerError::InputStreamError(InputStreamError::InvalidUtf8))
            },
            end: start,
        }
    } else {
        let c = src[start];
        if c == '@' {
            lex_run(src, intact, start + 1, start + 1, RunKind::Variable)
        } else if ascii_digit(c) {
            lex_run(src, intact, start, start + 1, RunKind::Literal)
        } else if ascii_uppercase(c) {
            lex_run(src, intact, start, start + 1, RunKind::Identifier)
        } else if c == '=' {
            Lexed { outcome: Ok(Some(TokenView::Punctuation('='))), end: start + 1 }
        } else if c == '<' {
            lex_escape(src, intact, start)
        } else {
            Lexed { outcome: Err(LexerError::UnexpectedCharacter(c)), end: start }
        }
    }
}

/// The result of a lexer call as a value of the model.
pub open spec fn outcome_view(r: Result<Option<Token>, LexerError>) -> Result<
    Option<TokenView>,
    LexerError,
> {
    match r {
        Ok(Some(token)) => Ok(Some(token@)),
        Ok(None) => Ok(None),
        Err(e) => Err(e),
    }
}

/// Lexing ends at or after the white space before the token, within the
/// source. A token read takes at least one character, and the end of the
/// input is reported where that white space ends.
pub proof fn lemma_lex_advances(src: Seq<char>, intact: bool, at: int)
    requires
        0 <= at <= src.len(),
    ensures
        run_end(src, at, CharClass::Whitespace) <= lex(src, intact, at).end <= src.len(),
        lex(src, intact, at).outcome matches Ok(Some(_)) ==> at < lex(src, intact, at).end,
        lex(src, intact, at).outcome matches Ok(None) ==> lex(src, intact, at).end == run_end(
            src,
            at,
            CharClass::Whitespace,
        ),
{
    lemma_run_end(src, at, CharClass::Whitespace);
    let start = run_end(src, at, CharClass::Whitespace);
    if start < src.len() {
        lemma_run_end(src, start + 1, CharClass::Alphanumeric);
        lemma_run_end(src, start + 1, CharClass::Numeric);
        lemma_find(src, start + 1, '>');
    }
}

/// The low-level lexer: a stream and at most one token read ahead.
pub struct Lexer {
    stream: InputStream,
    peeked: Option<Token>,
    cursor: Ghost<int>,
}

impl Lexer {
    /// The characters of the source that is lexed.
    pub closed spec fn source(&self) -> Seq<char> {
        self.stream.source()
    }

    /// Whether the source is well-formed to its end.
    pub closed spec fn intact(&self) -> bool {
        self.stream.intact()
    }

    /// The position in the source from which the next token is lexed. A token
    /// read ahead lies after it.
    pub closed spec fn cursor(&self) -> int {
        self.cursor@
    }

    /// The invariant of a lexer: a token read ahead is the one that lexing
    /// from the cursor gives, and the stream stands where lexing has got to or
    /// in the white space after that.
    pub closed spec fn wf(&self) -> bool {
        &&& self.stream.wf()
        &&& 0 <= self.cursor@ <= self.source().len()
        &&& self.stream.consumed() <= self.source().len()
        &&& self.base() <= self.stream.consumed() <= run_end(
            self.source(),
            self.base(),
            CharClass::Whitespace,
        )
        &&& match self.peeked {
            Some(token) => lex(self.source(), self.intact(), self.cursor@).outcome == Ok::<
                Option<TokenView>,
                LexerError,
            >(Some(token@)),
            None => true,
        }
    }

    /// The position up to which the source has been lexed: the end of the
    /// token read ahead, or the cursor if there is none.
    spec fn base(&self) -> int {
        if self.peeked is Some {
            lex(self.source(), self.intact(), self.cursor@).end
        } else {
            self.cursor@
        }
    }

    /// What the next call of `next` gives, and where it leaves the cursor.
    pub open spec fn upcoming(&self) -> Lexed {
        lex(self.source(), self.intact(), self.cursor())
    }

    /// What a call of `next` does to a lexer that it leaves as `after` with
    /// the result `r`: it gives what was upcoming and puts the cursor behind
    /// it.
    pub open spec fn advances(&self, after: Lexer, r: Result<Option<Token>, LexerError>) -> bool {
        &&& after.source() == self.source()
        &&& after.intact() == self.intact()
        &&& outcome_view(r) == self.upcoming().outcome
        &&& after.cursor() == self.upcoming().end
    }

    /// What a call of `peek` does to a lexer that it leaves as `after` with
    /// the result `r`: it gives what was upcoming, and unless that is an
    /// error it leaves the cursor where it was.
    pub open spec fn peeks(&self, after: Lexer, r: Result<Option<Token>, LexerError>) -> bool {
        &&& after.source() == self.source()
        &&& after.intact() == self.intact()
        &&& outcome_view(r) == self.upcoming().outcome
        &&& after.cursor() == (if r is Ok {
            self.cursor()
        } else {
            self.upcoming().end
        })
    }

    /// Peeking is stable: where a first `peek` gives no error, any number of
    /// calls of `peek` in a row give the same result, and none of them moves
    /// the cursor. `states` holds the lexer before the first call and after
    /// each call, `results` what the calls gave.
    pub proof fn lemma_peek_is_stable(states: Seq<Lexer>, results: Seq<Result<Option<Token>, LexerError>>)
        requires
            states.len() == results.len() + 1,
            forall|i: int|
                0 <= i < results.len() ==> (#[trigger] states[i]).peeks(states[i + 1], results[i]),
            results.len() > 0 ==> results[0] is Ok,
        ensures
            forall|i: int|
                0 <= i < results.len() ==> outcome_view(#[trigger] results[i]) == outcome_view(
                    results[0],
                ),
            forall|i: int|
                0 <= i < states.len() ==> (#[trigger] states[i]).upcoming()
                    == states[0].upcoming(),
        decreases results.len(),
    {
        if results.len() > 0 {
            let n = results.len() - 1;
            Lexer::lemma_peek_is_stable(states.take(n + 1), results.take(n));
            assert(states.take(n + 1)[n] == states[n]);
            assert(states[n].peeks(states[n + 1], results[n]));
            assert forall|i: int| 0 <= i < results.len() implies outcome_view(
                #[trigger] results[i],
            ) == outcome_view(results[0]) by {
                if i < n {
                    assert(results.take(n)[i] == results[i]);
                    assert(results.take(n)[0] == results[0]);
                }
            }
            assert forall|i: int| 0 <= i < states.len() implies (#[trigger] states[i]).upcoming()
                == states[0].upcoming() by {
                if i <= n {
                    assert(states.take(n + 1)[i] == states[i]);
                    assert(states.take(n + 1)[0] == states[0]);
                }
            }
        }
    }

    /// After a `peek` that gives no error, `next` gives the same result and
    /// puts the cursor behind exactly the token that was seen.
    pub proof fn lemma_next_gives_what_peek_saw(
        self,
        peeked: Lexer,
        after: Lexer,
        seen: Result<Option<Token>, LexerError>,
        got: Result<Option<Token>, LexerError>,
    )
        requires
            self.peeks(peeked, seen),
            seen is Ok,
            peeked.advances(after, got),
        ensures
            outcome_view(got) == outcome_view(seen),
            after.cursor() == self.upcoming().end,
    {
    }

    /// The cursor lies within the source.
    pub proof fn lemma_cursor_in_source(&self)
        requires
            self.wf(),
        ensures
            0 <= self.cursor() <= self.source().len(),
    {
    }

    /// A lexer at the read position of `stream`.
    pub fn new(stream: InputStream) -> (r: Lexer)
        requires
            stream.wf(),
        ensures
            r.wf(),
            r.source() == stream.source(),
            r.intact() == stream.intact(),
            r.cursor() == stream.consumed(),
    {
        proof {
            stream.lemma_consumed_in_source();
            lemma_run_end(stream.source(), stream.consumed() as int, CharClass::Whitespace);
        }
        Lexer { stream, peeked: None, cursor: Ghost(stream.consumed() as int) }
    }

    /// Reads the run of letters and digits at which the stream stands onto
    /// the end of `ident`.
    fn create_ident(&mut self, ident: String) -> (r: Result<String, LexerError>)
        requires
            old(self).stream.wf(),
        ensures
            final(self).stream.wf(),
            final(self).source() == old(self).source(),
            final(self).intact() == old(self).intact(),
            final(self).peeked == old(self).peeked,
            final(self).cursor == old(self).cursor,
            ({
                let src = old(self).source();
                let from = old(self).stream.consumed() as int;
                let end = run_end(src, from, CharClass::Alphanumeric);
                &&& final(self).stream.consumed() == end
                &&& match r {
                    Ok(text) => text@ == ident@ + src.subrange(from, end) && !(end >= src.len()
                        && !old(self).intact()),
                    Err(e) => e == LexerError::InputStreamError(InputStreamError::InvalidUtf8)
                        && end >= src.len() && !old(self).intact(),
                }
            }),
    {
        let mut ident = ident;
        match read_run(&mut self.stream, CharClass::Alphanumeric, &mut ident) {
            Ok(()) => Ok(ident),
            Err(e) => Err(LexerError::InputStreamError(e)),
        }
    }

    /// Reads the run of numeric characters at which the stream stands onto
    /// the end of `literal`.
    fn create_literal(&mut self, literal: String) -> (r: Result<String, LexerError>)
        requires
            old(self).stream.wf(),
        ensures
            final(self).stream.wf(),
            final(self).source() == old(self).source(),
            final(self).intact() == old(self).intact(),
            final(self).peeked == old(self).peeked,
            final(self).cursor == old(self).cursor,
            ({
                let src = old(self).source();
                let from = old(self).stream.consumed() as int;
                let end = run_end(src, from, CharClass::Numeric);
                &&& final(self).stream.consumed() == end
                &&& match r {
                    Ok(text) => text@ == literal@ + src.subrange(from, end) && !(end >= src.len()
                        && !old(self).intact()),
                    Err(e) => e == LexerError::InputStreamError(InputStreamError::InvalidUtf8)
                        && end >= src.len() && !old(self).intact(),
                }
            }),
    {
        let mut literal = literal;
        match read_run(&mut self.stream, CharClass::Numeric, &mut literal) {
            Ok(()) => Ok(literal),
            Err(e) => Err(LexerError::InputStreamError(e)),
        }
    }

    /// Reads the rest of an escape block whose `<` has been read.
    fn create_high_level_sequence(&mut self) -> (r: Result<Token, LexerError>)
        requires
            old(self).stream.wf(),
            old(self).stream.consumed() >= 1,
        ensures
            final(self).stream.wf(),
            final(self).source() == old(self).source(),
            final(self).intact() == old(self).intact(),
            final(self).peeked == old(self).peeked,
            final(self).cursor == old(self).cursor,
            ({
                let lexed = lex_escape(
                    old(self).source(),
                    old(self).intact(),
                    old(self).stream.consumed() - 1,
                );
                &&& final(self).stream.consumed() == lexed.end
                &&& match r {
                    Ok(token) => lexed.outcome == Ok::<Option<TokenView>, LexerError>(
                        Some(token@),
                    ),
                    Err(e) => lexed.outcome == Err::<Option<TokenView>, LexerError>(e),
                }
            }),
    {
        let mut sequence = String::new();
        let ghost src = self.source();
        let ghost from = self.stream.consumed() as int;
        proof {
            self.stream.lemma_consumed_in_source();
            lemma_find(src, from, '>');
        }
        let closed = read_until(&mut self.stream, '>', &mut sequence);
        proof {
            assert(sequence@ =~= src.subrange(from, find(src, from, '>')));
        }
        match closed {
            Ok(true) => Ok(Token::HighLevelSequence(sequence)),
            Ok(false) => Err(LexerError::UnterminatedEscape),
            Err(e) => Err(LexerError::InputStreamError(e)),
        }
    }

    /// Lexes one token off the stream, with no token read ahead.
    fn read_token(&mut self) -> (r: Result<Option<Token>, LexerError>)
        requires
            old(self).wf(),
            old(self).peeked is None,
        ensures
            final(self).stream.wf(),
            final(self).source() == old(self).source(),
            final(self).intact() == old(self).intact(),
            final(self).peeked is None,
            final(self).cursor == old(self).cursor,
            outcome_view(r) == old(self).upcoming().outcome,
            final(self).stream.consumed() == old(self).upcoming().end,
    {
        let ghost src = self.source();
        let ghost from = self.cursor@;
        proof {
            lemma_run_end(src, from, CharClass::Whitespace);
        }
        skip_run(&mut self.stream, CharClass::Whitespace);
        let ghost start = self.stream.consumed() as int;
        match self.stream.peek() {
            Err(e) => Err(LexerError::InputStreamError(e)),
            Ok(None) => Ok(None),
            Ok(Some(c)) => {
                if c == '@' {
                    let _ = self.stream.next();
                    match self.create_ident(String::new()) {
                        Ok(name) => {
                            proof {
                                assert(name@ =~= src.subrange(
                                    start + 1,
                                    self.stream.consumed() as int,
                                ));
                            }
                            Ok(Some(Token::Variable(name)))
                        },
                        Err(e) => Err(e),
                    }
                } else if is_ascii_digit(c) {
                    let _ = self.stream.next();
                    let mut first = String::new();
                    push_char(&mut first, c);
                    proof {
                        lemma_run_end(src, start + 1, CharClass::Numeric);
                    }
                    match self.create_literal(first) {
                        Ok(digits) => {
                            proof {
                                assert(digits@ =~= src.subrange(
                                    start,
                                    self.stream.consumed() as int,
                                ));
                            }
                            Ok(Some(Token::Literal(digits)))
                        },
                        Err(e) => Err(e),
                    }
                } else if is_ascii_uppercase(c) {
                    let _ = self.stream.next();
                    let mut first = String::new();
                    push_char(&mut first, c);
                    proof {
                        lemma_run_end(src, start + 1, CharClass::Alphanumeric);
                    }
                    match self.create_ident(first) {
                        Ok(ident) => {
                            proof {
                                assert(ident@ =~= src.subrange(
                                    start,
                                    self.stream.consumed() as int,
                                ));
                            }
                            Ok(Some(Token::Identifier(ident)))
                        },
                        Err(e) => Err(e),
                    }
                } else if c == '=' {
                    let _ = self.stream.next();
                    Ok(Some(Token::Punctuation('=')))
                } else if c == '<' {
                    let _ = self.stream.next();
                    match self.create_high_level_sequence() {
                        Ok(token) => Ok(Some(token)),
                        Err(e) => Err(e),
                    }
                } else {
                    Err(LexerError::UnexpectedCharacter(c))
                }
            },
        }
    }

    /// Reads the next token, `None` at the end of the input.
    pub fn next(&mut self) -> (r: Result<Option<Token>, LexerError>)
        requires
            old(self).wf(),
        ensures
            final(self).wf(),
            old(self).advances(*final(self), r),
    {
        proof {
            lemma_lex_advances(self.source(), self.intact(), self.cursor@);
        }
        if self.peeked.is_some() {
            let token = self.peeked.take();
            self.cursor = Ghost(lex(self.source(), self.intact(), self.cursor@).end);
            return Ok(token);
        }
        let r = self.read_token();
        self.cursor = Ghost(self.stream.consumed() as int);
        proof {
            lemma_run_end(self.source(), self.cursor@, CharClass::Whitespace);
        }
        r
    }

    /// The next token, which stays unread: whatever is called next, `peek` or
    /// `next`, gives it again. Only an error moves the cursor.
    pub fn peek(&mut self) -> (r: Result<Option<Token>, LexerError>)
        requires
            old(self).wf(),
        ensures
            final(self).wf(),
            old(self).peeks(*final(self), r),
    {
        proof {
            lemma_lex_advances(self.source(), self.intact(), self.cursor@);
        }
        if self.peeked.is_none() {
            match self.read_token() {
                Ok(token) => {
                    self.peeked = token;
                    proof {
                        lemma_run_end(self.source(), self.cursor@, CharClass::Whitespace);
                        lemma_run_end(
                            self.source(),
                            self.stream.consumed() as int,
                            CharClass::Whitespace,
                        );
                    }
                },
                Err(e) => {
                    self.cursor = Ghost(self.stream.consumed() as int);
                    proof {
                        lemma_run_end(self.source(), self.cursor@, CharClass::Whitespace);
                    }
                    return Err(e);
                },
            }
        }
        match &self.peeked {
            Some(token) => Ok(Some(token.clone())),
            None => Ok(None),
        }
    }
}

} // verus!
