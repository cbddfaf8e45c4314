//! The low-level parser: one node per call back into the high-level
//! language or variable assignment.

use crate::chars::ascii_digit;
use crate::lowlevel::lexer::{lemma_lex_advances, lex, Lexer, LexerError, Token, TokenView};
use crate::scan::{lemma_run_end, CharClass};
use crate::stream::InputStream;
use vstd::prelude::*;
use vstd::string::StrSliceExecFns;

verus! {

/// A node of the low-level parse tree.
#[derive(Debug, PartialEq)]
pub enum ParseNode {
    CommandCall(CommandCall),
    VariableAssignment(VariableAssignment),
}

/// The assignment of a value to a variable.
#[derive(Debug, PartialEq)]
pub struct VariableAssignment {
    pub name: String,
    pub value: VariableValue,
}

/// What a variable is given.
#[derive(Debug, PartialEq)]
pub enum VariableValue {
    /// A number, held as the decimal digits that were written.
    Number(String),
    /// The result of a high-level command, held as its raw text.
    HighLevelSequence(String),
}

/// A call of a high-level command, held as its raw text.
#[derive(Debug, PartialEq)]
pub enum CommandCall {
    HighLevelSequence(String),
}

/// Why no node could be parsed.
#[derive(Debug, PartialEq)]
pub enum ParserError {
    /// The lexer failed.
    LexerError(LexerError),
    /// The tokens do not form a node; the message says what was expected.
    SyntaxError(String),
}

/// The model of a [`VariableValue`].
pub enum VariableValueView {
    Number(Seq<char>),
    HighLevelSequence(Seq<char>),
}

/// The model of a [`ParseNode`].
pub enum ParseNodeView {
    CommandCall(Seq<char>),
    VariableAssignment { name: Seq<char>, value: VariableValueView },
}

/// The model of a [`ParserError`].
pub enum ParserErrorView {
    LexerError(LexerError),
    SyntaxError(Seq<char>),
}

impl View for VariableValue {
    type V = VariableValueView;

    open spec fn view(&self) -> VariableValueView {
        match self {
            VariableValue::Number(digits) => VariableValueView::Number(digits@),
            VariableValue::HighLevelSequence(text) => VariableValueView::HighLevelSequence(text@),
        }
    }
}

impl View for CommandCall {
    type V = Seq<char>;

    open spec fn view(&self) -> Seq<char> {
        match self {
            CommandCall::HighLevelSequence(text) => text@,
        }
    }
}

impl View for ParseNode {
    type V = ParseNodeView;

    open spec fn view(&self) -> ParseNodeView {
        match self {
            ParseNode::CommandCall(call) => ParseNodeView::CommandCall(call@),
            ParseNode::VariableAssignment(assignment) => ParseNodeView::VariableAssignment {
                name: assignment.name@,
                value: assignment.value@,
            },
        }
    }
}

impl DeepView for ParseNode {
    type V = ParseNodeView;

    open spec fn deep_view(&self) -> ParseNodeView {
        self@
    }
}

impl View for ParserError {
    type V = ParserErrorView;

    open spec fn view(&self) -> ParserErrorView {
        match self {
            ParserError::LexerError(e) => ParserErrorView::LexerError(*e),
            ParserError::SyntaxError(message) => ParserErrorView::SyntaxError(message@),
        }
    }
}

impl Clone for VariableValue {
    fn clone(&self) -> (r: VariableValue)
        ensures
            r@ == self@,
    {
        match self {
            VariableValue::Number(digits) => VariableValue::Number(digits.clone()),
            VariableValue::HighLevelSequence(text) => VariableValue::HighLevelSequence(
                text.clone(),
            ),
        }
    }
}

impl Clone for CommandCall {
    fn clone(&self) -> (r: CommandCall)
        ensures
            r@ == self@,
    {
        match self {
            CommandCall::HighLevelSequence(text) => CommandCall::HighLevelSequence(text.clone()),
        }
    }
}

impl Clone for VariableAssignment {
    fn clone(&self) -> (r: VariableAssignment)
        ensures
            r.name@ == self.name@,
            r.value@ == self.value@,
    {
        VariableAssignment { name: self.name.clone(), value: self.value.clone() }
    }
}

impl Clone for ParseNode {
    fn clone(&self) -> (r: ParseNode)
        ensures
            r@ == self@,
    {
        match self {
            ParseNode::CommandCall(call) => ParseNode::CommandCall(call.clone()),
            ParseNode::VariableAssignment(assignment) => ParseNode::VariableAssignment(
                assignment.clone(),
            ),
        }
    }
}

/// What parsing from some position gives: a node, the end of the input or an
/// error, and the position at which the parser then stands.
pub struct Parsed {
    pub outcome: Result<Option<ParseNodeView>, ParserErrorView>,
    pub end: int,
}

/// Whether `text` is a decimal numeral: one or more ASCII digits.
pub open spec fn decimal(text: Seq<char>) -> bool {
    text.len() > 0 && forall|i: int| 0 <= i < text.len() ==> ascii_digit(#[trigger] text[i])
}

/// The assignment that starts at `at`: a variable, `=`, and a numeral or a
/// high-level escape block.
pub open spec fn parse_assignment(src: Seq<char>, intact: bool, at: int) -> Parsed {
    let first = lex(src, intact, at);
    match first.outcome {
        Err(e) => Parsed { outcome: Err(ParserErrorView::LexerError(e)), end: first.end },
        Ok(Some(TokenView::Variable(name))) => {
            let second = lex(src, intact, first.end);
            match second.outcome {
                Err(e) => Parsed { outcome: Err(ParserErrorView::LexerError(e)), end: second.end },
                Ok(Some(TokenView::Punctuation(c))) if c == '=' => {
                    let third = lex(src, intact, second.end);
                    Parsed {
                        outcome: match third.outcome {
                            Err(e) => Err(ParserErrorView::LexerError(e)),
                            Ok(Some(TokenView::Literal(digits))) => if decimal(digits) {
                                Ok(
                                    Some(
                                        ParseNodeView::VariableAssignment {
                                            name,
                                            value: VariableValueView::Number(digits),
                                        },
                                    ),
                                )
                            } else {
                                Err(ParserErrorView::SyntaxError("Expected number"@))
                            },
                            Ok(Some(TokenView::HighLevelSequence(text))) => Ok(
                                Some(
                                    ParseNodeView::VariableAssignment {
                                        name,
                                        value: VariableValueView::HighLevelSequence(text),
                                    },
                                ),
                            ),
                            _ => Err(ParserErrorView::SyntaxError("Expected number"@)),
                        },
                        end: third.end,
                    }
                },
                _ => Parsed {
                    outcome: Err(ParserErrorView::SyntaxError("Expected equals"@)),
                    end: second.end,
                },
            }
        },
        _ => Parsed {
            outcome: Err(ParserErrorView::SyntaxError("Expected identifier"@)),
            end: first.end,
        },
    }
}

/// The node that parsing `src` from `at` gives: a call where a high-level
/// escape block stands, an assignment where a variable stands, and an error
/// where any other token stands, which is left unread.
pub open spec fn parse_node(src: Seq<char>, intact: bool, at: int) -> Parsed {
    let first = lex(src, intact, at);
    match first.outcome {
        Err(e) => Parsed { outcome: Err(ParserErrorView::LexerError(e)), end: first.end },
        Ok(None) => Parsed { outcome: Ok(None), end: at },
        Ok(Some(TokenView::HighLevelSequence(text))) => Parsed {
            outcome: Ok(Some(ParseNodeView::CommandCall(text))),
            end: first.end,
        },
        Ok(Some(TokenView::Variable(_))) => parse_assignment(src, intact, at),
        Ok(Some(_)) => Parsed {
            outcome: Err(
                ParserErrorView::SyntaxError(
                    "only high-level sequences and assignments are supported"@,
                ),
            ),
            end: at,
        },
    }
}

/// The nodes that parsing `src` from `at` to its end gives, after those in
/// `done`; the first error ends the parse.
pub open spec fn parse_nodes(src: Seq<char>, intact: bool, at: int, done: Seq<ParseNodeView>)
    -> Result<Seq<ParseNodeView>, ParserErrorView>
    decreases src.len() - at,
    when 0 <= at <= src.len()
    via parse_nodes_decreases
{
    let parsed = parse_node(src, intact, at);
    match parsed.outcome {
        Err(e) => Err(e),
        Ok(None) => Ok(done),
        Ok(Some(node)) => parse_nodes(src, intact, parsed.end, done.push(node)),
    }
}

#[via_fn]
proof fn parse_nodes_decreases(src: Seq<char>, intact: bool, at: int, done: Seq<ParseNodeView>) {
    lemma_parse_node_advances(src, intact, at);
}

/// The nodes of the low-level text `text`.
pub open spec fn parse_text(text: Seq<char>) -> Result<Seq<ParseNodeView>, ParserErrorView> {
    parse_nodes(text, true, 0, Seq::empty())
}

/// Parsing ends within the source, and a node parsed takes at least one
/// character.
pub proof fn lemma_parse_node_advances(src: Seq<char>, intact: bool, at: int)
    requires
        0 <= at <= src.len(),
    ensures
        at <= parse_node(src, intact, at).end <= src.len(),
        parse_node(src, intact, at).outcome matches Ok(Some(_)) ==> at < parse_node(
            src,
            intact,
            at,
        ).end,
{
    lemma_lex_advances(src, intact, at);
    let first = lex(src, intact, at);
    lemma_run_end(src, at, CharClass::Whitespace);
    if first.outcome matches Ok(Some(TokenView::Variable(_))) {
        lemma_lex_advances(src, intact, first.end);
        let second = lex(src, intact, first.end);
        lemma_run_end(src, first.end, CharClass::Whitespace);
        if second.outcome matches Ok(Some(TokenView::Punctuation(_))) {
            lemma_lex_advances(src, intact, second.end);
            lemma_run_end(src, second.end, CharClass::Whitespace);
        }
    }
}

/// The result of a parser call as a value of the model.
pub open spec fn outcome_view(r: Result<Option<ParseNode>, ParserError>) -> Result<
    Option<ParseNodeView>,
    ParserErrorView,
> {
    match r {
        Ok(Some(node)) => Ok(Some(node@)),
        Ok(None) => Ok(None),
        Err(e) => Err(e@),
    }
}

/// The result of a whole parse as a value of the model.
pub open spec fn nodes_view(r: Result<Vec<ParseNode>, ParserError>) -> Result<
    Seq<ParseNodeView>,
    ParserErrorView,
> {
    match r {
        Ok(nodes) => Ok(nodes.deep_view()),
        Err(e) => Err(e@),
    }
}

/// The low-level parser: a lexer and at most one node read ahead.
pub struct Parser {
    lexer: Lexer,
    peeked: Option<ParseNode>,
    cursor: Ghost<int>,
}

impl Parser {
    /// The characters of the source that is parsed.
    pub closed spec fn source(&self) -> Seq<char> {
        self.lexer.source()
    }

    /// Whether the source is well-formed to its end.
    pub closed spec fn intact(&self) -> bool {
        self.lexer.intact()
    }

    /// The position in the source from which the next node is parsed. A node
    /// read ahead lies after it.
    pub closed spec fn cursor(&self) -> int {
        self.cursor@
    }

    /// The invariant of a parser: a node read ahead is the one that parsing
    /// from the cursor gives, and the lexer stands behind it.
    pub closed spec fn wf(&self) -> bool {
        &&& self.lexer.wf()
        &&& 0 <= self.cursor@ <= self.source().len()
        &&& match self.peeked {
            Some(node) => {
                let parsed = parse_node(self.source(), self.intact(), self.cursor@);
                &&& parsed.outcome == Ok::<Option<ParseNodeView>, ParserErrorView>(Some(node@))
                &&& parsed.end == self.lexer.cursor()
            },
            None => self.lexer.cursor() == self.cursor@,
        }
    }

    /// What the next call of `next` gives, and where it leaves the cursor.
    pub open spec fn upcoming(&self) -> Parsed {
        parse_node(self.source(), self.intact(), self.cursor())
    }

    /// What a call of `next` does to a parser that it leaves as `after` with
    /// the result `r`: it gives what was upcoming and puts the cursor behind
    /// it.
    pub open spec fn advances(&self, after: Parser, r: Result<Option<ParseNode>, ParserError>) -> bool {
        &&& after.source() == self.source()
        &&& after.intact() == self.intact()
        &&& outcome_view(r) == self.upcoming().outcome
        &&& after.cursor() == self.upcoming().end
    }

    /// What a call of `peek` does to a parser that it leaves as `after` with
    /// the result `r`: it gives what was upcoming, and unless that is an
    /// error it leaves the cursor where it was.
    pub open spec fn peeks(&self, after: Parser, r: Result<Option<ParseNode>, ParserError>) -> bool {
        &&& after.source() == self.source()
        &&& after.intact() == self.intact()
        &&& outcome_view(r) == self.upcoming().outcome
        &&& after.cursor() == (if r is Ok {
            self.cursor()
        } else {
            self.upcoming().end
        })
    }

    /// Peeking is stable: where a first `peek` gives no error, any number of
    /// calls of `peek` in a row give the same result, and none of them moves
    /// the cursor. `states` holds the parser before the first call and after
    /// each call, `results` what the calls gave.
    pub proof fn lemma_peek_is_stable(states: Seq<Parser>, results: Seq<Result<Option<ParseNode>, ParserError>>)
        requires
            states.len() == results.len() + 1,
            forall|i: int|
                0 <= i < results.len() ==> (#[trigger] states[i]).peeks(states[i + 1], results[i]),
            results.len() > 0 ==> results[0] is Ok,
        ensures
            forall|i: int|
                0 <= i < results.len() ==> outcome_view(#[trigger] results[i]) == outcome_view(
                    results[0],
                ),
            forall|i: int|
                0 <= i < states.len() ==> (#[trigger] states[i]).upcoming()
                    == states[0].upcoming(),
        decreases results.len(),
    {
        if results.len() > 0 {
            let n = results.len() - 1;
            Parser::lemma_peek_is_stable(states.take(n + 1), results.take(n));
            assert(states.take(n + 1)[n] == states[n]);
            assert(states[n].peeks(states[n + 1], results[n]));
            assert forall|i: int| 0 <= i < results.len() implies outcome_view(
                #[trigger] results[i],
            ) == outcome_view(results[0]) by {
                if i < n {
                    assert(results.take(n)[i] == results[i]);
                    assert(results.take(n)[0] == results[0]);
                }
            }
            assert forall|i: int| 0 <= i < states.len() implies (#[trigger] states[i]).upcoming()
                == states[0].upcoming() by {
                if i <= n {
                    assert(states.take(n + 1)[i] == states[i]);
                    assert(states.take(n + 1)[0] == states[0]);
                }
            }
        }
    }

    /// After a `peek` that gives no error, `next` gives the same result and
    /// puts the cursor behind exactly the node that was seen.
    pub proof fn lemma_next_gives_what_peek_saw(
        self,
        peeked: Parser,
        after: Parser,
        seen: Result<Option<ParseNode>, ParserError>,
        got: Result<Option<ParseNode>, ParserError>,
    )
        requires
            self.peeks(peeked, seen),
            seen is Ok,
            peeked.advances(after, got),
        ensures
            outcome_view(got) == outcome_view(seen),
            after.cursor() == self.upcoming().end,
    {
    }

    /// The cursor lies within the source.
    pub proof fn lemma_cursor_in_source(&self)
        requires
            self.wf(),
        ensures
            0 <= self.cursor() <= self.source().len(),
    {
    }

    /// A parser at the cursor of `lexer`.
    pub fn new(lexer: Lexer) -> (r: Parser)
        requires
            lexer.wf(),
        ensures
            r.wf(),
            r.source() == lexer.source(),
            r.intact() == lexer.intact(),
            r.cursor() == lexer.cursor(),
    {
        proof {
            lexer.lemma_cursor_in_source();
        }
        Parser { lexer, peeked: None, cursor: Ghost(lexer.cursor()) }
    }

    /// Parses the assignment on whose variable the lexer stands.
    fn parse_variable_assignment(&mut self) -> (r: Result<VariableAssignment, ParserError>)
        requires
            old(self).lexer.wf(),
        ensures
            final(self).lexer.wf(),
            final(self).source() == old(self).source(),
            final(self).intact() == old(self).intact(),
            final(self).peeked == old(self).peeked,
            final(self).cursor == old(self).cursor,
            ({
                let parsed = parse_assignment(
                    old(self).source(),
                    old(self).intact(),
                    old(self).lexer.cursor(),
                );
                &&& final(self).lexer.cursor() == parsed.end
                &&& match r {
                    Ok(assignment) => parsed.outcome == Ok::<
                        Option<ParseNodeView>,
                        ParserErrorView,
                    >(
                        Some(
                            ParseNodeView::VariableAssignment {
                                name: assignment.name@,
                                value: assignment.value@,
                            },
                        ),
                    ),
                    Err(e) => parsed.outcome == Err::<Option<ParseNodeView>, ParserErrorView>(e@),
                }
            }),
    {
        let name = match self.lexer.next() {
            Err(e) => {
                return Err(ParserError::LexerError(e));
            },
            Ok(Some(Token::Variable(name))) => name,
            Ok(_) => {
                return Err(ParserError::SyntaxError("Expected identifier".to_owned()));
            },
        };
        match self.lexer.next() {
            Err(e) => {
                return Err(ParserError::LexerError(e));
            },
            Ok(Some(Token::Punctuation('='))) => {},
            Ok(_) => {
                return Err(ParserError::SyntaxError("Expected equals".to_owned()));
            },
        }
        let value = match self.lexer.next() {
            Err(e) => {
                return Err(ParserError::LexerError(e));
            },
            Ok(Some(Token::Literal(digits))) => {
                if !is_decimal(&digits) {
                    return Err(ParserError::SyntaxError("Expected number".to_owned()));
                }
                VariableValue::Number(digits)
            },
            Ok(Some(Token::HighLevelSequence(text))) => VariableValue::HighLevelSequence(text),
            Ok(_) => {
                return Err(ParserError::SyntaxError("Expected number".to_owned()));
            },
        };
        Ok(VariableAssignment { name, value })
    }

    /// Parses one node off the lexer, with no node read ahead.
    fn read_node(&mut self) -> (r: Result<Option<ParseNode>, ParserError>)
        requires
            old(self).wf(),
            old(self).peeked is None,
        ensures
            final(self).lexer.wf(),
            final(self).source() == old(self).source(),
            final(self).intact() == old(self).intact(),
            final(self).peeked is None,
            final(self).cursor == old(self).cursor,
            outcome_view(r) == old(self).upcoming().outcome,
            final(self).lexer.cursor() == old(self).upcoming().end,
    {
        match self.lexer.peek() {
            Err(e) => Err(ParserError::LexerError(e)),
            Ok(None) => Ok(None),
            Ok(Some(Token::HighLevelSequence(text))) => {
                let _ = self.lexer.next();
                Ok(Some(ParseNode::CommandCall(CommandCall::HighLevelSequence(text))))
            },
            Ok(Some(Token::Variable(_))) => {
                match self.parse_variable_assignment() {
                    Ok(assignment) => Ok(Some(ParseNode::VariableAssignment(assignment))),
                    Err(e) => Err(e),
                }
            },
            Ok(Some(_)) => Err(
                ParserError::SyntaxError(
                    "only high-level sequences and assignments are supported".to_owned(),
                ),
            ),
        }
    }

    /// Parses the next node, `None` at the end of the input.
    pub fn next(&mut self) -> (r: Result<Option<ParseNode>, ParserError>)
        requires
            old(self).wf(),
        ensures
            final(self).wf(),
            old(self).advances(*final(self), r),
    {
        proof {
            lemma_parse_node_advances(self.source(), self.intact(), self.cursor@);
        }
        if self.peeked.is_some() {
            let node = self.peeked.take();
            self.cursor = Ghost(self.lexer.cursor());
            return Ok(node);
        }
        let r = self.read_node();
        self.cursor = Ghost(self.lexer.cursor());
        r
    }

    /// The next node, which stays unread: whatever is called next, `peek`
    /// or `next`, gives it again. Only an error moves the cursor.
    pub fn peek(&mut self) -> (r: Result<Option<ParseNode>, ParserError>)
        requires
            old(self).wf(),
        ensures
            final(self).wf(),
            old(self).peeks(*final(self), r),
    {
        proof {
            lemma_parse_node_advances(self.source(), self.intact(), self.cursor@);
        }
        if self.peeked.is_none() {
            match self.read_node() {
                Ok(node) => {
                    self.peeked = node;
                },
                Err(e) => {
                    self.cursor = Ghost(self.lexer.cursor());
                    return Err(e);
                },
            }
        }
        match &self.peeked {
            Some(node) => Ok(Some(node.clone())),
            None => Ok(None),
        }
    }
}

/// Whether `text` is a decimal numeral.
fn is_decimal(text: &String) -> (r: bool)
    ensures
        r == decimal(text@),
{
    let digits = text.as_str();
    if !digits.is_ascii() {
        assert(!decimal(text@)) by {
            if decimal(text@) {
                assert forall|i: int| 0 <= i < text@.len() implies (text@[i] as nat) < 128 by {
                    assert(ascii_digit(text@[i]));
                }
            }
        }
        return false;
    }
    let len = digits.unicode_len();
    if len == 0 {
        return false;
    }
    let mut i: usize = 0;
    while i < len
        invariant
            digits.is_ascii(),
            digits@ == text@,
            len == text@.len(),
            i <= len,
            forall|k: int| 0 <= k < i ==> ascii_digit(#[trigger] text@[k]),
        decreases len - i,
    {
        let b = digits.get_ascii(i);
        if !(b >= 48 && b <= 57) {
            assert(!ascii_digit(text@[i as int]));
            return false;
        }
        i = i + 1;
    }
    true
}

/// Parses the low-level text `text` to its end.
pub fn parse(text: &str) -> (r: Result<Vec<ParseNode>, ParserError>)
    ensures
        nodes_view(r) == parse_text(text@),
{
    let mut parser = Parser::new(Lexer::new(InputStream::from(text)));
    let mut nodes: Vec<ParseNode> = Vec::new();
    let ghost src = parser.source();
    assert(nodes.deep_view() =~= Seq::empty());
    loop
        invariant
            parser.wf(),
            parser.source() == src,
            src == text@,
            parser.intact(),
            parse_nodes(src, true, parser.cursor(), nodes.deep_view()) == parse_text(text@),
        decreases src.len() - parser.cursor(),
    {
        proof {
            parser.lemma_cursor_in_source();
            lemma_parse_node_advances(src, true, parser.cursor());
        }
        let ghost done = nodes.deep_view();
        match parser.next() {
            Err(e) => {
                return Err(e);
            },
            Ok(None) => {
                return Ok(nodes);
            },
            Ok(Some(node)) => {
                nodes.push(node);
                proof {
                    assert(nodes.deep_view() =~= done.push(node@));
                }
            },
        }
    }
}

} // verus!
