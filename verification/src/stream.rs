//! The decoder: a byte source read as position-tracked codepoints, with one
//! codepoint of lookahead.

use crate::chars::char_from_scalar;
use vstd::prelude::*;
use vstd::slice::slice_to_vec;
use vstd::std_specs::convert::FromSpecImpl;
use vstd::string::StrSliceExecFns;
use vstd::utf8::*;

verus! {

/// The characters that decode from the front of `bytes`: decoding stops at the
/// end of the input or before the first malformed sequence.
pub open spec fn decoded_prefix(bytes: Seq<u8>) -> Seq<char>
    decreases bytes.len(),
    via decoded_prefix_decreases
{
    if bytes.len() > 0 && valid_first_scalar(bytes) {
        seq![decode_first_scalar(bytes) as char] + decoded_prefix(pop_first_scalar(bytes))
    } else {
        Seq::empty()
    }
}

#[via_fn]
proof fn decoded_prefix_decreases(bytes: Seq<u8>) {
    if bytes.len() > 0 && valid_first_scalar(bytes) {
        lemma_pop_shrinks(bytes);
    }
}

/// The line on which the reader stands after `n` characters of `src`.
/// Lines count from 1, and every `'\n'` read starts a new one.
pub open spec fn line_after(src: Seq<char>, n: nat) -> nat
    decreases n,
{
    if n == 0 {
        1
    } else if src[n - 1] == '\n' {
        line_after(src, (n - 1) as nat) + 1
    } else {
        line_after(src, (n - 1) as nat)
    }
}

/// The column at which the reader stands after `n` characters of `src`.
/// Columns count from 1; a `'\n'` read puts the reader back at column 1, any
/// other character moves it one column on.
pub open spec fn column_after(src: Seq<char>, n: nat) -> nat
    decreases n,
{
    if n == 0 || src[n - 1] == '\n' {
        1
    } else {
        column_after(src, (n - 1) as nat) + 1
    }
}

/// `n` as a machine word: a count beyond the largest `usize` is held at it.
pub open spec fn clip(n: nat) -> usize {
    if n <= usize::MAX {
        n as usize
    } else {
        usize::MAX
    }
}

/// A well-formed first scalar takes at least one byte and no more than there are.
pub proof fn lemma_pop_shrinks(bytes: Seq<u8>)
    requires
        valid_first_scalar(bytes),
    ensures
        1 <= length_of_first_scalar(bytes) <= bytes.len(),
        pop_first_scalar(bytes).len() == bytes.len() - length_of_first_scalar(bytes),
{
}

/// On well-formed UTF-8 the decoded prefix is the whole decoding.
pub proof fn lemma_decoded_prefix_of_valid(bytes: Seq<u8>)
    requires
        valid_utf8(bytes),
    ensures
        decoded_prefix(bytes) == decode_utf8(bytes),
    decreases bytes.len(),
{
    if bytes.len() > 0 {
        lemma_pop_shrinks(bytes);
        lemma_decoded_prefix_of_valid(pop_first_scalar(bytes));
    }
}

/// Encoding a text and decoding the bytes again gives the text back, whole.
pub proof fn lemma_decoded_prefix_of_encoding(text: Seq<char>)
    ensures
        valid_utf8(encode_utf8(text)),
        decoded_prefix(encode_utf8(text)) == text,
{
    encode_utf8_valid_utf8(text);
    encode_utf8_decode_utf8(text);
    lemma_decoded_prefix_of_valid(encode_utf8(text));
}

/// Why a read failed.
#[derive(Debug, Clone, Copy, PartialEq, Eq, Structural)]
pub enum InputStreamError {
    /// The bytes at the read position are no well-formed UTF-8 sequence:
    /// malformed, overlong, a surrogate, or cut short by the end of the input.
    InvalidUtf8,
}

/// A byte source read codepoint by codepoint.
pub struct InputStream {
    bytes: Vec<u8>,
    offset: usize,
    line: usize,
    column: usize,
    pos: usize,
}

impl InputStream {
    /// Every character that the stream can yield, read or not.
    pub closed spec fn source(&self) -> Seq<char> {
        decoded_prefix(self.bytes@)
    }

    /// Whether the bytes are well-formed to their end, so that reading ends
    /// with the end of the input and not with an error.
    pub closed spec fn intact(&self) -> bool {
        valid_utf8(self.bytes@)
    }

    /// How many characters have been read.
    pub closed spec fn consumed(&self) -> nat {
        self.pos as nat
    }

    /// The bytes not yet read.
    spec fn rest(&self) -> Seq<u8> {
        self.bytes@.subrange(self.offset as int, self.bytes@.len() as int)
    }

    /// The invariant of a stream: its position lies within its source, and
    /// line and column are those of that position.
    pub closed spec fn wf(&self) -> bool {
        &&& self.offset <= self.bytes@.len()
        &&& self.pos <= self.offset
        &&& self.pos <= self.source().len()
        &&& decoded_prefix(self.rest()) == self.source().skip(self.pos as int)
        &&& valid_utf8(self.rest()) == valid_utf8(self.bytes@)
        &&& self.line == clip(line_after(self.source(), self.pos as nat))
        &&& self.column == clip(column_after(self.source(), self.pos as nat))
    }

    /// What the next read gives: the character at the read position, `None` at
    /// the end of an intact source, and an error where malformed bytes follow.
    pub open spec fn upcoming(&self) -> Result<Option<char>, InputStreamError> {
        if self.consumed() < self.source().len() {
            Ok(Some(self.source()[self.consumed() as int]))
        } else if self.intact() {
            Ok(None)
        } else {
            Err(InputStreamError::InvalidUtf8)
        }
    }

    /// The read position never lies beyond the source.
    pub proof fn lemma_consumed_in_source(&self)
        requires
            self.wf(),
        ensures
            self.consumed() <= self.source().len(),
    {
    }

    /// A stream at the start of `bytes`.
    pub fn new(bytes: Vec<u8>) -> (r: InputStream)
        ensures
            r.wf(),
            r.source() == decoded_prefix(bytes@),
            r.intact() == valid_utf8(bytes@),
            r.consumed() == 0,
    {
        let r = InputStream { bytes, offset: 0, line: 1, column: 1, pos: 0 };
        proof {
            assert(r.rest() =~= r.bytes@);
            assert(r.source().skip(0) =~= r.source());
        }
        r
    }

    /// Decodes the sequence at the read position without moving: the character
    /// and the number of bytes it takes.
    fn decode(&self) -> (r: Result<Option<(char, usize)>, InputStreamError>)
        requires
            self.offset <= self.bytes@.len(),
        ensures
            match r {
                Ok(None) => self.rest().len() == 0,
                Ok(Some((c, n))) => {
                    &&& self.rest().len() > 0
                    &&& valid_first_scalar(self.rest())
                    &&& c == decode_first_scalar(self.rest()) as char
                    &&& n == length_of_first_scalar(self.rest())
                    &&& self.offset + n <= self.bytes@.len() <= usize::MAX
                },
                Err(e) => {
                    &&& self.rest().len() > 0
                    &&& !valid_first_scalar(self.rest())
                    &&& e == InputStreamError::InvalidUtf8
                },
            },
    {
        let len = self.bytes.len();
        let left = len - self.offset;
        if left == 0 {
            return Ok(None);
        }
        let ghost rest = self.rest();
        let b0 = self.bytes[self.offset];
        assert(b0 == rest[0]);
        let width: usize;
        let scalar: u32;
        if b0 <= 0x7f {
            width = 1;
            scalar = (b0 & 0x7F) as u32;
            assert((b0 & 0x7F) as u32 <= 0x7f) by (bit_vector);
        } else if 0xc0 <= b0 && b0 <= 0xdf {
            if left < 2 {
                return Err(InputStreamError::InvalidUtf8);
            }
            let b1 = self.bytes[self.offset + 1];
            assert(b1 == rest[1]);
            if !(0x80 <= b1 && b1 <= 0xbf) {
                return Err(InputStreamError::InvalidUtf8);
            }
            width = 2;
            scalar = (((b0 & 0x1F) as u32) << 6) | ((b1 & 0x3f) as u32);
            assert(((((b0 & 0x1F) as u32) << 6) | ((b1 & 0x3f) as u32)) <= 0x7ff) by (bit_vector);
        } else if 0xe0 <= b0 && b0 <= 0xef {
            if left < 3 {
                return Err(InputStreamError::InvalidUtf8);
            }
            let b1 = self.bytes[self.offset + 1];
            let b2 = self.bytes[self.offset + 2];
            assert(b1 == rest[1] && b2 == rest[2]);
            if !(0x80 <= b1 && b1 <= 0xbf && 0x80 <= b2 && b2 <= 0xbf) {
                return Err(InputStreamError::InvalidUtf8);
            }
            width = 3;
            scalar = (((b0 & 0x0F) as u32) << 12) | (((b1 & 0x3f) as u32) << 6) | ((b2
                & 0x3f) as u32);
            assert(((((b0 & 0x0F) as u32) << 12) | (((b1 & 0x3f) as u32) << 6) | ((b2
                & 0x3f) as u32)) <= 0xffff) by (bit_vector);
        } else if 0xf0 <= b0 && b0 <= 0xf7 {
            if left < 4 {
                return Err(InputStreamError::InvalidUtf8);
            }
            let b1 = self.bytes[self.offset + 1];
            let b2 = self.bytes[self.offset + 2];
            let b3 = self.bytes[self.offset + 3];
            assert(b1 == rest[1] && b2 == rest[2] && b3 == rest[3]);
            if !(0x80 <= b1 && b1 <= 0xbf && 0x80 <= b2 && b2 <= 0xbf && 0x80 <= b3 && b3
                <= 0xbf) {
                return Err(InputStreamError::InvalidUtf8);
            }
            width = 4;
            scalar = (((b0 & 0x07) as u32) << 18) | (((b1 & 0x3f) as u32) << 12) | (((b2
                & 0x3f) as u32) << 6) | ((b3 & 0x3f) as u32);
        } else {
            return Err(InputStreamError::InvalidUtf8);
        }
        assert(valid_leading_and_continuation_bytes_first_codepoint(rest));
        assert(scalar == decode_first_codepoint(rest));
        assert(width == length_of_first_codepoint(rest));
        let overlong = (width == 2 && scalar < 0x80) || (width == 3 && scalar < 0x800) || (width
            == 4 && !(0x10000 <= scalar && scalar <= 0x10ffff));
        let surrogate = 0xD800 <= scalar && scalar <= 0xDFFF;
        if overlong || surrogate {
            return Err(InputStreamError::InvalidUtf8);
        }
        assert(valid_first_scalar(rest));
        assert(is_scalar(scalar));
        match char_from_scalar(scalar) {
            Some(c) => Ok(Some((c, width))),
            None => Err(InputStreamError::InvalidUtf8),
        }
    }

    /// The next character, which stays unread.
    pub fn peek(&self) -> (r: Result<Option<char>, InputStreamError>)
        requires
            self.wf(),
        ensures
            r == self.upcoming(),
    {
        proof {
            self.lemma_step();
        }
        match self.decode() {
            Ok(Some((c, _))) => Ok(Some(c)),
            Ok(None) => Ok(None),
            Err(e) => Err(e),
        }
    }

    /// Reads the next character. Only a character read moves the stream: at
    /// the end of the input and on an error it stays as it was.
    pub fn next(&mut self) -> (r: Result<Option<char>, InputStreamError>)
        requires
            old(self).wf(),
        ensures
            final(self).wf(),
            r == old(self).upcoming(),
            final(self).source() == old(self).source(),
            final(self).intact() == old(self).intact(),
            final(self).consumed() == old(self).consumed() + (if r matches Ok(Some(_)) {
                1nat
            } else {
                0nat
            }),
    {
        proof {
            self.lemma_step();
        }
        match self.decode() {
            Ok(Some((c, width))) => {
                let ghost before = *self;
                proof {
                    lemma_pop_shrinks(self.rest());
                    assert(self.rest().len() == self.bytes@.len() - self.offset);
                }
                self.offset = self.offset + width;
                self.pos = self.pos + 1;
                if c == '\n' {
                    if self.line < usize::MAX {
                        self.line = self.line + 1;
                    }
                    self.column = 1;
                } else if self.column < usize::MAX {
                    self.column = self.column + 1;
                }
                proof {
                    assert(self.rest() =~= pop_first_scalar(before.rest()));
                    assert(self.source().skip(self.pos as int) =~= self.source().skip(
                        before.pos as int,
                    ).skip(1));
                    assert(decoded_prefix(before.rest()).skip(1) =~= decoded_prefix(self.rest()));
                }
                Ok(Some(c))
            },
            Ok(None) => Ok(None),
            Err(e) => Err(e),
        }
    }

    /// How the bytes at the read position relate to the source.
    proof fn lemma_step(&self)
        requires
            self.wf(),
        ensures
            self.rest().len() > 0 && valid_first_scalar(self.rest()) ==> {
                &&& self.pos < self.source().len()
                &&& self.source()[self.pos as int] == decode_first_scalar(self.rest()) as char
                &&& valid_utf8(self.bytes@) == valid_utf8(pop_first_scalar(self.rest()))
            },
            self.rest().len() == 0 ==> self.pos == self.source().len() && valid_utf8(
                self.bytes@,
            ),
            self.rest().len() > 0 && !valid_first_scalar(self.rest()) ==> self.pos
                == self.source().len() && !valid_utf8(self.bytes@),
    {
        let rest = self.rest();
        let tail = self.source().skip(self.pos as int);
        assert(tail.len() == self.source().len() - self.pos);
        if rest.len() > 0 && valid_first_scalar(rest) {
            assert(tail[0] == self.source()[self.pos as int]);
        }
    }

    /// The line of the read position, counted from 1 and held at the largest
    /// `usize` beyond it.
    pub fn line(&self) -> (r: usize)
        requires
            self.wf(),
        ensures
            r == clip(line_after(self.source(), self.consumed())),
    {
        self.line
    }

    /// The column of the read position, counted from 1 and held at the largest
    /// `usize` beyond it.
    pub fn column(&self) -> (r: usize)
        requires
            self.wf(),
        ensures
            r == clip(column_after(self.source(), self.consumed())),
    {
        self.column
    }

    /// The number of characters read so far.
    pub fn pos(&self) -> (r: usize)
        requires
            self.wf(),
        ensures
            r == self.consumed(),
    {
        self.pos
    }
}

impl<'a> FromSpecImpl<&'a str> for InputStream {
    open spec fn obeys_from_spec() -> bool {
        false
    }

    open spec fn from_spec(text: &'a str) -> InputStream {
        arbitrary()
    }
}

impl<'a> From<&'a str> for InputStream {
    /// A stream at the start of `text`, which it reads whole.
    fn from(text: &'a str) -> (r: InputStream)
        ensures
            r.wf(),
            r.source() == text@,
            r.intact(),
            r.consumed() == 0,
    {
        proof {
            lemma_decoded_prefix_of_encoding(text@);
        }
        InputStream::new(text.as_bytes_vec())
    }
}

impl FromSpecImpl<String> for InputStream {
    open spec fn obeys_from_spec() -> bool {
        false
    }

    open spec fn from_spec(text: String) -> InputStream {
        arbitrary()
    }
}

impl From<String> for InputStream {
    /// A stream at the start of `text`, which it reads whole.
    fn from(text: String) -> (r: InputStream)
        ensures
            r.wf(),
            r.source() == text@,
            r.intact(),
            r.consumed() == 0,
    {
        proof {
            lemma_decoded_prefix_of_encoding(text@);
        }
        InputStream::new(text.as_str().as_bytes_vec())
    }
}

impl<'a> FromSpecImpl<&'a [u8]> for InputStream {
    open spec fn obeys_from_spec() -> bool {
        false
    }

    open spec fn from_spec(bytes: &'a [u8]) -> InputStream {
        arbitrary()
    }
}

impl<'a> From<&'a [u8]> for InputStream {
    /// A stream at the start of a copy of `bytes`.
    fn from(bytes: &'a [u8]) -> (r: InputStream)
        ensures
            r.wf(),
            r.source() == decoded_prefix(bytes@),
            r.intact() == valid_utf8(bytes@),
            r.consumed() == 0,
    {
        InputStream::new(slice_to_vec(bytes))
    }
}

} // verus!
