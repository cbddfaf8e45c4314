//! A cursor over text that is already decoded: it reads a string slice
//! character by character and keeps track of line and column.

use crate::stream::{clip, column_after, line_after};
use core::str::Chars;
use vstd::prelude::*;
use vstd::std_specs::iter::IteratorSpec;

verus! {

/// `Chars::as_str` gives the part of the text that the iterator has not
/// yielded yet: its characters are those that the iterator still holds.
pub assume_specification<'a>[ Chars::<'a>::as_str ](chars: &Chars<'a>) -> (rest: &'a str)
    ensures
        rest@ == chars.remaining(),
;

/// A cursor over a text.
pub struct InputStream<'s> {
    data: &'s str,
    line: usize,
    column: usize,
    pos: usize,
    read: Ghost<Seq<char>>,
}

impl<'s> InputStream<'s> {
    /// The characters that are still to be read.
    pub closed spec fn remaining(&self) -> Seq<char> {
        self.data@
    }

    /// The characters that have been read.
    pub closed spec fn consumed(&self) -> Seq<char> {
        self.read@
    }

    /// The invariant of a cursor: position, line and column are those behind
    /// the characters read.
    pub closed spec fn wf(&self) -> bool {
        &&& self.pos == clip(self.read@.len())
        &&& self.line == clip(line_after(self.read@, self.read@.len()))
        &&& self.column == clip(column_after(self.read@, self.read@.len()))
    }

    /// A cursor at the start of `data`.
    pub fn new(data: &'s str) -> (r: InputStream<'s>)
        ensures
            r.wf(),
            r.remaining() == data@,
            r.consumed() == Seq::<char>::empty(),
    {
        InputStream { data, line: 1, column: 1, pos: 0, read: Ghost(Seq::empty()) }
    }

    /// The next character, which stays unread; `None` at the end of the text.
    pub fn peek(&self) -> (r: Option<char>)
        ensures
            r == self.peek_spec(),
    {
        broadcast use vstd::string::group_string_axioms;

        let mut chars = self.data.chars();
        chars.next()
    }

    /// The character `n` places after the next, which stays unread; `None`
    /// beyond the end of the text.
    pub fn peek_n(&self, n: usize) -> (r: Option<char>)
        ensures
            r == (if n < self.remaining().len() {
                Some(self.remaining()[n as int])
            } else {
                None
            }),
    {
        broadcast use vstd::string::group_string_axioms;

        let mut chars = self.data.chars();
        let mut i: usize = 0;
        while i < n
            invariant
                i <= n,
                i <= self.data@.len(),
                chars.remaining() == self.data@.skip(i as int),
            decreases n - i,
        {
            match chars.next() {
                Some(_) => {
                    assert(self.data@.skip(i as int).drop_first() =~= self.data@.skip(i + 1));
                },
                None => {
                    return None;
                },
            }
            i = i + 1;
        }
        chars.next()
    }

    /// Reads the next character, `None` at the end of the text.
    pub fn next(&mut self) -> (r: Option<char>)
        requires
            old(self).wf(),
        ensures
            final(self).wf(),
            r == old(self).peek_spec(),
            match r {
                Some(c) => {
                    &&& final(self).remaining() == old(self).remaining().drop_first()
                    &&& final(self).consumed() == old(self).consumed().push(c)
                },
                None => {
                    &&& final(self).remaining() == old(self).remaining()
                    &&& final(self).consumed() == old(self).consumed()
                },
            },
    {
        broadcast use vstd::string::group_string_axioms;

        let mut chars = self.data.chars();
        match chars.next() {
            None => None,
            Some(c) => {
                let ghost before = self.read@;
                self.data = chars.as_str();
                self.read = Ghost(before.push(c));
                if self.pos < usize::MAX {
                    self.pos = self.pos + 1;
                }
                if c == '\n' {
                    if self.line < usize::MAX {
                        self.line = self.line + 1;
                    }
                    self.column = 1;
                } else if self.column < usize::MAX {
                    self.column = self.column + 1;
                }
                proof {
                    let after = before.push(c);
                    lemma_position_prefix(after, before, before.len());
                }
                Some(c)
            },
        }
    }

    /// What `peek` gives: the first of the remaining characters.
    pub open spec fn peek_spec(&self) -> Option<char> {
        if self.remaining().len() > 0 {
            Some(self.remaining()[0])
        } else {
            None
        }
    }

    /// The line of the cursor, counted from 1 and held at the largest `usize`
    /// beyond it.
    pub fn line(&self) -> (r: usize)
        requires
            self.wf(),
        ensures
            r == clip(line_after(self.consumed(), self.consumed().len())),
    {
        self.line
    }

    /// The column of the cursor, counted from 1 and held at the largest
    /// `usize` beyond it.
    pub fn column(&self) -> (r: usize)
        requires
            self.wf(),
        ensures
            r == clip(column_after(self.consumed(), self.consumed().len())),
    {
        self.column
    }

    /// The number of characters read, held at the largest `usize` beyond it.
    pub fn pos(&self) -> (r: usize)
        requires
            self.wf(),
        ensures
            r == clip(self.consumed().len()),
    {
        self.pos
    }
}

/// Line and column after `n` characters depend on those characters alone.
pub proof fn lemma_position_prefix(longer: Seq<char>, shorter: Seq<char>, n: nat)
    requires
        n <= shorter.len() <= longer.len(),
        forall|i: int| 0 <= i < n ==> longer[i] == shorter[i],
    ensures
        line_after(longer, n) == line_after(shorter, n),
        column_after(longer, n) == column_after(shorter, n),
    decreases n,
{
    if n > 0 {
        lemma_position_prefix(longer, shorter, (n - 1) as nat);
    }
}

} // verus!
