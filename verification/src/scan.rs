//! Scanning runs of characters off a stream: the steps that both lexers are
//! made of.

use crate::chars::{
    alphanumeric, is_alphanumeric, is_numeric, is_whitespace, numeric, push_char, whitespace,
};
use crate::stream::{InputStream, InputStreamError};
use vstd::prelude::*;

verus! {

/// The classes of characters that tokens are runs of.
#[derive(Debug, Clone, Copy, PartialEq, Eq, Structural)]
pub enum CharClass {
    /// White space, which separates tokens.
    Whitespace,
    /// Letters and digits.
    Alphanumeric,
    /// Letters, digits and the underscore.
    Word,
    /// Digits and the other numeric characters.
    Numeric,
}

impl CharClass {
    /// Whether `c` belongs to the class.
    pub open spec fn holds(self, c: char) -> bool {
        match self {
            CharClass::Whitespace => whitespace(c),
            CharClass::Alphanumeric => alphanumeric(c),
            CharClass::Word => alphanumeric(c) || c == '_',
            CharClass::Numeric => numeric(c),
        }
    }

    /// Tests `c` for the class.
    pub fn test(self, c: char) -> (r: bool)
        ensures
            r == self.holds(c),
    {
        match self {
            CharClass::Whitespace => is_whitespace(c),
            CharClass::Alphanumeric => is_alphanumeric(c),
            CharClass::Word => c == '_' || is_alphanumeric(c),
            CharClass::Numeric => is_numeric(c),
        }
    }
}

/// Where the longest run of `class` characters that starts at `i` ends: the
/// index of the first character at or after `i` that is not of the class, or
/// the length of `src` where there is none.
pub open spec fn run_end(src: Seq<char>, i: int, class: CharClass) -> int
    decreases src.len() - i,
{
    if 0 <= i < src.len() && class.holds(src[i]) {
        run_end(src, i + 1, class)
    } else {
        i
    }
}

/// The index of the first `stop` at or after `i`, or the length of `src` where
/// there is none.
pub open spec fn find(src: Seq<char>, i: int, stop: char) -> int
    decreases src.len() - i,
{
    if 0 <= i < src.len() && src[i] != stop {
        find(src, i + 1, stop)
    } else {
        i
    }
}

/// A run ends at or after its start and within the source, and it is the same
/// run from any place inside it.
pub proof fn lemma_run_end(src: Seq<char>, i: int, class: CharClass)
    requires
        0 <= i <= src.len(),
    ensures
        i <= run_end(src, i, class) <= src.len(),
        forall|k: int| i <= k < run_end(src, i, class) ==> class.holds(#[trigger] src[k]),
        run_end(src, i, class) < src.len() ==> !class.holds(src[run_end(src, i, class)]),
        forall|k: int|
            i <= k <= run_end(src, i, class) ==> #[trigger] run_end(src, k, class) == run_end(
                src,
                i,
                class,
            ),
    decreases src.len() - i,
{
    if i < src.len() && class.holds(src[i]) {
        lemma_run_end(src, i + 1, class);
    }
}

/// A search ends at or after its start and within the source, on the first
/// `stop` if there is one.
pub proof fn lemma_find(src: Seq<char>, i: int, stop: char)
    requires
        0 <= i <= src.len(),
    ensures
        i <= find(src, i, stop) <= src.len(),
        forall|k: int| i <= k < find(src, i, stop) ==> #[trigger] src[k] != stop,
        find(src, i, stop) < src.len() ==> src[find(src, i, stop)] == stop,
    decreases src.len() - i,
{
    if i < src.len() && src[i] != stop {
        lemma_find(src, i + 1, stop);
    }
}

/// Reads the run of `class` characters at the read position and drops it.
/// The stream then stands on the first character that is not of the class,
/// at the end of its source where there is none.
pub fn skip_run(stream: &mut InputStream, class: CharClass)
    requires
        old(stream).wf(),
    ensures
        final(stream).wf(),
        final(stream).source() == old(stream).source(),
        final(stream).intact() == old(stream).intact(),
        final(stream).consumed() == run_end(
            old(stream).source(),
            old(stream).consumed() as int,
            class,
        ),
{
    let ghost src = stream.source();
    let ghost start = stream.consumed() as int;
    proof {
        stream.lemma_consumed_in_source();
    }
    loop
        invariant
            stream.wf(),
            stream.source() == src,
            src == old(stream).source(),
            start == old(stream).consumed(),
            stream.intact() == old(stream).intact(),
            start <= stream.consumed() <= src.len(),
            run_end(src, stream.consumed() as int, class) == run_end(src, start, class),
        decreases src.len() - stream.consumed(),
    {
        match stream.peek() {
            Ok(Some(c)) => {
                if class.test(c) {
                    let _ = stream.next();
                } else {
                    return ;
                }
            },
            _ => {
                return ;
            },
        }
    }
}

/// Reads the run of `class` characters at the read position onto the end of
/// `text`. It fails where the run reaches the end of a source that is not
/// intact; the run is read and kept in `text` all the same.
pub fn read_run(stream: &mut InputStream, class: CharClass, text: &mut String) -> (r: Result<
    (),
    InputStreamError,
>)
    requires
        old(stream).wf(),
    ensures
        final(stream).wf(),
        final(stream).source() == old(stream).source(),
        final(stream).intact() == old(stream).intact(),
        final(stream).consumed() == run_end(
            old(stream).source(),
            old(stream).consumed() as int,
            class,
        ),
        final(text)@ == old(text)@ + old(stream).source().subrange(
            old(stream).consumed() as int,
            final(stream).consumed() as int,
        ),
        r == (if final(stream).consumed() >= old(stream).source().len() && !old(stream).intact() {
            Err(InputStreamError::InvalidUtf8)
        } else {
            Ok::<(), InputStreamError>(())
        }),
{
    let ghost src = stream.source();
    let ghost start = stream.consumed() as int;
    let ghost before = text@;
    proof {
        stream.lemma_consumed_in_source();
        assert(text@ =~= before + src.subrange(start, start));
    }
    loop
        invariant
            stream.wf(),
            stream.source() == src,
            src == old(stream).source(),
            start == old(stream).consumed(),
            stream.intact() == old(stream).intact(),
            start <= stream.consumed() <= src.len(),
            run_end(src, stream.consumed() as int, class) == run_end(src, start, class),
            before == old(text)@,
            text@ == before + src.subrange(start, stream.consumed() as int),
        decreases src.len() - stream.consumed(),
    {
        let ghost at = stream.consumed() as int;
        match stream.peek() {
            Ok(Some(c)) => {
                if class.test(c) {
                    let _ = stream.next();
                    push_char(text, c);
                    proof {
                        assert(text@ =~= before + src.subrange(start, at + 1));
                    }
                } else {
                    return Ok(());
                }
            },
            Ok(None) => {
                return Ok(());
            },
            Err(e) => {
                return Err(e);
            },
        }
    }
}

/// Reads onto the end of `text` up to the next `stop`, and reads the `stop`
/// itself without keeping it. The result tells whether there was one: without
/// one, everything up to the end of the source is read and kept, and the read
/// fails if the source is not intact.
pub fn read_until(stream: &mut InputStream, stop: char, text: &mut String) -> (r: Result<
    bool,
    InputStreamError,
>)
    requires
        old(stream).wf(),
    ensures
        final(stream).wf(),
        final(stream).source() == old(stream).source(),
        final(stream).intact() == old(stream).intact(),
        final(text)@ == old(text)@ + old(stream).source().subrange(
            old(stream).consumed() as int,
            find(old(stream).source(), old(stream).consumed() as int, stop),
        ),
        ({
            let src = old(stream).source();
            let at = find(src, old(stream).consumed() as int, stop);
            let now = final(stream).consumed();
            if at < src.len() {
                r == Ok::<bool, InputStreamError>(true) && now == at + 1
            } else if old(stream).intact() {
                r == Ok::<bool, InputStreamError>(false) && now == at
            } else {
                r == Err::<bool, InputStreamError>(InputStreamError::InvalidUtf8) && now == at
            }
        }),
{
    let ghost src = stream.source();
    let ghost start = stream.consumed() as int;
    let ghost before = text@;
    proof {
        stream.lemma_consumed_in_source();
        lemma_find(src, start, stop);
        assert(text@ =~= before + src.subrange(start, start));
    }
    loop
        invariant
            stream.wf(),
            stream.source() == src,
            src == old(stream).source(),
            start == old(stream).consumed(),
            stream.intact() == old(stream).intact(),
            start <= stream.consumed() <= src.len(),
            find(src, stream.consumed() as int, stop) == find(src, start, stop),
            before == old(text)@,
            text@ == before + src.subrange(start, stream.consumed() as int),
        decreases src.len() - stream.consumed(),
    {
        let ghost at = stream.consumed() as int;
        match stream.next() {
            Ok(Some(c)) => {
                if c == stop {
                    return Ok(true);
                }
                push_char(text, c);
                proof {
                    assert(text@ =~= before + src.subrange(start, at + 1));
                }
            },
            Ok(None) => {
                return Ok(false);
            },
            Err(e) => {
                return Err(e);
            },
        }
    }
}

} // verus!
