//! Content hashes: a 64-bit hash for the values that fragments are made of.

use vstd::prelude::*;
use vstd::std_specs::iter::IteratorSpec;

verus! {

/// `x` with its bits moved `n` places to the right, the bits that fall off
/// the low end coming back in at the top.
pub open spec fn rotated_right(x: u64, n: u32) -> u64 {
    let k = (n % 64) as u64;
    if k == 0 {
        x
    } else {
        (x >> k) | (x << ((64 - k) as u64))
    }
}

/// Calls `u64::rotate_right`, which shifts the bits to the right by `n` and
/// wraps the bits that it shifts out to the beginning of the result.
#[verifier::external_body]
fn rotate_right(x: u64, n: u32) -> (r: u64)
    ensures
        r == rotated_right(x, n),
{
    x.rotate_right(n)
}

/// The hash of the first `n` of a sequence of parts, each known by its own
/// hash: every part's hash is rotated right by its index and the rotated
/// hashes are combined bit by bit, a bit being set in the result when it is
/// set in an odd number of them.
pub open spec fn combine_first(parts: Seq<u64>, n: nat) -> u64
    decreases n,
{
    if n == 0 {
        0
    } else {
        combine_first(parts, (n - 1) as nat) ^ rotated_right(
            parts[n - 1],
            ((n - 1) % 64) as u32,
        )
    }
}

/// The hash of a sequence of parts, each known by its own hash.
pub open spec fn combine(parts: Seq<u64>) -> u64 {
    combine_first(parts, parts.len())
}

/// The hash of a text: its characters are its parts, each its own scalar
/// value.
pub open spec fn text_hash(text: Seq<char>) -> u64 {
    combine(text.map_values(|c: char| c as u64))
}

/// Values with a content hash.
pub trait CirceHash {
    /// The hash of the value.
    spec fn hash_spec(&self) -> u64;

    fn hash(&self) -> (h: u64)
        ensures
            h == self.hash_spec(),
    ;
}

impl CirceHash for u8 {
    open spec fn hash_spec(&self) -> u64 {
        *self as u64
    }

    fn hash(&self) -> (h: u64) {
        *self as u64
    }
}

impl CirceHash for u16 {
    open spec fn hash_spec(&self) -> u64 {
        *self as u64
    }

    fn hash(&self) -> (h: u64) {
        *self as u64
    }
}

impl CirceHash for u32 {
    open spec fn hash_spec(&self) -> u64 {
        *self as u64
    }

    fn hash(&self) -> (h: u64) {
        *self as u64
    }
}

impl CirceHash for u64 {
    open spec fn hash_spec(&self) -> u64 {
        *self
    }

    fn hash(&self) -> (h: u64) {
        *self
    }
}

impl CirceHash for usize {
    open spec fn hash_spec(&self) -> u64 {
        *self as u64
    }

    fn hash(&self) -> (h: u64) {
        *self as u64
    }
}

impl CirceHash for i8 {
    /// The value moved up by half of the largest `i8`, wrapping round at the
    /// end of the type's range, and read as 64 bits in two's complement.
    open spec fn hash_spec(&self) -> u64 {
        self.wrapping_add((i8::MAX / 2) as i8) as u64
    }

    fn hash(&self) -> (h: u64) {
        #[verifier::truncate]
        (self.wrapping_add(i8::MAX / 2) as u64)
    }
}

impl CirceHash for i16 {
    /// The value moved up by half of the largest `i16`, wrapping round at the
    /// end of the type's range, and read as 64 bits in two's complement.
    open spec fn hash_spec(&self) -> u64 {
        self.wrapping_add((i16::MAX / 2) as i16) as u64
    }

    fn hash(&self) -> (h: u64) {
        #[verifier::truncate]
        (self.wrapping_add(i16::MAX / 2) as u64)
    }
}

impl CirceHash for i32 {
    /// The value moved up by half of the largest `i32`, wrapping round at the
    /// end of the type's range, and read as 64 bits in two's complement.
    open spec fn hash_spec(&self) -> u64 {
        self.wrapping_add((i32::MAX / 2) as i32) as u64
    }

    fn hash(&self) -> (h: u64) {
        #[verifier::truncate]
        (self.wrapping_add(i32::MAX / 2) as u64)
    }
}

impl CirceHash for i64 {
    /// The value moved up by half of the largest `i64`, wrapping round at the
    /// end of the type's range, and read as 64 bits in two's complement.
    open spec fn hash_spec(&self) -> u64 {
        self.wrapping_add((i64::MAX / 2) as i64) as u64
    }

    fn hash(&self) -> (h: u64) {
        #[verifier::truncate]
        (self.wrapping_add(i64::MAX / 2) as u64)
    }
}

impl CirceHash for isize {
    /// The value moved up by half of the largest `isize`, wrapping round at the
    /// end of the type's range, and read as 64 bits in two's complement.
    open spec fn hash_spec(&self) -> u64 {
        self.wrapping_add((isize::MAX / 2) as isize) as u64
    }

    fn hash(&self) -> (h: u64) {
        #[verifier::truncate]
        (self.wrapping_add(isize::MAX / 2) as u64)
    }
}

impl CirceHash for bool {
    open spec fn hash_spec(&self) -> u64 {
        if *self {
            1
        } else {
            0
        }
    }

    fn hash(&self) -> (h: u64) {
        if *self {
            1
        } else {
            0
        }
    }
}

impl CirceHash for char {
    open spec fn hash_spec(&self) -> u64 {
        *self as u64
    }

    fn hash(&self) -> (h: u64) {
        *self as u64
    }
}

impl CirceHash for String {
    open spec fn hash_spec(&self) -> u64 {
        text_hash(self@)
    }

    fn hash(&self) -> (h: u64) {
        broadcast use vstd::string::group_string_axioms;

        let ghost parts = self@.map_values(|c: char| c as u64);
        let mut hash: u64 = 0;
        let mut turn: u32 = 0;
        let mut chars = self.as_str().chars();
        let ghost mut seen: nat = 0;
        loop
            invariant
                seen <= self@.len(),
                chars.remaining() == self@.skip(seen as int),
                parts == self@.map_values(|c: char| c as u64),
                turn == seen % 64,
                hash == combine_first(parts, seen),
            ensures
                seen == self@.len(),
                hash == combine_first(parts, seen),
            decreases self@.len() - seen,
        {
            match chars.next() {
                None => {
                    break ;
                },
                Some(c) => {
                    assert(self@.skip(seen as int).drop_first() =~= self@.skip((seen + 1) as int));
                    assert(c == self@[seen as int]);
                    hash = hash ^ rotate_right(c.hash(), turn);
                    turn = (turn + 1) % 64;
                    proof {
                        seen = seen + 1;
                    }
                },
            }
        }
        hash
    }
}

impl<T: CirceHash> CirceHash for Option<T> {
    open spec fn hash_spec(&self) -> u64 {
        match self {
            Some(value) => value.hash_spec(),
            None => 0,
        }
    }

    fn hash(&self) -> (h: u64) {
        match self {
            Some(value) => value.hash(),
            None => 0,
        }
    }
}

impl<T: CirceHash> CirceHash for Vec<T> {
    open spec fn hash_spec(&self) -> u64 {
        combine(self@.map_values(|value: T| value.hash_spec()))
    }

    fn hash(&self) -> (h: u64) {
        let ghost parts = self@.map_values(|value: T| value.hash_spec());
        let mut hash: u64 = 0;
        let mut turn: u32 = 0;
        let mut i: usize = 0;
        while i < self.len()
            invariant
                i <= self.len(),
                parts == self@.map_values(|value: T| value.hash_spec()),
                turn == i % 64,
                hash == combine_first(parts, i as nat),
            decreases self.len() - i,
        {
            hash = hash ^ rotate_right(self[i].hash(), turn);
            turn = (turn + 1) % 64;
            i = i + 1;
        }
        hash
    }
}

impl<T: CirceHash> CirceHash for [T] {
    open spec fn hash_spec(&self) -> u64 {
        combine(self@.map_values(|value: T| value.hash_spec()))
    }

    fn hash(&self) -> (h: u64) {
        let ghost parts = self@.map_values(|value: T| value.hash_spec());
        let mut hash: u64 = 0;
        let mut turn: u32 = 0;
        let mut i: usize = 0;
        while i < self.len()
            invariant
                i <= self.len(),
                parts == self@.map_values(|value: T| value.hash_spec()),
                turn == i % 64,
                hash == combine_first(parts, i as nat),
            decreases self.len() - i,
        {
            hash = hash ^ rotate_right(self[i].hash(), turn);
            turn = (turn + 1) % 64;
            i = i + 1;
        }
        hash
    }
}

impl<T: CirceHash, const N: usize> CirceHash for [T; N] {
    open spec fn hash_spec(&self) -> u64 {
        combine(self@.map_values(|value: T| value.hash_spec()))
    }

    fn hash(&self) -> (h: u64) {
        let ghost parts = self@.map_values(|value: T| value.hash_spec());
        let mut hash: u64 = 0;
        let mut turn: u32 = 0;
        let mut i: usize = 0;
        while i < N
            invariant
                i <= N,
                N == self@.len(),
                parts == self@.map_values(|value: T| value.hash_spec()),
                turn == i % 64,
                hash == combine_first(parts, i as nat),
            decreases N - i,
        {
            hash = hash ^ rotate_right(self[i].hash(), turn);
            turn = (turn + 1) % 64;
            i = i + 1;
        }
        hash
    }
}

impl<T: CirceHash> CirceHash for Box<T> {
    open spec fn hash_spec(&self) -> u64 {
        (**self).hash_spec()
    }

    fn hash(&self) -> (h: u64) {
        (**self).hash()
    }
}

impl<T: CirceHash> CirceHash for &T {
    open spec fn hash_spec(&self) -> u64 {
        (**self).hash_spec()
    }

    fn hash(&self) -> (h: u64) {
        (**self).hash()
    }
}

} // verus!
