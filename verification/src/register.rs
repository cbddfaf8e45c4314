//! Registers of the four machine widths, and the moves between them that
//! lose nothing.

use vstd::prelude::*;

verus! {

/// A width that a register can have.
pub trait RegisterSize: Clone {
    /// The number of bits.
    const SIZE: usize;

    /// The values that a register of this width holds.
    type Value: Copy;

    /// The number of bits of the values that a register of this width holds.
    spec fn bits() -> usize;

    /// The number of bits: what `SIZE` holds.
    fn size() -> (r: usize)
        ensures
            r == Self::bits(),
    ;
}

/// The width of 8 bits.
#[derive(Debug, Clone)]
pub struct Reg8;

impl RegisterSize for Reg8 {
    const SIZE: usize = 8;

    type Value = u8;

    open spec fn bits() -> usize {
        8
    }

    fn size() -> (r: usize) {
        Self::SIZE
    }
}

/// The width of 16 bits.
#[derive(Debug, Clone)]
pub struct Reg16;

impl RegisterSize for Reg16 {
    const SIZE: usize = 16;

    type Value = u16;

    open spec fn bits() -> usize {
        16
    }

    fn size() -> (r: usize) {
        Self::SIZE
    }
}

/// The width of 32 bits.
#[derive(Debug, Clone)]
pub struct Reg32;

impl RegisterSize for Reg32 {
    const SIZE: usize = 32;

    type Value = u32;

    open spec fn bits() -> usize {
        32
    }

    fn size() -> (r: usize) {
        Self::SIZE
    }
}

/// The width of 64 bits.
#[derive(Debug, Clone)]
pub struct Reg64;

impl RegisterSize for Reg64 {
    const SIZE: usize = 64;

    type Value = u64;

    open spec fn bits() -> usize {
        64
    }

    fn size() -> (r: usize) {
        Self::SIZE
    }
}

/// A register of width `S`.
#[derive(Debug, Clone)]
pub struct Reg<S: RegisterSize> {
    value: S::Value,
}

impl<S: RegisterSize> View for Reg<S> {
    type V = S::Value;

    /// The value that the register holds.
    closed spec fn view(&self) -> S::Value {
        self.value
    }
}

impl<S: RegisterSize> Reg<S> {
    /// A register that holds `value`.
    pub fn new(value: S::Value) -> (r: Self)
        ensures
            r@ == value,
    {
        Self { value }
    }

    /// The value that the register holds.
    pub fn value(&self) -> (r: S::Value)
        ensures
            r == self@,
    {
        self.value
    }

    /// Puts `value` into the register.
    pub fn set_value(&mut self, value: S::Value)
        ensures
            final(self)@ == value,
    {
        self.value = value;
    }

    /// The number of bits of the register.
    pub fn size() -> (r: usize)
        ensures
            r == S::bits(),
    {
        S::size()
    }
}

impl<S: RegisterSize> Copy for Reg<S> {

}

/// Registers that can take the value of a register of width `S`.
pub trait RegisterTake<S: RegisterSize>: Sized {
    /// Whether the register holds `value`, a value of width `S`, unchanged:
    /// the same number, in the register's own width.
    spec fn holds(&self, value: S::Value) -> bool;

    /// Takes the value of `src`, which keeps it, and hands the register back.
    fn take(&mut self, src: &mut Reg<S>) -> (r: &mut Self)
        ensures
            r.holds(old(src)@),
            *final(self) == *final(r),
            *final(src) == *old(src),
    ;
}

impl RegisterTake<Reg8> for Reg<Reg8> {
    open spec fn holds(&self, value: u8) -> bool {
        self@ == value
    }

    fn take(&mut self, src: &mut Reg<Reg8>) -> (r: &mut Self) {
        self.set_value(src.value());
        self
    }
}

impl RegisterTake<Reg8> for Reg<Reg16> {
    open spec fn holds(&self, value: u8) -> bool {
        self@ == value
    }

    fn take(&mut self, src: &mut Reg<Reg8>) -> (r: &mut Self) {
        self.set_value(src.value().into());
        self
    }
}

impl RegisterTake<Reg8> for Reg<Reg32> {
    open spec fn holds(&self, value: u8) -> bool {
        self@ == value
    }

    fn take(&mut self, src: &mut Reg<Reg8>) -> (r: &mut Self) {
        self.set_value(src.value().into());
        self
    }
}

impl RegisterTake<Reg8> for Reg<Reg64> {
    open spec fn holds(&self, value: u8) -> bool {
        self@ == value
    }

    fn take(&mut self, src: &mut Reg<Reg8>) -> (r: &mut Self) {
        self.set_value(src.value().into());
        self
    }
}

impl RegisterTake<Reg16> for Reg<Reg16> {
    open spec fn holds(&self, value: u16) -> bool {
        self@ == value
    }

    fn take(&mut self, src: &mut Reg<Reg16>) -> (r: &mut Self) {
        self.set_value(src.value());
        self
    }
}

impl RegisterTake<Reg16> for Reg<Reg32> {
    open spec fn holds(&self, value: u16) -> bool {
        self@ == value
    }

    fn take(&mut self, src: &mut Reg<Reg16>) -> (r: &mut Self) {
        self.set_value(src.value().into());
        self
    }
}

impl RegisterTake<Reg16> for Reg<Reg64> {
    open spec fn holds(&self, value: u16) -> bool {
        self@ == value
    }

    fn take(&mut self, src: &mut Reg<Reg16>) -> (r: &mut Self) {
        self.set_value(src.value().into());
        self
    }
}

impl RegisterTake<Reg32> for Reg<Reg32> {
    open spec fn holds(&self, value: u32) -> bool {
        self@ == value
    }

    fn take(&mut self, src: &mut Reg<Reg32>) -> (r: &mut Self) {
        self.set_value(src.value());
        self
    }
}

impl RegisterTake<Reg32> for Reg<Reg64> {
    open spec fn holds(&self, value: u32) -> bool {
        self@ == value
    }

    fn take(&mut self, src: &mut Reg<Reg32>) -> (r: &mut Self) {
        self.set_value(src.value().into());
        self
    }
}

impl RegisterTake<Reg64> for Reg<Reg64> {
    open spec fn holds(&self, value: u64) -> bool {
        self@ == value
    }

    fn take(&mut self, src: &mut Reg<Reg64>) -> (r: &mut Self) {
        self.set_value(src.value());
        self
    }
}

} // verus!
