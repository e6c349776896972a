
use vstd::prelude::*;

verus! {

/// The prime modulus `2^31 - 1` of the base field.
pub const P: u32 = 2147483647;

/// The modulus as a mathematical integer.
pub open spec fn modulus() -> int {
    2147483647
}

/// An element of the base field, kept in canonical form (`value < P`).
#[derive(Clone, Copy, Debug, PartialEq, Eq, Structural)]
pub struct M31 {
    pub value: u32,
}

pub type BaseField = M31;

/// Field addition on canonical representatives.
pub open spec fn add_spec(a: int, b: int) -> int {
    (a + b) % modulus()
}

/// Field subtraction on canonical representatives.
pub open spec fn sub_spec(a: int, b: int) -> int {
    (a - b + modulus()) % modulus()
}

/// Field multiplication on canonical representatives.
pub open spec fn mul_spec(a: int, b: int) -> int {
    (a * b) % modulus()
}

impl M31 {
    pub open spec fn wf(self) -> bool {
        self.value < P
    }

    pub open spec fn val(self) -> int {
        self.value as int
    }

    pub open spec fn spec_add(self, other: M31) -> M31 {
        M31 { value: add_spec(self.val(), other.val()) as u32 }
    }

    pub open spec fn spec_sub(self, other: M31) -> M31 {
        M31 { value: sub_spec(self.val(), other.val()) as u32 }
    }

    pub open spec fn spec_mul(self, other: M31) -> M31 {
        M31 { value: mul_spec(self.val(), other.val()) as u32 }
    }

    /// Wraps a value that is already reduced.
    pub fn from_u32_unchecked(value: u32) -> (r: M31)
        requires
            value < P,
        ensures
            r.value == value,
            r.wf(),
    {
        M31 { value }
    }

    /// Reduces an arbitrary `u32` into the field.
    pub fn reduce(value: u32) -> (r: M31)
        ensures
            r.val() == value as int % modulus(),
            r.wf(),
    {
        M31 { value: value % P }
    }

    pub fn zero() -> (r: M31)
        ensures
            r.value == 0,
            r.wf(),
    {
        M31 { value: 0 }
    }

    pub fn add(self, other: M31) -> (r: M31)
        requires
            self.wf(),
            other.wf(),
        ensures
            r.wf(),
            r.val() == add_spec(self.val(), other.val()),
            r == self.spec_add(other),
    {
        let s: u32 = self.value + other.value;
        if s >= P {
            M31 { value: s - P }
        } else {
            M31 { value: s }
        }
    }

    pub fn sub(self, other: M31) -> (r: M31)
        requires
            self.wf(),
            other.wf(),
        ensures
            r.wf(),
            r.val() == sub_spec(self.val(), other.val()),
            r == self.spec_sub(other),
    {
        if self.value >= other.value {
            M31 { value: self.value - other.value }
        } else {
            M31 { value: (P - other.value) + self.value }
        }
    }

    pub fn mul(self, other: M31) -> (r: M31)
        requires
            self.wf(),
            other.wf(),
        ensures
            r.wf(),
            r.val() == mul_spec(self.val(), other.val()),
            r == self.spec_mul(other),
    {
        let a: u64 = self.value as u64;
        let b: u64 = other.value as u64;
        assert(a * b < 0x4000_0000_0000_0000) by (nonlinear_arith)
            requires
                a < 2147483647,
                b < 2147483647,
        ;
        let prod: u64 = a * b;
        M31 { value: (prod % (P as u64)) as u32 }
    }
}

} // verus!
