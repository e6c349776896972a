use crate::m31::{M31, BaseField, P};
use vstd::prelude::*;

verus! {

/// An element of the complex extension `M31[i] / (i^2 + 1)`, as `re + im * i`.
#[derive(Clone, Copy, Debug, PartialEq, Eq, Structural)]
pub struct CM31(pub M31, pub M31);

/// An element of the degree-4 extension `CM31[u] / (u^2 - (2 + i))`, as `lo + hi * u`.
#[derive(Clone, Copy, Debug, PartialEq, Eq, Structural)]
pub struct QM31(pub CM31, pub CM31);

pub type SecureField = QM31;

impl CM31 {
    pub open spec fn wf(self) -> bool {
        self.0.wf() && self.1.wf()
    }

    pub open spec fn spec_add(self, o: CM31) -> CM31 {
        CM31(self.0.spec_add(o.0), self.1.spec_add(o.1))
    }

    pub open spec fn spec_sub(self, o: CM31) -> CM31 {
        CM31(self.0.spec_sub(o.0), self.1.spec_sub(o.1))
    }

    /// `(a + bi)(c + di) = (ac - bd) + (ad + bc)i`.
    pub open spec fn spec_mul(self, o: CM31) -> CM31 {
        CM31(
            self.0.spec_mul(o.0).spec_sub(self.1.spec_mul(o.1)),
            self.0.spec_mul(o.1).spec_add(self.1.spec_mul(o.0)),
        )
    }

    pub open spec fn spec_mul_base(self, s: M31) -> CM31 {
        CM31(self.0.spec_mul(s), self.1.spec_mul(s))
    }

    pub fn add(self, o: CM31) -> (r: CM31)
        requires
            self.wf(),
            o.wf(),
        ensures
            r == self.spec_add(o),
            r.wf(),
    {
        CM31(self.0.add(o.0), self.1.add(o.1))
    }

    pub fn sub(self, o: CM31) -> (r: CM31)
        requires
            self.wf(),
            o.wf(),
        ensures
            r == self.spec_sub(o),
            r.wf(),
    {
        CM31(self.0.sub(o.0), self.1.sub(o.1))
    }

    pub fn mul(self, o: CM31) -> (r: CM31)
        requires
            self.wf(),
            o.wf(),
        ensures
            r == self.spec_mul(o),
            r.wf(),
    {
        let re = self.0.mul(o.0).sub(self.1.mul(o.1));
        let im = self.0.mul(o.1).add(self.1.mul(o.0));
        CM31(re, im)
    }

    pub fn mul_base(self, s: M31) -> (r: CM31)
        requires
            self.wf(),
            s.wf(),
        ensures
            r == self.spec_mul_base(s),
            r.wf(),
    {
        CM31(self.0.mul(s), self.1.mul(s))
    }
}

/// The non-residue `2 + i` that defines the quartic extension.
pub open spec fn spec_r() -> CM31 {
    CM31(M31 { value: 2 }, M31 { value: 1 })
}

impl QM31 {
    pub open spec fn wf(self) -> bool {
        self.0.wf() && self.1.wf()
    }

    /// The four base-field coordinates, in storage order.
    pub open spec fn coord(self, k: int) -> M31 {
        if k == 0 {
            self.0.0
        } else if k == 1 {
            self.0.1
        } else if k == 2 {
            self.1.0
        } else {
            self.1.1
        }
    }

    pub open spec fn from_coords(a: M31, b: M31, c: M31, d: M31) -> QM31 {
        QM31(CM31(a, b), CM31(c, d))
    }

    pub open spec fn spec_add(self, o: QM31) -> QM31 {
        QM31(self.0.spec_add(o.0), self.1.spec_add(o.1))
    }

    pub open spec fn spec_sub(self, o: QM31) -> QM31 {
        QM31(self.0.spec_sub(o.0), self.1.spec_sub(o.1))
    }

    /// `(a + bu)(c + du) = (ac + (2 + i)bd) + (ad + bc)u`.
    pub open spec fn spec_mul(self, o: QM31) -> QM31 {
        QM31(
            self.0.spec_mul(o.0).spec_add(spec_r().spec_mul(self.1.spec_mul(o.1))),
            self.0.spec_mul(o.1).spec_add(self.1.spec_mul(o.0)),
        )
    }

    /// Multiplication by a base-field scalar, coordinate by coordinate.
    pub open spec fn spec_mul_base(self, s: M31) -> QM31 {
        QM31(self.0.spec_mul_base(s), self.1.spec_mul_base(s))
    }

    pub fn from_m31(a: M31, b: M31, c: M31, d: M31) -> (r: QM31)
        ensures
            r == QM31::from_coords(a, b, c, d),
    {
        QM31(CM31(a, b), CM31(c, d))
    }

    /// Builds an element from four values that are already reduced.
    pub fn from_u32_unchecked(a: u32, b: u32, c: u32, d: u32) -> (r: QM31)
        requires
            a < P,
            b < P,
            c < P,
            d < P,
        ensures
            r == QM31::from_coords(M31 { value: a }, M31 { value: b }, M31 { value: c }, M31 { value: d }),
            r.wf(),
    {
        QM31(CM31(M31 { value: a }, M31 { value: b }), CM31(M31 { value: c }, M31 { value: d }))
    }

    pub fn zero() -> (r: QM31)
        ensures
            r.wf(),
            forall|k: int| 0 <= k < 4 ==> (#[trigger] r.coord(k)).value == 0,
    {
        let z = M31::zero();
        QM31(CM31(z, z), CM31(z, z))
    }

    pub fn add(self, o: QM31) -> (r: QM31)
        requires
            self.wf(),
            o.wf(),
        ensures
            r == self.spec_add(o),
            r.wf(),
    {
        QM31(self.0.add(o.0), self.1.add(o.1))
    }

    pub fn sub(self, o: QM31) -> (r: QM31)
        requires
            self.wf(),
            o.wf(),
        ensures
            r == self.spec_sub(o),
            r.wf(),
    {
        QM31(self.0.sub(o.0), self.1.sub(o.1))
    }

    pub fn mul(self, o: QM31) -> (r: QM31)
        requires
            self.wf(),
            o.wf(),
        ensures
            r == self.spec_mul(o),
            r.wf(),
    {
        let nonresidue = CM31(M31 { value: 2 }, M31 { value: 1 });
        let lo = self.0.mul(o.0).add(nonresidue.mul(self.1.mul(o.1)));
        let hi = self.0.mul(o.1).add(self.1.mul(o.0));
        QM31(lo, hi)
    }

    pub fn mul_base(self, s: M31) -> (r: QM31)
        requires
            self.wf(),
            s.wf(),
        ensures
            r == self.spec_mul_base(s),
            r.wf(),
    {
        QM31(self.0.mul_base(s), self.1.mul_base(s))
    }
}

} // verus!
