use crate::base_field_vec::BaseFieldVec;
use crate::m31::M31;
use crate::qm31::QM31;
use vstd::arithmetic::power2::pow2;
use vstd::prelude::*;

verus! {

/// The order of the circle group over the base field, `2^31`: indices of
/// circle points are taken modulo it.
pub const CIRCLE_ORDER: u64 = 2147483648;

/// A coset `initial + <step>` of a subgroup of the circle group, described by
/// point indices: the coset has `2^log_size` points.
#[derive(Clone, Copy, Debug, PartialEq, Eq, Structural)]
pub struct Coset {
    pub initial_index: u32,
    pub step_size: u32,
    pub log_size: u32,
}

impl Coset {
    pub open spec fn wf(self) -> bool {
        self.initial_index < CIRCLE_ORDER && self.step_size < CIRCLE_ORDER && self.log_size <= 31
    }

    pub open spec fn spec_size(self) -> nat {
        pow2(self.log_size as nat)
    }

    /// The coset of doubled points: indices doubled, one size smaller.
    pub open spec fn spec_double(self) -> Coset {
        Coset {
            initial_index: ((2 * self.initial_index) % (CIRCLE_ORDER as int)) as u32,
            step_size: ((2 * self.step_size) % (CIRCLE_ORDER as int)) as u32,
            log_size: if self.log_size == 0 { 0 } else { (self.log_size - 1) as u32 },
        }
    }

    pub fn new(initial_index: u32, log_size: u32) -> (r: Coset)
        requires
            initial_index < CIRCLE_ORDER,
            log_size <= 31,
        ensures
            r.wf(),
            r.initial_index == initial_index,
            r.log_size == log_size,
            r.step_size == pow2((31 - log_size) as nat) % (CIRCLE_ORDER as nat),
    {
        let mut step: u64 = 1;
        let mut j: u32 = 0;
        proof {
            vstd::arithmetic::power2::lemma2_to64();
        }
        while j < 31 - log_size
            invariant
                log_size <= 31,
                j <= 31 - log_size,
                step == pow2(j as nat),
            decreases 31 - log_size - j,
        {
            proof {
                vstd::arithmetic::power2::lemma_pow2_unfold((j + 1) as nat);
                vstd::arithmetic::power2::lemma_pow2_strictly_increases(j as nat, 31);
                vstd::arithmetic::power2::lemma2_to64();
            }
            step = step * 2;
            j = j + 1;
        }
        Coset { initial_index, step_size: (step % CIRCLE_ORDER) as u32, log_size }
    }

    pub fn double(&self) -> (r: Coset)
        requires
            self.wf(),
        ensures
            r == self.spec_double(),
            r.wf(),
    {
        let log_size: u32 = if self.log_size == 0 { 0 } else { self.log_size - 1 };
        Coset {
            initial_index: ((2 * (self.initial_index as u64)) % CIRCLE_ORDER) as u32,
            step_size: ((2 * (self.step_size as u64)) % CIRCLE_ORDER) as u32,
            log_size,
        }
    }
}

/// The domain of a line evaluation: the x-coordinates of a coset.
#[derive(Clone, Copy, Debug, PartialEq, Eq, Structural)]
pub struct LineDomain {
    pub coset: Coset,
}

impl LineDomain {
    pub open spec fn wf(self) -> bool {
        self.coset.wf()
    }

    pub open spec fn spec_log_size(self) -> nat {
        self.coset.log_size as nat
    }

    pub fn new(coset: Coset) -> (r: LineDomain)
        ensures
            r.coset == coset,
    {
        LineDomain { coset }
    }

    pub fn log_size(&self) -> (r: u32)
        ensures
            r == self.spec_log_size(),
    {
        self.coset.log_size
    }

    /// The domain of the folded evaluation: every point doubled.
    pub fn double(&self) -> (r: LineDomain)
        requires
            self.wf(),
        ensures
            r.coset == self.coset.spec_double(),
            r.wf(),
    {
        LineDomain { coset: self.coset.double() }
    }
}

/// A circle domain: a half coset together with its conjugate, so of size
/// `2^(half_coset.log_size + 1)`.
#[derive(Clone, Copy, Debug, PartialEq, Eq, Structural)]
pub struct CircleDomain {
    pub half_coset: Coset,
}

impl CircleDomain {
    pub open spec fn wf(self) -> bool {
        self.half_coset.wf() && self.half_coset.log_size < 31
    }

    pub open spec fn spec_log_size(self) -> nat {
        self.half_coset.log_size as nat + 1
    }

    pub fn new(half_coset: Coset) -> (r: CircleDomain)
        ensures
            r.half_coset == half_coset,
    {
        CircleDomain { half_coset }
    }

    pub fn log_size(&self) -> (r: u32)
        requires
            self.wf(),
        ensures
            r == self.spec_log_size(),
    {
        self.half_coset.log_size + 1
    }
}

/// `n` secure-field values held as four base-field columns of equal length,
/// one per coordinate.
#[derive(Debug)]
pub struct SecureColumn {
    pub columns: [BaseFieldVec; 4],
}

impl SecureColumn {
    /// Coordinate column `k`.
    pub open spec fn col(&self, k: int) -> Seq<M31> {
        self.columns@[k]@
    }

    pub open spec fn wf(&self) -> bool {
        &&& self.col(1).len() == self.col(0).len()
        &&& self.col(2).len() == self.col(0).len()
        &&& self.col(3).len() == self.col(0).len()
        &&& forall|k: int, i: int| 0 <= k < 4 && 0 <= i < self.col(0).len() ==> (#[trigger] self.col(k)[i]).wf()
    }

    pub open spec fn spec_len(&self) -> nat {
        self.col(0).len()
    }

    /// The value at position `i`, assembled from the four columns.
    pub open spec fn value_at(&self, i: int) -> QM31 {
        QM31::from_coords(self.col(0)[i], self.col(1)[i], self.col(2)[i], self.col(3)[i])
    }

    /// The values held, in order.
    pub open spec fn values(&self) -> Seq<QM31> {
        Seq::new(self.spec_len(), |i: int| self.value_at(i))
    }

    pub fn len(&self) -> (r: usize)
        ensures
            r == self.spec_len(),
    {
        self.columns[0].size()
    }

    /// Copies the values back to the host, one secure-field value per position.
    pub fn to_vec(&self) -> (r: Vec<QM31>)
        requires
            self.wf(),
        ensures
            r@ == self.values(),
    {
        let n = self.columns[0].size();
        let mut out: Vec<QM31> = Vec::with_capacity(n);
        let mut i: usize = 0;
        while i < n
            invariant
                i <= n,
                n == self.spec_len(),
                self.wf(),
                out@ == self.values().take(i as int),
            decreases n - i,
        {
            let v = QM31::from_m31(
                self.columns[0].at(i),
                self.columns[1].at(i),
                self.columns[2].at(i),
                self.columns[3].at(i),
            );
            out.push(v);
            i = i + 1;
            assert(out@ =~= self.values().take(i as int));
        }
        assert(out@ =~= self.values());
        out
    }
}

/// Values of a function on a line domain, one per domain point.
#[derive(Debug)]
pub struct LineEvaluation {
    pub domain: LineDomain,
    pub values: SecureColumn,
}

impl LineEvaluation {
    pub open spec fn wf(&self) -> bool {
        &&& self.domain.wf()
        &&& self.values.wf()
        &&& self.values.spec_len() == self.domain.coset.spec_size()
    }

    pub fn new(domain: LineDomain, values: SecureColumn) -> (r: LineEvaluation)
        requires
            domain.wf(),
            values.wf(),
            values.spec_len() == domain.coset.spec_size(),
        ensures
            r.wf(),
            r.domain == domain,
            r.values == values,
    {
        LineEvaluation { domain, values }
    }

    pub fn len(&self) -> (r: usize)
        ensures
            r == self.values.spec_len(),
    {
        self.values.len()
    }

    pub fn domain(&self) -> (r: LineDomain)
        ensures
            r == self.domain,
    {
        self.domain
    }
}

/// Values of a secure-field function on a circle domain, one per domain point.
#[derive(Debug)]
pub struct SecureEvaluation {
    pub domain: CircleDomain,
    pub values: SecureColumn,
}

impl SecureEvaluation {
    pub open spec fn wf(&self) -> bool {
        &&& self.domain.wf()
        &&& self.values.wf()
        &&& self.values.spec_len() == pow2(self.domain.spec_log_size())
    }

    pub fn len(&self) -> (r: usize)
        ensures
            r == self.values.spec_len(),
    {
        self.values.len()
    }
}

/// Precomputed twiddle factors of a domain and their inverses, held on the
/// device. For a domain of size `2^k` the inverse table lists the factors of
/// the largest fold first, then those of each smaller fold in turn.
#[derive(Debug)]
pub struct TwiddleTree {
    pub root_coset: Coset,
    pub twiddles: BaseFieldVec,
    pub itwiddles: BaseFieldVec,
}

impl TwiddleTree {
    pub fn new(root_coset: Coset, twiddles: BaseFieldVec, itwiddles: BaseFieldVec) -> (r: TwiddleTree)
        ensures
            r.root_coset == root_coset,
            r.twiddles@ == twiddles@,
            r.itwiddles@ == itwiddles@,
    {
        TwiddleTree { root_coset, twiddles, itwiddles }
    }
}

} // verus!
