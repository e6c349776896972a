use crate::base_field_vec::{all_wf, BaseFieldVec};
use crate::m31::{add_spec, modulus, mul_spec, M31, P};
use crate::poly::{LineEvaluation, SecureColumn, SecureEvaluation, TwiddleTree};
use crate::qm31::QM31;
use vstd::arithmetic::div_mod::{
    lemma_add_mod_noop, lemma_fundamental_div_mod, lemma_mod_add_multiples_vanish,
    lemma_mod_multiples_basic, lemma_mod_multiples_vanish, lemma_mul_mod_noop_right,
};
use vstd::arithmetic::power2::{lemma2_to64, lemma_pow2_adds, lemma_pow2_strictly_increases, lemma_pow2_unfold, pow2};
use vstd::prelude::*;

verus! {

/// The sum of a column in the base field.
pub open spec fn sum_of(s: Seq<M31>) -> int
    decreases s.len(),
{
    if s.len() == 0 {
        0
    } else {
        add_spec(sum_of(s.drop_last()), s.last().val())
    }
}

/// The inverse of `2^k` in the base field: since `2^31 = 1` there, it is `2^(31 - k)`.
pub open spec fn inv_pow2(k: nat) -> int {
    (pow2((31 - k) as nat) as int) % modulus()
}

/// The mean of a column of length `2^log_size`: its sum divided by its length.
pub open spec fn mean_coord(col: Seq<M31>, log_size: nat) -> M31 {
    M31 { value: mul_spec(sum_of(col), inv_pow2(log_size)) as u32 }
}

/// A column with the same value subtracted from every element.
pub open spec fn corrected(col: Seq<M31>, l: M31) -> Seq<M31> {
    Seq::new(col.len(), |i: int| col[i].spec_sub(l))
}

/// One output of a folding round: the pair `(f0, f1)` of values at a point
/// and its conjugate goes through the inverse butterfly with twiddle `itw`,
/// then is combined with the challenge `alpha`.
pub open spec fn fold_value(f0: QM31, f1: QM31, itw: M31, alpha: QM31) -> QM31 {
    f0.spec_add(f1).spec_add(alpha.spec_mul(f0.spec_sub(f1).spec_mul_base(itw)))
}

/// A whole folding round over `v`, with the inverse twiddles read from
/// `itw` starting at `offset`: half as many values come out.
pub open spec fn fold_values(v: Seq<QM31>, itw: Seq<M31>, offset: int, alpha: QM31) -> Seq<QM31> {
    Seq::new(v.len() / 2, |i: int| fold_value(v[2 * i], v[2 * i + 1], itw[offset + i], alpha))
}

/// Why a folding round could not run.
#[derive(Clone, Copy, Debug, PartialEq, Eq, Structural)]
pub enum FoldError {
    /// The evaluation has fewer than two values.
    EvaluationTooSmall,
}

/// The device-side operations of the backend.
pub struct CudaBackend;

impl CudaBackend {
    /// Sum-reduces a column on the device.
    pub fn sum(column: &BaseFieldVec) -> (r: M31)
        requires
            all_wf(column@),
        ensures
            r.wf(),
            r.val() == sum_of(column@),
    {
        let n = column.size();
        let mut acc = M31::zero();
        let mut i: usize = 0;
        while i < n
            invariant
                i <= n,
                n == column@.len(),
                all_wf(column@),
                acc.wf(),
                acc.val() == sum_of(column@.take(i as int)),
            decreases n - i,
        {
            assert(column@.take(i + 1).drop_last() =~= column@.take(i as int));
            acc = acc.add(column.at(i));
            i = i + 1;
        }
        assert(column@.take(n as int) =~= column@);
        acc
    }

    /// Subtracts `lambda` from every element of a column, into a new column.
    pub fn compute_g_values(f_values: &BaseFieldVec, lambda: M31) -> (r: BaseFieldVec)
        requires
            all_wf(f_values@),
            lambda.wf(),
        ensures
            r@ == corrected(f_values@, lambda),
            all_wf(r@),
    {
        let n = f_values.size();
        let mut out: Vec<M31> = Vec::with_capacity(n);
        let mut i: usize = 0;
        while i < n
            invariant
                i <= n,
                n == f_values@.len(),
                all_wf(f_values@),
                lambda.wf(),
                out@ == corrected(f_values@, lambda).take(i as int),
            decreases n - i,
        {
            out.push(f_values.at(i).sub(lambda));
            i = i + 1;
            assert(out@ =~= corrected(f_values@, lambda).take(i as int));
        }
        assert(out@ =~= corrected(f_values@, lambda));
        BaseFieldVec::from_device(out)
    }

    /// Runs one FRI folding round: the evaluation of length `n` on a line
    /// domain becomes one of length `n / 2` on the doubled domain. The
    /// inverse twiddles of this round start at `itwiddles.len() - n`.
    pub fn fold_line(eval: &LineEvaluation, alpha: QM31, twiddles: &TwiddleTree) -> (r: Result<
        LineEvaluation,
        FoldError,
    >)
        requires
            eval.wf(),
            alpha.wf(),
            all_wf(twiddles.itwiddles@),
            twiddles.itwiddles@.len() >= eval.values.spec_len(),
        ensures
            r is Err <==> eval.values.spec_len() < 2,
            r is Err ==> r->Err_0 == FoldError::EvaluationTooSmall,
            r is Ok ==> {
                let out = r->Ok_0;
                &&& out.wf()
                &&& out.domain.coset == eval.domain.coset.spec_double()
                &&& out.values.values() == fold_values(
                    eval.values.values(),
                    twiddles.itwiddles@,
                    twiddles.itwiddles@.len() - eval.values.spec_len(),
                    alpha,
                )
            },
    {
        let n = eval.len();
        if n < 2 {
            return Err(FoldError::EvaluationTooSmall);
        }
        let twiddle_offset: usize = twiddles.itwiddles.size() - n;
        let mut folded_values = alloc_secure_column_on_gpu_as_array(n / 2);
        launch_kernel_for_fold(&eval.values, twiddles, twiddle_offset, &mut folded_values, alpha, n);
        let folded_values = SecureColumn { columns: folded_values };
        proof {
            lemma_half_of_pow2(eval.domain.coset.log_size as nat);
            assert(folded_values.values().len() == folded_values.spec_len());
            assert(folded_values.spec_len() == n / 2);
            assert(eval.domain.coset.log_size >= 1);
            assert(eval.domain.coset.spec_double().log_size == eval.domain.coset.log_size - 1);
        }
        Ok(LineEvaluation::new(eval.domain.double(), folded_values))
    }

    /// Splits an evaluation into its mean `lambda` and the evaluation with
    /// `lambda` subtracted from every value.
    pub fn decompose(eval: &SecureEvaluation) -> (r: (SecureEvaluation, QM31))
        requires
            eval.wf(),
        ensures
            r.0.wf(),
            r.0.domain == eval.domain,
            r.1.wf(),
            forall|k: int|
                0 <= k < 4 ==> (#[trigger] r.1.coord(k)) == mean_coord(
                    eval.values.col(k),
                    eval.domain.spec_log_size(),
                ),
            forall|k: int|
                0 <= k < 4 ==> (#[trigger] r.0.values.col(k)) == corrected(eval.values.col(k), r.1.coord(k)),
            forall|k: int|
                0 <= k < 4 ==> (eval.values.spec_len() * (#[trigger] r.1.coord(k)).val()) % modulus()
                    == sum_of(eval.values.col(k)),
    {
        let columns = &eval.values.columns;
        let log_size = eval.domain.log_size();
        let inv = inverse_of_domain_size(log_size);
        let a = CudaBackend::sum(&columns[0]).mul(inv);
        let b = CudaBackend::sum(&columns[1]).mul(inv);
        let c = CudaBackend::sum(&columns[2]).mul(inv);
        let d = CudaBackend::sum(&columns[3]).mul(inv);
        let lambda = QM31::from_m31(a, b, c, d);
        let g_values = SecureColumn {
            columns: [
                CudaBackend::compute_g_values(&columns[0], lambda.0.0),
                CudaBackend::compute_g_values(&columns[1], lambda.0.1),
                CudaBackend::compute_g_values(&columns[2], lambda.1.0),
                CudaBackend::compute_g_values(&columns[3], lambda.1.1),
            ],
        };
        let g = SecureEvaluation { domain: eval.domain, values: g_values };
        proof {
            assert forall|k: int| 0 <= k < 4 implies (eval.values.spec_len() * (#[trigger] lambda.coord(k)).val())
                % modulus() == sum_of(eval.values.col(k)) by {
                lemma_sum_bounded(eval.values.col(k));
                lemma_mean_times_size(sum_of(eval.values.col(k)), eval.domain.spec_log_size());
            }
        }
        (g, lambda)
    }
}

/// Allocates the four zero-filled device columns that receive `n` folded values.
fn alloc_secure_column_on_gpu_as_array(n: usize) -> (r: [BaseFieldVec; 4])
    ensures
        forall|k: int| 0 <= k < 4 ==> (#[trigger] r@[k])@ == Seq::new(n as nat, |i: int| M31 { value: 0 }),
{
    let folded_values_0 = BaseFieldVec::new_zeroes(n);
    let folded_values_1 = BaseFieldVec::new_zeroes(n);
    let folded_values_2 = BaseFieldVec::new_zeroes(n);
    let folded_values_3 = BaseFieldVec::new_zeroes(n);
    [folded_values_0, folded_values_1, folded_values_2, folded_values_3]
}

/// Folds the `n` values of `eval_values` in one pass, writing the `n / 2`
/// results into the four columns of `folded_values`.
fn launch_kernel_for_fold(
    eval_values: &SecureColumn,
    twiddles: &TwiddleTree,
    twiddle_offset: usize,
    folded_values: &mut [BaseFieldVec; 4],
    alpha: QM31,
    n: usize,
)
    requires
        eval_values.wf(),
        n == eval_values.spec_len(),
        alpha.wf(),
        all_wf(twiddles.itwiddles@),
        twiddle_offset + n / 2 <= twiddles.itwiddles@.len(),
        forall|k: int| 0 <= k < 4 ==> (#[trigger] old(folded_values)@[k])@.len() == n / 2,
    ensures
        (SecureColumn { columns: *final(folded_values) }).wf(),
        (SecureColumn { columns: *final(folded_values) }).values() == fold_values(
            eval_values.values(),
            twiddles.itwiddles@,
            twiddle_offset as int,
            alpha,
        ),
{
    let half = n / 2;
    let ghost expected = fold_values(eval_values.values(), twiddles.itwiddles@, twiddle_offset as int, alpha);
    let tw_len = twiddles.itwiddles.size();
    let mut i: usize = 0;
    while i < half
        invariant
            i <= half,
            half == n / 2,
            tw_len == twiddles.itwiddles@.len(),
            eval_values.wf(),
            n == eval_values.spec_len(),
            alpha.wf(),
            all_wf(twiddles.itwiddles@),
            twiddle_offset + half <= twiddles.itwiddles@.len(),
            expected == fold_values(eval_values.values(), twiddles.itwiddles@, twiddle_offset as int, alpha),
            forall|k: int| 0 <= k < 4 ==> (#[trigger] folded_values@[k])@.len() == half,
            forall|j: int|
                0 <= j < i ==> (#[trigger] QM31::from_coords(
                    folded_values@[0]@[j],
                    folded_values@[1]@[j],
                    folded_values@[2]@[j],
                    folded_values@[3]@[j],
                )) == expected[j] && expected[j].wf(),
        decreases half - i,
    {
        let f0 = QM31::from_m31(
            eval_values.columns[0].at(2 * i),
            eval_values.columns[1].at(2 * i),
            eval_values.columns[2].at(2 * i),
            eval_values.columns[3].at(2 * i),
        );
        let f1 = QM31::from_m31(
            eval_values.columns[0].at(2 * i + 1),
            eval_values.columns[1].at(2 * i + 1),
            eval_values.columns[2].at(2 * i + 1),
            eval_values.columns[3].at(2 * i + 1),
        );
        assert(f0 == eval_values.values()[2 * i as int]);
        assert(f1 == eval_values.values()[2 * i + 1]);
        let itw = twiddles.itwiddles.at(twiddle_offset + i);
        let v = f0.add(f1).add(alpha.mul(f0.sub(f1).mul_base(itw)));
        assert(v == expected[i as int]);
        let ghost before = *folded_values;
        folded_values[0].set(i, v.0.0);
        folded_values[1].set(i, v.0.1);
        folded_values[2].set(i, v.1.0);
        folded_values[3].set(i, v.1.1);
        assert forall|j: int| 0 <= j < i + 1 implies (#[trigger] QM31::from_coords(
            folded_values@[0]@[j],
            folded_values@[1]@[j],
            folded_values@[2]@[j],
            folded_values@[3]@[j],
        )) == expected[j] && expected[j].wf() by {
            if j < i {
                assert(QM31::from_coords(before@[0]@[j], before@[1]@[j], before@[2]@[j], before@[3]@[j])
                    == expected[j]);
            }
        }
        i = i + 1;
    }
    let ghost r = SecureColumn { columns: *folded_values };
    assert forall|k: int, j: int| 0 <= k < 4 && 0 <= j < r.col(0).len() implies (#[trigger] r.col(k)[j]).wf() by {
        assert(QM31::from_coords(
            folded_values@[0]@[j],
            folded_values@[1]@[j],
            folded_values@[2]@[j],
            folded_values@[3]@[j],
        ) == expected[j]);
    }
    assert(r.values() =~= expected) by {
        assert forall|j: int| 0 <= j < half implies #[trigger] r.values()[j] == expected[j] by {
            assert(QM31::from_coords(
                folded_values@[0]@[j],
                folded_values@[1]@[j],
                folded_values@[2]@[j],
                folded_values@[3]@[j],
            ) == expected[j]);
        }
    }
}

/// The inverse of a domain size `2^log_size` in the base field.
fn inverse_of_domain_size(log_size: u32) -> (r: M31)
    requires
        log_size <= 31,
    ensures
        r.wf(),
        r.val() == inv_pow2(log_size as nat),
{
    let mut v: u64 = 1;
    let mut j: u32 = 0;
    proof {
        lemma2_to64();
    }
    while j < 31 - log_size
        invariant
            log_size <= 31,
            j <= 31 - log_size,
            v == pow2(j as nat),
        decreases 31 - log_size - j,
    {
        proof {
            lemma_pow2_unfold((j + 1) as nat);
            lemma_pow2_strictly_increases(j as nat, 31);
            lemma2_to64();
        }
        v = v * 2;
        j = j + 1;
    }
    M31 { value: (v % (P as u64)) as u32 }
}

/// Halving `2^k`, for `k >= 1`, gives `2^(k - 1)`; and `2^0` is below two.
pub proof fn lemma_half_of_pow2(k: nat)
    ensures
        k == 0 ==> pow2(k) == 1,
        k >= 1 ==> pow2(k) / 2 == pow2((k - 1) as nat),
{
    if k == 0 {
        lemma2_to64();
    } else {
        lemma_pow2_unfold(k);
    }
}

/// A column sum is a canonical field element.
pub proof fn lemma_sum_bounded(s: Seq<M31>)
    ensures
        0 <= sum_of(s) < modulus(),
    decreases s.len(),
{
    if s.len() > 0 {
        lemma_sum_bounded(s.drop_last());
    }
}

/// Dividing a canonical value by `2^k` and multiplying back gives the value.
pub proof fn lemma_mean_times_size(s: int, k: nat)
    requires
        0 <= s < modulus(),
        k <= 31,
    ensures
        (pow2(k) * mul_spec(s, inv_pow2(k))) % modulus() == s,
{
    let p = modulus();
    let n = pow2(k) as int;
    let e = pow2((31 - k) as nat) as int;
    lemma_pow2_adds(k, (31 - k) as nat);
    lemma2_to64();
    assert(n * e == p + 1);
    lemma_mul_mod_noop_right(s, e, p);
    assert(mul_spec(s, inv_pow2(k)) == (s * e) % p);
    lemma_mul_mod_noop_right(n, s * e, p);
    assert(n * (s * e) == s * p + s) by (nonlinear_arith)
        requires
            n * e == p + 1,
    ;
    assert((s * p + s) % p == s) by {
        lemma_mod_multiples_vanish(s, s, p);
        vstd::arithmetic::div_mod::lemma_small_mod(s as nat, p as nat);
        assert(s * p == p * s) by (nonlinear_arith);
    }
}

/// Subtracting `l` from each of the `m` elements of a column subtracts `m * l`
/// from its sum.
pub proof fn lemma_sum_corrected(s: Seq<M31>, l: M31)
    requires
        all_wf(s),
        l.wf(),
    ensures
        sum_of(corrected(s, l)) == (sum_of(s) - s.len() * l.val()) % modulus(),
    decreases s.len(),
{
    let p = modulus();
    let t = corrected(s, l);
    if s.len() == 0 {
        assert(t.len() == 0);
    } else {
        let s1 = s.drop_last();
        let m = s.len() as int;
        let x = s.last().val();
        assert(t.drop_last() =~= corrected(s1, l));
        lemma_sum_corrected(s1, l);
        let a = sum_of(s1) - (m - 1) * l.val();
        let b = x - l.val() + p;
        assert(t.last().val() == b % p);
        assert(sum_of(t) == (a % p + b % p) % p);
        lemma_add_mod_noop(a, b, p);
        assert(a + b == (sum_of(s1) + x - m * l.val()) + p) by (nonlinear_arith)
            requires
                a == sum_of(s1) - (m - 1) * l.val(),
                b == x - l.val() + p,
        ;
        lemma_mod_add_multiples_vanish(sum_of(s1) + x - m * l.val(), p);
        let c = sum_of(s1) + x;
        assert(sum_of(s) == c % p);
        lemma_fundamental_div_mod(c, p);
        let q = c / p;
        assert(c % p - m * l.val() == p * (-q) + (c - m * l.val())) by (nonlinear_arith)
            requires
                c == p * q + c % p,
        ;
        lemma_mod_multiples_vanish(-q, c - m * l.val(), p);
    }
}

/// Decomposing an evaluation that has already had its mean subtracted gives a
/// zero mean: on each coordinate column of length `2^log_size`, the mean of
/// the corrected column is zero.
pub proof fn lemma_decompose_corrected_has_zero_mean(col: Seq<M31>, log_size: nat)
    requires
        all_wf(col),
        col.len() == pow2(log_size),
        log_size <= 31,
    ensures
        mean_coord(corrected(col, mean_coord(col, log_size)), log_size).value == 0,
{
    let p = modulus();
    let l = mean_coord(col, log_size);
    let s = sum_of(col);
    lemma_sum_bounded(col);
    lemma_mean_times_size(s, log_size);
    lemma_sum_corrected(col, l);
    let nl = col.len() * l.val();
    assert(nl % p == s);
    lemma_fundamental_div_mod(nl, p);
    let q = nl / p;
    assert(s - nl == (-q) * p) by (nonlinear_arith)
        requires
            nl == p * q + s,
    ;
    lemma_mod_multiples_basic(-q, p);
    assert(sum_of(corrected(col, l)) == 0);
    assert(mul_spec(0, inv_pow2(log_size)) == 0);
}

} // verus!
