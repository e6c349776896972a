use stwo_gpu_backend::base_field_vec::BaseFieldVec;
use stwo_gpu_backend::fri::{CudaBackend, FoldError};
use stwo_gpu_backend::m31::{BaseField, M31};
use stwo_gpu_backend::poly::{CircleDomain, Coset, LineDomain, LineEvaluation, SecureColumn, SecureEvaluation, TwiddleTree};
use stwo_gpu_backend::qm31::SecureField;

const PRIME: u64 = 2147483647;

fn pow_mod(mut base: u64, mut exp: u64) -> u64 {
    let mut acc = 1u64;
    base %= PRIME;
    while exp > 0 {
        if exp & 1 == 1 {
            acc = acc * base % PRIME;
        }
        base = base * base % PRIME;
        exp >>= 1;
    }
    acc
}

/// Plain host computation of the mean and the corrected columns.
fn cpu_decompose(columns: &[Vec<u32>; 4]) -> ([u32; 4], [Vec<u32>; 4]) {
    let n = columns[0].len() as u64;
    let inv_n = pow_mod(n, PRIME - 2);
    let mut lambda = [0u32; 4];
    let mut g: [Vec<u32>; 4] = [vec![], vec![], vec![], vec![]];
    for k in 0..4 {
        let sum = columns[k].iter().fold(0u64, |acc, &v| (acc + v as u64) % PRIME);
        let l = sum * inv_n % PRIME;
        lambda[k] = l as u32;
        g[k] = columns[k].iter().map(|&v| ((v as u64 + PRIME - l) % PRIME) as u32).collect();
    }
    (lambda, g)
}

fn circle_domain(log_size: u32) -> CircleDomain {
    CircleDomain::new(Coset::new(1 << (30 - log_size), log_size - 1))
}

fn to_base(values: &[u32]) -> Vec<M31> {
    values.iter().map(|&v| M31::from_u32_unchecked(v)).collect()
}

fn test_decompose_with_domain_log_size(domain_log_size: u32) {
    let size: u32 = 1 << domain_log_size;
    let domain = circle_domain(domain_log_size);

    let from_raw = (0..size * 4).collect::<Vec<u32>>();
    let mut vec: [Vec<u32>; 4] = [vec![], vec![], vec![], vec![]];
    from_raw.chunks(4).for_each(|a| {
        vec[0].push(a[0]);
        vec[1].push(a[1]);
        vec[2].push(a[2]);
        vec[3].push(a[3]);
    });

    let columns = [
        BaseFieldVec::from_vec(to_base(&vec[0])),
        BaseFieldVec::from_vec(to_base(&vec[1])),
        BaseFieldVec::from_vec(to_base(&vec[2])),
        BaseFieldVec::from_vec(to_base(&vec[3])),
    ];
    let gpu_secure_evaluation = SecureEvaluation { domain, values: SecureColumn { columns } };

    let (expected_lambda, expected_g_values) = cpu_decompose(&vec);
    let (g_values, lambda) = CudaBackend::decompose(&gpu_secure_evaluation);

    assert_eq!(
        lambda,
        SecureField::from_u32_unchecked(expected_lambda[0], expected_lambda[1], expected_lambda[2], expected_lambda[3])
    );
    for k in 0..4 {
        assert_eq!(g_values.values.columns[k].to_vec(), to_base(&expected_g_values[k]));
    }
    assert_eq!(g_values.domain, domain);
}

#[test]
fn test_decompose_using_less_than_an_entire_block() {
    test_decompose_with_domain_log_size(5);
}

#[test]
fn test_decompose_using_an_entire_block() {
    test_decompose_with_domain_log_size(11);
}

#[test]
fn test_decompose_using_more_than_entire_block() {
    test_decompose_with_domain_log_size(11 + 4);
}

#[test]
fn test_decompose_using_an_entire_block_for_results() {
    test_decompose_with_domain_log_size(22);
}

#[test]
fn decompose_of_corrected_evaluation_has_zero_mean() {
    let log_size = 6;
    let n = 1u32 << log_size;
    let domain = circle_domain(log_size);
    let make = |seed: u32| BaseFieldVec::from_vec((0..n).map(|i| M31::reduce(i.wrapping_mul(2654435761).wrapping_add(seed))).collect());
    let eval = SecureEvaluation {
        domain,
        values: SecureColumn { columns: [make(1), make(2), make(3), make(4)] },
    };
    let (g, lambda) = CudaBackend::decompose(&eval);
    assert_ne!(lambda, SecureField::zero());
    let (_, lambda_again) = CudaBackend::decompose(&g);
    assert_eq!(lambda_again, SecureField::zero());
}

#[test]
fn decompose_of_constant_evaluation() {
    // Every value is 7 in its first coordinate: the mean is 7 and nothing is left.
    let domain = circle_domain(3);
    let eval = SecureEvaluation {
        domain,
        values: SecureColumn {
            columns: [
                BaseFieldVec::from_vec(vec![M31::from_u32_unchecked(7); 8]),
                BaseFieldVec::new_zeroes(8),
                BaseFieldVec::new_zeroes(8),
                BaseFieldVec::new_zeroes(8),
            ],
        },
    };
    let (g, lambda) = CudaBackend::decompose(&eval);
    assert_eq!(lambda, SecureField::from_u32_unchecked(7, 0, 0, 0));
    assert_eq!(g.values.columns[0].to_vec(), vec![M31::from_u32_unchecked(0); 8]);
}

#[test]
fn decompose_divides_by_the_domain_size_in_the_field() {
    // Sum 1 over 2 values: the mean is the inverse of 2, which is 2^30, and
    // 1 - 2^30 = 2^30 since 2^31 = 1.
    let domain = circle_domain(1);
    let eval = SecureEvaluation {
        domain,
        values: SecureColumn {
            columns: [
                BaseFieldVec::from_vec(vec![M31::from_u32_unchecked(1), M31::from_u32_unchecked(0)]),
                BaseFieldVec::new_zeroes(2),
                BaseFieldVec::new_zeroes(2),
                BaseFieldVec::new_zeroes(2),
            ],
        },
    };
    let (g, lambda) = CudaBackend::decompose(&eval);
    assert_eq!(lambda, SecureField::from_u32_unchecked(1 << 30, 0, 0, 0));
    assert_eq!(
        g.values.columns[0].to_vec(),
        vec![M31::from_u32_unchecked(1 << 30), M31::from_u32_unchecked((1 << 30) - 1)]
    );
}

/// Small deterministic generator for test inputs.
struct XorShift(u64);

impl XorShift {
    fn next_field(&mut self) -> u32 {
        self.0 ^= self.0 << 13;
        self.0 ^= self.0 >> 7;
        self.0 ^= self.0 << 17;
        (self.0 % PRIME) as u32
    }
}

type Coords = [u64; 4];

fn qm31_add(a: Coords, b: Coords) -> Coords {
    [0, 1, 2, 3].map(|k| (a[k] + b[k]) % PRIME)
}

fn qm31_sub(a: Coords, b: Coords) -> Coords {
    [0, 1, 2, 3].map(|k| (a[k] + PRIME - b[k]) % PRIME)
}

fn cm31_mul(a: [u64; 2], b: [u64; 2]) -> [u64; 2] {
    [
        (a[0] * b[0] % PRIME + PRIME - a[1] * b[1] % PRIME) % PRIME,
        (a[0] * b[1] + a[1] * b[0]) % PRIME,
    ]
}

fn qm31_mul(a: Coords, b: Coords) -> Coords {
    let (a0, a1) = ([a[0], a[1]], [a[2], a[3]]);
    let (b0, b1) = ([b[0], b[1]], [b[2], b[3]]);
    let lo_l = cm31_mul(a0, b0);
    let lo_r = cm31_mul([2, 1], cm31_mul(a1, b1));
    let hi_l = cm31_mul(a0, b1);
    let hi_r = cm31_mul(a1, b0);
    [
        (lo_l[0] + lo_r[0]) % PRIME,
        (lo_l[1] + lo_r[1]) % PRIME,
        (hi_l[0] + hi_r[0]) % PRIME,
        (hi_l[1] + hi_r[1]) % PRIME,
    ]
}

/// Plain host computation of one folding round.
fn cpu_fold(values: &[Coords], itwiddles: &[u64], offset: usize, alpha: Coords) -> Vec<Coords> {
    (0..values.len() / 2)
        .map(|i| {
            let (f0, f1) = (values[2 * i], values[2 * i + 1]);
            let t = itwiddles[offset + i];
            let diff = qm31_sub(f0, f1).map(|c| c * t % PRIME);
            qm31_add(qm31_add(f0, f1), qm31_mul(alpha, diff))
        })
        .collect()
}

fn line_evaluation(domain: LineDomain, values: &[Coords]) -> LineEvaluation {
    let column = |k: usize| BaseFieldVec::from_vec(values.iter().map(|v| M31::from_u32_unchecked(v[k] as u32)).collect());
    LineEvaluation::new(domain, SecureColumn { columns: [column(0), column(1), column(2), column(3)] })
}

fn twiddle_tree(root: Coset, itwiddles: &[u64]) -> TwiddleTree {
    let table: Vec<BaseField> = itwiddles.iter().map(|&t| M31::from_u32_unchecked(t as u32)).collect();
    TwiddleTree::new(root, BaseFieldVec::new(table.clone()), BaseFieldVec::new(table))
}

#[test]
fn test_fold_line_compared_with_cpu() {
    const LOG_SIZE: u32 = 20;
    let mut rng = XorShift(0x9E3779B97F4A7C15);
    let values: Vec<Coords> = (0..1 << LOG_SIZE)
        .map(|_| [0; 4].map(|_: u64| rng.next_field() as u64))
        .collect();
    let itwiddles: Vec<u64> = (0..1 << LOG_SIZE).map(|_| rng.next_field() as u64).collect();
    let alpha = SecureField::from_u32_unchecked(1, 3, 5, 7);
    let coset = Coset::new(1 << (31 - LOG_SIZE - 2), LOG_SIZE);
    let domain = LineDomain::new(coset);

    let cpu_fold = cpu_fold(&values, &itwiddles, 0, [1, 3, 5, 7]);
    let gpu_fold = CudaBackend::fold_line(&line_evaluation(domain, &values), alpha, &twiddle_tree(coset, &itwiddles)).unwrap();

    let expected: Vec<SecureField> = cpu_fold
        .iter()
        .map(|v| SecureField::from_u32_unchecked(v[0] as u32, v[1] as u32, v[2] as u32, v[3] as u32))
        .collect();
    assert_eq!(gpu_fold.values.to_vec(), expected);
    assert_eq!(gpu_fold.domain, domain.double());
    assert_eq!(gpu_fold.domain.log_size(), LOG_SIZE - 1);
}

#[test]
fn fold_line_uses_the_sub_table_of_the_round() {
    // A table built for 8 points, folding 4 values: the twiddles start at 8 - 4.
    let itwiddles: Vec<u64> = vec![11, 12, 13, 14, 15, 16, 17, 18];
    let values: Vec<Coords> = vec![[1, 0, 0, 0], [2, 0, 0, 0], [3, 0, 0, 0], [5, 0, 0, 0]];
    let root = Coset::new(1 << 26, 3);
    let domain = LineDomain::new(root.double());
    let folded = CudaBackend::fold_line(
        &line_evaluation(domain, &values),
        SecureField::from_u32_unchecked(1, 0, 0, 0),
        &twiddle_tree(root, &itwiddles),
    )
    .unwrap();
    // (1 + 2) + (1 - 2) * 15 = -12 and (3 + 5) + (3 - 5) * 16 = -24.
    assert_eq!(
        folded.values.to_vec(),
        vec![
            SecureField::from_u32_unchecked(2147483647 - 12, 0, 0, 0),
            SecureField::from_u32_unchecked(2147483647 - 24, 0, 0, 0),
        ]
    );
    assert_eq!(folded.domain.log_size(), 1);
}

#[test]
fn fold_line_multiplies_by_the_challenge_in_the_extension() {
    // f0 - f1 = 1 and the twiddle is 1, so the result is f0 + f1 + alpha.
    let values: Vec<Coords> = vec![[4, 0, 0, 0], [3, 0, 0, 0]];
    let root = Coset::new(1 << 29, 1);
    let folded = CudaBackend::fold_line(
        &line_evaluation(LineDomain::new(root), &values),
        SecureField::from_u32_unchecked(1, 3, 5, 7),
        &twiddle_tree(root, &[1, 9]),
    )
    .unwrap();
    assert_eq!(folded.values.to_vec(), vec![SecureField::from_u32_unchecked(8, 3, 5, 7)]);
}

#[test]
fn fold_line_rejects_a_single_value() {
    let values: Vec<Coords> = vec![[1, 2, 3, 4]];
    let root = Coset::new(1 << 29, 0);
    let result = CudaBackend::fold_line(
        &line_evaluation(LineDomain::new(root), &values),
        SecureField::from_u32_unchecked(1, 3, 5, 7),
        &twiddle_tree(root, &[1]),
    );
    assert_eq!(result.err(), Some(FoldError::EvaluationTooSmall));
}
