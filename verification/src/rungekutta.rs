//! Adaptive embedded Runge-Kutta-Fehlberg 4(5) integration.
//!
//! The integrator advances a phase-space state under a variable step
//! size: each step combines six stage derivatives through the classical
//! Fehlberg tableau into a fifth-order update, estimates the local error
//! from the embedded fourth-order weights, and rescales the next step by
//! `0.9 * (eps / err)^(1/5)`, capped at a configured ceiling. Every step
//! is accepted; only the size of the next one adapts.

use vstd::pervasive::VecAdditionalExecFns;
use vstd::prelude::*;

use crate::fixed::{
    fits64, fx_add, fx_div_s, fx_div_sat, fx_mul, fx_mul_s, fx_mul_sat, fx_mul_wide, fx_pow5_s,
    fx_root5, fx_root5_s, isqrt_s, isqrt_u128, lemma_fx_mul_s_mono, lemma_fx_mul_s_nonneg,
    lemma_fx_pow5_s_mono, lemma_root5_exists, lemma_root5_s_mono, sat64, SCALE,
};
use crate::physics::{all_fit, cast64, seq_add_s, seq_scale_s, Hamiltonian, IntegrationError,
    PhaseSpaceVector};

verus! {

/// The step-size safety factor 0.9, in Q32.32 (floor of `0.9 * 2^32`).
pub const SAFETY: i64 = 3865470566;

/// The fixed-point value of the fraction `n / d`, rounded toward
/// negative infinity.
pub open spec fn fx_ratio_s(n: int, d: int) -> int {
    (n * (SCALE as int)) / d
}

/// Fixed-point value of a small fraction `n / d`.
fn fx_ratio(n: i64, d: i64) -> (r: i64)
    requires
        -100_000 <= n <= 100_000,
        1 <= d <= 100_000,
    ensures
        r as int == fx_ratio_s(n as int, d as int),
{
    proof {
        assert(-0x2_0000_0000_0000 <= (n as int) * (SCALE as int) <= 0x2_0000_0000_0000)
            by (nonlinear_arith)
            requires
                -100_000 <= n <= 100_000,
                SCALE == 0x1_0000_0000i64,
        ;
    }
    let w = (n as i128) * (SCALE as i128);
    proof {
        vstd::arithmetic::div_mod::lemma_fundamental_div_mod(w as int, d as int);
        vstd::arithmetic::div_mod::lemma_mod_bound(w as int, d as int);
        let q = (w as int) / (d as int);
        assert(-0x2_0000_0000_0000 <= q <= 0x2_0000_0000_0000) by (nonlinear_arith)
            requires
                w as int == (d as int) * q + (w as int) % (d as int),
                0 <= (w as int) % (d as int) < d as int,
                1 <= d <= 100_000,
                -0x2_0000_0000_0000 <= w as int <= 0x2_0000_0000_0000,
        ;
    }
    match w.checked_div_euclid(d as i128) {
        Some(q) => q as i64,
        None => 0,
    }
}

/// The lower-triangular stage coefficients `a[i][j]` of the Fehlberg
/// tableau, in fixed point.
pub open spec fn tab_a_s() -> Seq<Seq<int>> {
    seq![
        seq![fx_ratio_s(1, 4)],
        seq![fx_ratio_s(3, 32), fx_ratio_s(9, 32)],
        seq![fx_ratio_s(1932, 2197), fx_ratio_s(-7200, 2197), fx_ratio_s(7296, 2197)],
        seq![
            fx_ratio_s(439, 216),
            fx_ratio_s(-8, 1),
            fx_ratio_s(3680, 513),
            fx_ratio_s(-845, 4104),
        ],
        seq![
            fx_ratio_s(-8, 27),
            fx_ratio_s(2, 1),
            fx_ratio_s(-3544, 2565),
            fx_ratio_s(1859, 4104),
            fx_ratio_s(-11, 40),
        ],
    ]
}

/// The fifth-order combination weights `b[i]`, in fixed point.
pub open spec fn tab_b_s() -> Seq<int> {
    seq![
        fx_ratio_s(16, 135),
        fx_ratio_s(0, 1),
        fx_ratio_s(6656, 12825),
        fx_ratio_s(28561, 56430),
        fx_ratio_s(-9, 50),
        fx_ratio_s(2, 55),
    ]
}

/// The stage time offsets `c[i]`, in fixed point.
pub open spec fn tab_c_s() -> Seq<int> {
    seq![
        fx_ratio_s(1, 4),
        fx_ratio_s(3, 8),
        fx_ratio_s(12, 13),
        fx_ratio_s(1, 1),
        fx_ratio_s(1, 2),
    ]
}

/// The embedded error weights `b[i] - b*[i]` (fifth-order minus
/// fourth-order), in fixed point.
pub open spec fn tab_d_s() -> Seq<int> {
    seq![
        fx_ratio_s(1, 360),
        fx_ratio_s(0, 1),
        fx_ratio_s(-128, 4275),
        fx_ratio_s(-2197, 75240),
        fx_ratio_s(1, 50),
        fx_ratio_s(2, 55),
    ]
}

/// A raw row agrees entry for entry with its mathematical model.
pub open spec fn row_eq(v: Seq<i64>, s: Seq<int>) -> bool {
    v.len() == s.len() && forall|j: int| 0 <= j < s.len() ==> (#[trigger] v[j]) as int == s[j]
}

/// The stored tableau agrees with the Fehlberg model.
pub open spec fn tableau_ok(a: Seq<Vec<i64>>, b: Seq<i64>, c: Seq<i64>, d: Seq<i64>) -> bool {
    &&& a.len() == 5
    &&& forall|i: int| 0 <= i < 5 ==> row_eq((#[trigger] a[i])@, tab_a_s()[i])
    &&& row_eq(b, tab_b_s())
    &&& row_eq(c, tab_c_s())
    &&& row_eq(d, tab_d_s())
}

/// Build the stored Fehlberg tableau.
fn build_tableau() -> (r: (Vec<Vec<i64>>, Vec<i64>, Vec<i64>, Vec<i64>))
    ensures
        tableau_ok(r.0@, r.1@, r.2@, r.3@),
{
    let mut a: Vec<Vec<i64>> = Vec::new();
    let mut r0: Vec<i64> = Vec::new();
    r0.push(fx_ratio(1, 4));
    let mut r1: Vec<i64> = Vec::new();
    r1.push(fx_ratio(3, 32));
    r1.push(fx_ratio(9, 32));
    let mut r2: Vec<i64> = Vec::new();
    r2.push(fx_ratio(1932, 2197));
    r2.push(fx_ratio(-7200, 2197));
    r2.push(fx_ratio(7296, 2197));
    let mut r3: Vec<i64> = Vec::new();
    r3.push(fx_ratio(439, 216));
    r3.push(fx_ratio(-8, 1));
    r3.push(fx_ratio(3680, 513));
    r3.push(fx_ratio(-845, 4104));
    let mut r4: Vec<i64> = Vec::new();
    r4.push(fx_ratio(-8, 27));
    r4.push(fx_ratio(2, 1));
    r4.push(fx_ratio(-3544, 2565));
    r4.push(fx_ratio(1859, 4104));
    r4.push(fx_ratio(-11, 40));
    a.push(r0);
    a.push(r1);
    a.push(r2);
    a.push(r3);
    a.push(r4);
    let mut b: Vec<i64> = Vec::new();
    b.push(fx_ratio(16, 135));
    b.push(fx_ratio(0, 1));
    b.push(fx_ratio(6656, 12825));
    b.push(fx_ratio(28561, 56430));
    b.push(fx_ratio(-9, 50));
    b.push(fx_ratio(2, 55));
    let mut c: Vec<i64> = Vec::new();
    c.push(fx_ratio(1, 4));
    c.push(fx_ratio(3, 8));
    c.push(fx_ratio(12, 13));
    c.push(fx_ratio(1, 1));
    c.push(fx_ratio(1, 2));
    let mut d: Vec<i64> = Vec::new();
    d.push(fx_ratio(1, 360));
    d.push(fx_ratio(0, 1));
    d.push(fx_ratio(-128, 4275));
    d.push(fx_ratio(-2197, 75240));
    d.push(fx_ratio(1, 50));
    d.push(fx_ratio(2, 55));
    proof {
        assert(row_eq(a@[0]@, tab_a_s()[0]));
        assert(row_eq(a@[1]@, tab_a_s()[1]));
        assert(row_eq(a@[2]@, tab_a_s()[2]));
        assert(row_eq(a@[3]@, tab_a_s()[3]));
        assert(row_eq(a@[4]@, tab_a_s()[4]));
        assert(row_eq(b@, tab_b_s()));
        assert(row_eq(c@, tab_c_s()));
        assert(row_eq(d@, tab_d_s()));
    }
    (a, b, c, d)
}

/// The momenta (or positions) columns of a sequence of stage
/// derivatives.
pub open spec fn stage_cols(sts: Seq<(Seq<i64>, Seq<i64>)>, momenta_side: bool) -> Seq<Seq<i64>> {
    sts.map_values(|st: (Seq<i64>, Seq<i64>)| if momenta_side { st.0 } else { st.1 })
}

/// Coordinate `k` of the linear combination of the first `n` stage
/// columns with the given fixed-point coefficients.
pub open spec fn comb_elem(coeffs: Seq<int>, cols: Seq<Seq<i64>>, n: int, k: int) -> int
    decreases n,
{
    if n <= 0 {
        0
    } else {
        comb_elem(coeffs, cols, n - 1, k) + fx_mul_s(coeffs[n - 1], cols[n - 1][k] as int)
    }
}

/// The full linear combination of the first `n` stage columns.
pub open spec fn comb_vec_s(coeffs: Seq<int>, cols: Seq<Seq<i64>>, n: int, dim: int) -> Seq<int> {
    Seq::new(dim as nat, |k: int| comb_elem(coeffs, cols, n, k))
}

/// The mathematical values of a raw sequence.
pub open spec fn to_ints(s: Seq<i64>) -> Seq<int> {
    s.map_values(|v: i64| v as int)
}

/// Linear combination of one side of the first `n` stage derivatives.
fn comb_side(
    coeffs: &Vec<i64>,
    stages: &Vec<PhaseSpaceVector>,
    n: usize,
    dim: usize,
    momenta_side: bool,
) -> (r: Option<Vec<i64>>)
    requires
        1 <= n <= 8,
        n <= coeffs@.len(),
        n <= stages@.len(),
        forall|j: int|
            0 <= j < n ==> (#[trigger] stages@[j]).momenta@.len() == dim
                && stages@[j].positions@.len() == dim,
    ensures
        ({
            let comb = comb_vec_s(
                to_ints(coeffs@),
                stage_cols(stages@.map_values(|s: PhaseSpaceVector| (s.momenta@, s.positions@)),
                    momenta_side),
                n as int,
                dim as int,
            );
            match r {
                Some(v) => all_fit(comb) && v@.len() == dim && v@ == cast64(comb),
                None => !all_fit(comb),
            }
        }),
{
    let ghost cols = stage_cols(
        stages@.map_values(|s: PhaseSpaceVector| (s.momenta@, s.positions@)),
        momenta_side,
    );
    let ghost comb = comb_vec_s(to_ints(coeffs@), cols, n as int, dim as int);
    let mut r: Vec<i64> = Vec::new();
    let mut k: usize = 0;
    while k < dim
        invariant
            1 <= n <= 8,
            n <= coeffs@.len(),
            n <= stages@.len(),
            forall|j: int|
                0 <= j < n ==> (#[trigger] stages@[j]).momenta@.len() == dim
                    && stages@[j].positions@.len() == dim,
            cols == stage_cols(
                stages@.map_values(|s: PhaseSpaceVector| (s.momenta@, s.positions@)),
                momenta_side,
            ),
            comb == comb_vec_s(to_ints(coeffs@), cols, n as int, dim as int),
            k <= dim,
            r@.len() == k,
            forall|j: int| 0 <= j < k ==> fits64(#[trigger] comb[j]) && r@[j] == comb[j] as i64,
        decreases dim - k,
    {
        let mut acc: i128 = 0;
        let mut j: usize = 0;
        while j < n
            invariant
                1 <= n <= 8,
                n <= coeffs@.len(),
                n <= stages@.len(),
                forall|jj: int|
                    0 <= jj < n ==> (#[trigger] stages@[jj]).momenta@.len() == dim
                        && stages@[jj].positions@.len() == dim,
                cols == stage_cols(
                    stages@.map_values(|s: PhaseSpaceVector| (s.momenta@, s.positions@)),
                    momenta_side,
                ),
                k < dim,
                j <= n,
                acc == comb_elem(to_ints(coeffs@), cols, j as int, k as int),
                -0x8000_0000_0000_0000_0000_0000 * (j as int) <= acc <= 0x8000_0000_0000_0000_0000_0000 * (j as int),
            decreases n - j,
        {
            let st = &stages[j];
            let x = if momenta_side {
                st.momenta[k]
            } else {
                st.positions[k]
            };
            let term = fx_mul_wide(coeffs[j], x);
            acc = acc + term;
            j = j + 1;
        }
        proof {
            assert(acc == comb[k as int]);
        }
        if acc < i64::MIN as i128 || acc > i64::MAX as i128 {
            proof {
                assert(!fits64(comb[k as int]));
            }
            return None;
        }
        r.push(acc as i64);
        k = k + 1;
    }
    proof {
        assert(r@ =~= cast64(comb));
    }
    Some(r)
}

/// Add a step-scaled combination to a base state side: elementwise
/// `base[k] + h * comb[k]` in fixed point, each intermediate checked.
fn add_scaled(base: &Vec<i64>, h: i64, comb: &Vec<i64>) -> (r: Option<Vec<i64>>)
    requires
        base@.len() == comb@.len(),
    ensures
        ({
            let sc = seq_scale_s(h, comb@);
            let sum = seq_add_s(base@, cast64(sc));
            match r {
                Some(v) => all_fit(sc) && all_fit(sum) && v@ == cast64(sum) && v@.len()
                    == base@.len(),
                None => !(all_fit(sc) && all_fit(sum)),
            }
        }),
{
    let ghost sc = seq_scale_s(h, comb@);
    let ghost sum = seq_add_s(base@, cast64(sc));
    let mut r: Vec<i64> = Vec::new();
    let mut k: usize = 0;
    while k < base.len()
        invariant
            base@.len() == comb@.len(),
            sc == seq_scale_s(h, comb@),
            sum == seq_add_s(base@, cast64(sc)),
            k <= base@.len(),
            r@.len() == k,
            forall|j: int|
                0 <= j < k ==> fits64(#[trigger] sc[j]) && fits64(sum[j]) && r@[j] == sum[j] as i64,
        decreases base@.len() - k,
    {
        let m = match fx_mul(h, comb[k]) {
            Some(v) => v,
            None => {
                proof {
                    assert(!fits64(sc[k as int]));
                }
                return None;
            },
        };
        let s = match fx_add(base[k], m) {
            Some(v) => v,
            None => {
                proof {
                    assert(fits64(sc[k as int]));
                    assert(!fits64(sum[k as int]));
                }
                return None;
            },
        };
        r.push(s);
        k = k + 1;
    }
    proof {
        assert(r@ =~= cast64(sum));
    }
    Some(r)
}

/// Sum of the squares of the first `n` raw entries, exact.
pub open spec fn sumsq_pre(s: Seq<i64>, n: int) -> int
    decreases n,
{
    if n <= 0 {
        0
    } else {
        sumsq_pre(s, n - 1) + (s[n - 1] as int) * (s[n - 1] as int)
    }
}

/// Sum of the squares of all raw entries, exact.
pub open spec fn sumsq_s(s: Seq<i64>) -> int {
    sumsq_pre(s, s.len() as int)
}

/// Prefix sums of squares grow with the prefix.
proof fn lemma_sumsq_mono(s: Seq<i64>, m: int, n: int)
    requires
        0 <= m <= n,
    ensures
        sumsq_pre(s, m) <= sumsq_pre(s, n),
    decreases n,
{
    if m < n {
        lemma_sumsq_mono(s, m, n - 1);
        assert((s[n - 1] as int) * (s[n - 1] as int) >= 0) by (nonlinear_arith);
    }
}

/// The Euclidean norm of the combined error vector `(ep, eq)`, in raw
/// Q32.32 units: the integer square root of the exact sum of squares,
/// clamped at `i64::MAX`. `None` when the sum of squares itself leaves
/// the wide range.
fn err_norm(ep: &Vec<i64>, eq: &Vec<i64>) -> (r: Option<i64>)
    ensures
        ({
            let tot = sumsq_s(ep@) + sumsq_s(eq@);
            match r {
                Some(e) => tot <= i128::MAX && e >= 0 && e == sat64(isqrt_s(tot)),
                None => tot > i128::MAX,
            }
        }),
{
    let ghost tot = sumsq_s(ep@) + sumsq_s(eq@);
    let mut acc: i128 = 0;
    let mut i: usize = 0;
    while i < ep.len()
        invariant
            i <= ep@.len(),
            acc == sumsq_pre(ep@, i as int),
            acc >= 0,
        decreases ep@.len() - i,
    {
        let e = ep[i];
        proof {
            assert(0 <= (e as int) * (e as int) <= 0x4000_0000_0000_0000_0000_0000_0000_0000)
                by (nonlinear_arith)
                requires
                    i64::MIN <= e <= i64::MAX,
            ;
        }
        let sq = (e as i128) * (e as i128);
        acc = match acc.checked_add(sq) {
            Some(v) => v,
            None => {
                proof {
                    lemma_sumsq_mono(ep@, i as int + 1, ep@.len() as int);
                    lemma_sumsq_mono(eq@, 0, eq@.len() as int);
                }
                return None;
            },
        };
        i = i + 1;
    }
    let mut i2: usize = 0;
    while i2 < eq.len()
        invariant
            i2 <= eq@.len(),
            acc == sumsq_s(ep@) + sumsq_pre(eq@, i2 as int),
            acc >= 0,
        decreases eq@.len() - i2,
    {
        let e = eq[i2];
        proof {
            assert(0 <= (e as int) * (e as int) <= 0x4000_0000_0000_0000_0000_0000_0000_0000)
                by (nonlinear_arith)
                requires
                    i64::MIN <= e <= i64::MAX,
            ;
        }
        let sq = (e as i128) * (e as i128);
        acc = match acc.checked_add(sq) {
            Some(v) => v,
            None => {
                proof {
                    lemma_sumsq_mono(eq@, i2 as int + 1, eq@.len() as int);
                }
                return None;
            },
        };
        i2 = i2 + 1;
    }
    let root = isqrt_u128(acc as u128);
    if root > i64::MAX as u128 {
        Some(i64::MAX)
    } else {
        Some(root as i64)
    }
}

/// The step-size controller: the next step size
/// `0.9 * h * (eps / err)^(1/5)` in saturating fixed point, capped at
/// `max_h`.
pub open spec fn controller_s(h: i64, eps: i64, err: i64, max_h: i64) -> int {
    let ratio = sat64(fx_div_s(eps as int, err as int));
    let root = fx_root5_s(ratio);
    let hr = sat64(fx_mul_s(root, h as int));
    let hnew = sat64(fx_mul_s(hr, SAFETY as int));
    if hnew < max_h {
        hnew
    } else {
        max_h as int
    }
}

/// Compute the next step size from the current one, the tolerance and
/// the error estimate; see [`controller_s`].
pub fn step_controller(h: i64, eps: i64, err: i64, max_h: i64) -> (r: i64)
    requires
        h > 0,
        eps >= 0,
        err > 0,
        max_h > 0,
    ensures
        r as int == controller_s(h, eps, err, max_h),
        0 <= r <= max_h,
{
    let ratio = fx_div_sat(eps, err);
    let root = fx_root5(ratio);
    let hr = fx_mul_sat(root, h);
    let hnew = fx_mul_sat(hr, SAFETY);
    if hnew < max_h {
        hnew
    } else {
        max_h
    }
}

/// What one integration step amounts to, mathematically: either the
/// exact committed values of every piece of integrator state, or the
/// error the step fails with.
pub enum StepOutcome {
    Failure { error: IntegrationError },
    Success {
        t: i64,
        p: Seq<i64>,
        q: Seq<i64>,
        dp: Seq<i64>,
        dq: Seq<i64>,
        step_size: i64,
        stages: Seq<(Seq<i64>, Seq<i64>)>,
    },
}

/// The first `n + 1` stage derivatives of a step from `(t, p0, q0)` with
/// step size `h`, stage 0 being the carried-over derivative
/// `(dp0, dq0)`: each later stage evaluates the system at the trial
/// state `pq0 + h * sum(a[i][j] * stage[j])` and time `t + c[i] * h`.
pub open spec fn stages_s<H: Hamiltonian>(
    ham: H,
    t: i64,
    h: i64,
    p0: Seq<i64>,
    q0: Seq<i64>,
    dp0: Seq<i64>,
    dq0: Seq<i64>,
    n: int,
) -> Result<Seq<(Seq<i64>, Seq<i64>)>, IntegrationError>
    decreases n,
{
    if n <= 0 {
        Ok(seq![(dp0, dq0)])
    } else {
        match stages_s(ham, t, h, p0, q0, dp0, dq0, n - 1) {
            Err(e) => Err(e),
            Ok(sts) => {
                let row = tab_a_s()[n - 1];
                let dim = p0.len() as int;
                let cp = comb_vec_s(row, stage_cols(sts, true), n, dim);
                let cq = comb_vec_s(row, stage_cols(sts, false), n, dim);
                if !(all_fit(cp) && all_fit(cq)) {
                    Err(IntegrationError::NumericalDivergence)
                } else {
                    let scp = seq_scale_s(h, cast64(cp));
                    let scq = seq_scale_s(h, cast64(cq));
                    if !(all_fit(scp) && all_fit(scq)) {
                        Err(IntegrationError::NumericalDivergence)
                    } else {
                        let tp = seq_add_s(p0, cast64(scp));
                        let tq = seq_add_s(q0, cast64(scq));
                        if !(all_fit(tp) && all_fit(tq)) {
                            Err(IntegrationError::NumericalDivergence)
                        } else {
                            let ch = fx_mul_s(tab_c_s()[n - 1], h as int);
                            if !fits64(ch) {
                                Err(IntegrationError::NumericalDivergence)
                            } else if !fits64(t + ch) {
                                Err(IntegrationError::NumericalDivergence)
                            } else {
                                match ham.eom_spec((t + ch) as i64, cast64(tp), cast64(tq)) {
                                    Err(e) => Err(e),
                                    Ok(d) => Ok(sts.push(d)),
                                }
                            }
                        }
                    }
                }
            },
        }
    }
}

/// One whole integration step from `(t, p0, q0)` with carried
/// derivative `(dp0, dq0)` and step size `h`: the six stages, the
/// fifth-order combination, the derivative at the new state, the
/// embedded error estimate, and the next step size.
pub open spec fn step_s<H: Hamiltonian>(
    ham: H,
    t: i64,
    h: i64,
    eps: i64,
    max_h: i64,
    p0: Seq<i64>,
    q0: Seq<i64>,
    dp0: Seq<i64>,
    dq0: Seq<i64>,
) -> StepOutcome {
    match stages_s(ham, t, h, p0, q0, dp0, dq0, 5) {
        Err(e) => StepOutcome::Failure { error: e },
        Ok(sts) => {
            let dim = p0.len() as int;
            let cp = comb_vec_s(tab_b_s(), stage_cols(sts, true), 6, dim);
            let cq = comb_vec_s(tab_b_s(), stage_cols(sts, false), 6, dim);
            if !(all_fit(cp) && all_fit(cq)) {
                StepOutcome::Failure { error: IntegrationError::NumericalDivergence }
            } else {
                let scp = seq_scale_s(h, cast64(cp));
                let scq = seq_scale_s(h, cast64(cq));
                if !(all_fit(scp) && all_fit(scq)) {
                    StepOutcome::Failure { error: IntegrationError::NumericalDivergence }
                } else {
                    let p2 = seq_add_s(p0, cast64(scp));
                    let q2 = seq_add_s(q0, cast64(scq));
                    if !(all_fit(p2) && all_fit(q2)) {
                        StepOutcome::Failure { error: IntegrationError::NumericalDivergence }
                    } else if !fits64(t + h) {
                        StepOutcome::Failure { error: IntegrationError::NumericalDivergence }
                    } else {
                        match ham.eom_spec((t + h) as i64, cast64(p2), cast64(q2)) {
                            Err(e) => StepOutcome::Failure { error: e },
                            Ok(d2) => {
                                let ep = comb_vec_s(tab_d_s(), stage_cols(sts, true), 6, dim);
                                let eq = comb_vec_s(tab_d_s(), stage_cols(sts, false), 6, dim);
                                if !(all_fit(ep) && all_fit(eq)) {
                                    StepOutcome::Failure {
                                        error: IntegrationError::NumericalDivergence,
                                    }
                                } else {
                                    let tot = sumsq_s(cast64(ep)) + sumsq_s(cast64(eq));
                                    if tot > i128::MAX {
                                        StepOutcome::Failure {
                                            error: IntegrationError::NumericalDivergence,
                                        }
                                    } else {
                                        let err = sat64(isqrt_s(tot));
                                        if err == 0 {
                                            StepOutcome::Failure {
                                                error: IntegrationError::NumericalDivergence,
                                            }
                                        } else {
                                            let h2 = controller_s(h, eps, err as i64, max_h);
                                            if h2 == 0 {
                                                StepOutcome::Failure {
                                                    error: IntegrationError::NumericalDivergence,
                                                }
                                            } else {
                                                StepOutcome::Success {
                                                    t: (t + h) as i64,
                                                    p: cast64(p2),
                                                    q: cast64(q2),
                                                    dp: d2.0,
                                                    dq: d2.1,
                                                    step_size: h2 as i64,
                                                    stages: sts,
                                                }
                                            }
                                        }
                                    }
                                }
                            },
                        }
                    }
                }
            }
        },
    }
}

/// The configuration an integration run starts from: the initial and
/// the largest admissible step size, the initial time and state, an
/// optional time horizon, and the local error tolerance. `step_size` is
/// the one field the integrator rewrites as it adapts.
pub struct IntegrationParams {
    pub step_size: i64,
    pub max_step_size: i64,
    pub t0: i64,
    pub pq0: PhaseSpaceVector,
    pub tmax: Option<i64>,
    pub eps: i64,
}

/// The adaptive Runge-Kutta-Fehlberg integrator: the committed
/// `(t, pq)` pair, the derivative at `(t, pq)` carried between steps,
/// the reusable six-slot stage buffer, and the tableau.
pub struct RungeKuttaIntegrator<H: Hamiltonian> {
    pub params: IntegrationParams,
    pub ham: H,
    pub t: i64,
    pub pq: PhaseSpaceVector,
    pub pqdot: PhaseSpaceVector,
    pub stages: Vec<PhaseSpaceVector>,
    pub a: Vec<Vec<i64>>,
    pub b: Vec<i64>,
    pub c: Vec<i64>,
    pub d: Vec<i64>,
}

impl<H: Hamiltonian> RungeKuttaIntegrator<H> {
    /// Degrees of freedom per state side.
    pub open spec fn dim_s(&self) -> int {
        self.pq.momenta@.len() as int
    }

    /// The integrator's invariant: a well-formed state, a derivative and
    /// six stage slots of matching dimension, the Fehlberg tableau, and
    /// admissible control parameters.
    pub open spec fn wf(&self) -> bool {
        &&& self.pq.wf()
        &&& self.pqdot.momenta@.len() == self.dim_s()
        &&& self.pqdot.positions@.len() == self.dim_s()
        &&& self.stages@.len() == 6
        &&& forall|j: int|
            0 <= j < 6 ==> (#[trigger] self.stages@[j]).momenta@.len() == self.dim_s()
                && self.stages@[j].positions@.len() == self.dim_s()
        &&& tableau_ok(self.a@, self.b@, self.c@, self.d@)
        &&& self.params.step_size > 0
        &&& self.params.max_step_size > 0
        &&& self.params.eps >= 0
    }

    /// Build an integrator from its configuration and a system.
    ///
    /// Fails with `DimensionMismatch` when the initial state is not well
    /// formed or does not have two coordinates per side and particle,
    /// and propagates the error of the initial derivative evaluation.
    pub fn new(params: IntegrationParams, ham: H) -> (r: Result<Self, IntegrationError>)
        requires
            params.step_size > 0,
            params.max_step_size > 0,
            params.eps >= 0,
        ensures
            ({
                let p0 = params.pq0.momenta@;
                let q0 = params.pq0.positions@;
                let dims_ok = p0.len() == q0.len() && p0.len() == 2 * (
                ham.num_particles_spec() as int);
                match r {
                    Err(e) => {
                        if !dims_ok {
                            e == IntegrationError::DimensionMismatch
                        } else {
                            ham.eom_spec(params.t0, p0, q0) == Err::<
                                (Seq<i64>, Seq<i64>),
                                IntegrationError,
                            >(e)
                        }
                    },
                    Ok(integ) => {
                        &&& dims_ok
                        &&& ham.eom_spec(params.t0, p0, q0) matches Ok(d) && integ.pqdot.momenta@
                            == d.0 && integ.pqdot.positions@ == d.1 && (forall|j: int|
                            0 <= j < 6 ==> (#[trigger] integ.stages@[j]).momenta@ == d.0
                                && integ.stages@[j].positions@ == d.1)
                        &&& integ.wf()
                        &&& integ.t == params.t0
                        &&& integ.pq.momenta@ == p0
                        &&& integ.pq.positions@ == q0
                        &&& integ.ham == ham
                        &&& integ.params.step_size == params.step_size
                        &&& integ.params.max_step_size == params.max_step_size
                        &&& integ.params.t0 == params.t0
                        &&& integ.params.eps == params.eps
                        &&& integ.params.tmax == params.tmax
                        &&& integ.params.pq0.momenta@ == p0
                        &&& integ.params.pq0.positions@ == q0
                    },
                }
            }),
    {
        let n = ham.num_particles();
        let dim = params.pq0.momenta.len();
        if params.pq0.positions.len() != dim || n > usize::MAX / 2 || dim != 2 * n {
            return Err(IntegrationError::DimensionMismatch);
        }
        let pq = params.pq0.duplicate();
        let pqdot = match ham.eom(params.t0, &pq) {
            Ok(d) => d,
            Err(e) => {
                return Err(e);
            },
        };
        let mut stages: Vec<PhaseSpaceVector> = Vec::new();
        stages.push(pqdot.duplicate());
        stages.push(pqdot.duplicate());
        stages.push(pqdot.duplicate());
        stages.push(pqdot.duplicate());
        stages.push(pqdot.duplicate());
        stages.push(pqdot.duplicate());
        let (a, b, c, d) = build_tableau();
        let t = params.t0;
        Ok(RungeKuttaIntegrator { params, ham, t, pq, pqdot, stages, a, b, c, d })
    }

    /// The committed time and a view of the committed state, valid until
    /// the next step.
    pub fn state(&self) -> (r: (i64, &PhaseSpaceVector))
        ensures
            r.0 == self.t,
            r.1.momenta@ == self.pq.momenta@,
            r.1.positions@ == self.pq.positions@,
    {
        (self.t, &self.pq)
    }
}

/// A linear combination reads only the first `n` coefficients and
/// columns.
proof fn lemma_comb_elem_eq(
    c1: Seq<int>,
    s1: Seq<Seq<i64>>,
    c2: Seq<int>,
    s2: Seq<Seq<i64>>,
    n: int,
    k: int,
)
    requires
        forall|j: int| 0 <= j < n ==> c1[j] == c2[j] && s1[j] == s2[j],
    ensures
        comb_elem(c1, s1, n, k) == comb_elem(c2, s2, n, k),
    decreases n,
{
    if n > 0 {
        lemma_comb_elem_eq(c1, s1, c2, s2, n - 1, k);
    }
}

/// Whole-vector form of [`lemma_comb_elem_eq`].
proof fn lemma_comb_vec_eq(
    c1: Seq<int>,
    s1: Seq<Seq<i64>>,
    c2: Seq<int>,
    s2: Seq<Seq<i64>>,
    n: int,
    dim: int,
)
    requires
        dim >= 0,
        forall|j: int| 0 <= j < n ==> c1[j] == c2[j] && s1[j] == s2[j],
    ensures
        comb_vec_s(c1, s1, n, dim) == comb_vec_s(c2, s2, n, dim),
{
    assert forall|k: int| 0 <= k < dim implies comb_vec_s(c1, s1, n, dim)[k] == comb_vec_s(
        c2,
        s2,
        n,
        dim,
    )[k] by {
        lemma_comb_elem_eq(c1, s1, c2, s2, n, k);
    }
    assert(comb_vec_s(c1, s1, n, dim) =~= comb_vec_s(c2, s2, n, dim));
}

/// A failed stage prefix fails every longer prefix the same way.
proof fn lemma_stages_err<H: Hamiltonian>(
    ham: H,
    t: i64,
    h: i64,
    p0: Seq<i64>,
    q0: Seq<i64>,
    dp0: Seq<i64>,
    dq0: Seq<i64>,
    i: int,
    n: int,
)
    requires
        0 <= i <= n,
        stages_s(ham, t, h, p0, q0, dp0, dq0, i) is Err,
    ensures
        stages_s(ham, t, h, p0, q0, dp0, dq0, n) == stages_s(ham, t, h, p0, q0, dp0, dq0, i),
    decreases n,
{
    if n > i {
        lemma_stages_err(ham, t, h, p0, q0, dp0, dq0, i, n - 1);
    }
}

impl<H: Hamiltonian> RungeKuttaIntegrator<H> {
    /// Compute stage `i` of the current step into slot `i` of the stage
    /// buffer: the trial state combines the stages before it.
    fn advance_stage(&mut self, i: usize) -> (r: Result<(), IntegrationError>)
        requires
            old(self).wf(),
            1 <= i <= 5,
            tab_a_s()[i - 1].len() == i,
            stages_s(
                old(self).ham,
                old(self).t,
                old(self).params.step_size,
                old(self).pq.momenta@,
                old(self).pq.positions@,
                old(self).pqdot.momenta@,
                old(self).pqdot.positions@,
                i - 1,
            ) matches Ok(sts) && sts.len() == i && (forall|j: int|
                0 <= j < i ==> ((#[trigger] old(self).stages@[j]).momenta@,
                old(self).stages@[j].positions@) == sts[j]),
        ensures
            final(self).wf(),
            final(self).dim_s() == old(self).dim_s(),
            final(self).ham == old(self).ham,
            final(self).t == old(self).t,
            final(self).params == old(self).params,
            final(self).pq == old(self).pq,
            final(self).pqdot == old(self).pqdot,
            forall|j: int| 0 <= j < i ==> #[trigger] final(self).stages@[j] == old(self).stages@[j],
            ({
                let st = stages_s(
                    old(self).ham,
                    old(self).t,
                    old(self).params.step_size,
                    old(self).pq.momenta@,
                    old(self).pq.positions@,
                    old(self).pqdot.momenta@,
                    old(self).pqdot.positions@,
                    i as int,
                );
                match r {
                    Ok(_) => st matches Ok(sts2) && sts2.len() == i + 1 && (forall|j: int|
                        0 <= j <= i ==> ((#[trigger] final(self).stages@[j]).momenta@,
                        final(self).stages@[j].positions@) == sts2[j]),
                    Err(e) => st == Err::<Seq<(Seq<i64>, Seq<i64>)>, IntegrationError>(e),
                }
            }),
    {
        let ghost sts = stages_s(
            old(self).ham,
            old(self).t,
            old(self).params.step_size,
            old(self).pq.momenta@,
            old(self).pq.positions@,
            old(self).pqdot.momenta@,
            old(self).pqdot.positions@,
            i - 1,
        )->Ok_0;
        let h = self.params.step_size;
        let dim = self.pq.momenta.len();
        let ghost cols_p = stage_cols(
            self.stages@.map_values(|s: PhaseSpaceVector| (s.momenta@, s.positions@)),
            true,
        );
        let ghost cols_q = stage_cols(
            self.stages@.map_values(|s: PhaseSpaceVector| (s.momenta@, s.positions@)),
            false,
        );
        proof {
            assert(row_eq(self.a@[i - 1]@, tab_a_s()[i - 1]));
            assert(to_ints(self.a@[i - 1]@) =~= tab_a_s()[i - 1]);
            assert(forall|j: int|
                0 <= j < i ==> #[trigger] cols_p[j] == stage_cols(sts, true)[j] && cols_q[j]
                    == stage_cols(sts, false)[j]);
            lemma_comb_vec_eq(
                to_ints(self.a@[i - 1]@),
                cols_p,
                tab_a_s()[i - 1],
                stage_cols(sts, true),
                i as int,
                dim as int,
            );
            lemma_comb_vec_eq(
                to_ints(self.a@[i - 1]@),
                cols_q,
                tab_a_s()[i - 1],
                stage_cols(sts, false),
                i as int,
                dim as int,
            );
        }
        let cp = match comb_side(&self.a[i - 1], &self.stages, i, dim, true) {
            Some(v) => v,
            None => {
                return Err(IntegrationError::NumericalDivergence);
            },
        };
        let cq = match comb_side(&self.a[i - 1], &self.stages, i, dim, false) {
            Some(v) => v,
            None => {
                return Err(IntegrationError::NumericalDivergence);
            },
        };
        let tp = match add_scaled(&self.pq.momenta, h, &cp) {
            Some(v) => v,
            None => {
                return Err(IntegrationError::NumericalDivergence);
            },
        };
        let tq = match add_scaled(&self.pq.positions, h, &cq) {
            Some(v) => v,
            None => {
                return Err(IntegrationError::NumericalDivergence);
            },
        };
        let ch = match fx_mul(self.c[i - 1], h) {
            Some(v) => v,
            None => {
                return Err(IntegrationError::NumericalDivergence);
            },
        };
        let tt = match fx_add(self.t, ch) {
            Some(v) => v,
            None => {
                return Err(IntegrationError::NumericalDivergence);
            },
        };
        let trial = PhaseSpaceVector { momenta: tp, positions: tq };
        let dnew = match self.ham.eom(tt, &trial) {
            Ok(d) => d,
            Err(e) => {
                return Err(e);
            },
        };
        self.stages.set(i, dnew);
        proof {
            let sts2 = sts.push((self.stages@[i as int].momenta@, self.stages@[i as int].positions@));
            assert(forall|j: int|
                0 <= j <= i ==> ((#[trigger] self.stages@[j]).momenta@, self.stages@[j].positions@)
                    == sts2[j]);
        }
        Ok(())
    }

    /// Advance by one accepted step.
    ///
    /// Returns `Ok(None)` exactly when the configured horizon `tmax` has
    /// been reached, leaving the integrator untouched. Otherwise it
    /// commits the step that [`step_s`] describes and returns the new
    /// time, or fails with that step's error and leaves the committed
    /// time, state, derivative and step size unchanged.
    pub fn next(&mut self) -> (r: Result<Option<i64>, IntegrationError>)
        requires
            old(self).wf(),
        ensures
            final(self).wf(),
            final(self).dim_s() == old(self).dim_s(),
            final(self).ham == old(self).ham,
            final(self).params.max_step_size == old(self).params.max_step_size,
            final(self).params.t0 == old(self).params.t0,
            final(self).params.eps == old(self).params.eps,
            final(self).params.tmax == old(self).params.tmax,
            final(self).params.pq0 == old(self).params.pq0,
            (r == Ok::<Option<i64>, IntegrationError>(None)) <==> (old(self).params.tmax matches Some(
                tm,
            ) && old(self).t >= tm),
            ({
                if old(self).params.tmax matches Some(tm) && old(self).t >= tm {
                    &&& r == Ok::<Option<i64>, IntegrationError>(None)
                    &&& *final(self) == *old(self)
                } else {
                    match step_s(
                        old(self).ham,
                        old(self).t,
                        old(self).params.step_size,
                        old(self).params.eps,
                        old(self).params.max_step_size,
                        old(self).pq.momenta@,
                        old(self).pq.positions@,
                        old(self).pqdot.momenta@,
                        old(self).pqdot.positions@,
                    ) {
                        StepOutcome::Failure { error } => {
                            &&& r == Err::<Option<i64>, IntegrationError>(error)
                            &&& final(self).t == old(self).t
                            &&& final(self).pq == old(self).pq
                            &&& final(self).pqdot == old(self).pqdot
                            &&& final(self).params.step_size == old(self).params.step_size
                        },
                        StepOutcome::Success { t, p, q, dp, dq, step_size, stages } => {
                            &&& r == Ok::<Option<i64>, IntegrationError>(Some(t))
                            &&& final(self).t == t
                            &&& final(self).pq.momenta@ == p
                            &&& final(self).pq.positions@ == q
                            &&& final(self).pqdot.momenta@ == dp
                            &&& final(self).pqdot.positions@ == dq
                            &&& final(self).params.step_size == step_size
                            &&& forall|j: int|
                                0 <= j < 6 ==> ((#[trigger] final(self).stages@[j]).momenta@,
                                final(self).stages@[j].positions@) == stages[j]
                        },
                    }
                }
            }),
            r matches Ok(Some(tv)) ==> tv == old(self).t + old(self).params.step_size
                && final(self).t > old(self).t,
            r matches Ok(Some(tv)) ==> 0 < final(self).params.step_size <= old(
                self,
            ).params.max_step_size,
            r matches Err(e) ==> final(self).t == old(self).t,
    {
        let terminal = match self.params.tmax {
            Some(tm) => self.t >= tm,
            None => false,
        };
        if terminal {
            return Ok(None);
        }
        let ghost o = *old(self);
        let h = self.params.step_size;
        let dim = self.pq.momenta.len();
        proof {
            assert(tab_a_s()[0].len() == 1);
            assert(tab_a_s()[1].len() == 2);
            assert(tab_a_s()[2].len() == 3);
            assert(tab_a_s()[3].len() == 4);
            assert(tab_a_s()[4].len() == 5);
        }
        let s0 = self.pqdot.duplicate();
        self.stages.set(0, s0);
        proof {
            assert(stages_s(o.ham, o.t, h, o.pq.momenta@, o.pq.positions@, o.pqdot.momenta@,
                o.pqdot.positions@, 0) == Ok::<Seq<(Seq<i64>, Seq<i64>)>, IntegrationError>(
                seq![(o.pqdot.momenta@, o.pqdot.positions@)]));
        }
        match self.advance_stage(1) {
            Ok(_) => (),
            Err(e) => {
                proof {
                    lemma_stages_err(o.ham, o.t, h, o.pq.momenta@, o.pq.positions@,
                        o.pqdot.momenta@, o.pqdot.positions@, 1, 5);
                }
                return Err(e);
            },
        }
        match self.advance_stage(2) {
            Ok(_) => (),
            Err(e) => {
                proof {
                    lemma_stages_err(o.ham, o.t, h, o.pq.momenta@, o.pq.positions@,
                        o.pqdot.momenta@, o.pqdot.positions@, 2, 5);
                }
                return Err(e);
            },
        }
        match self.advance_stage(3) {
            Ok(_) => (),
            Err(e) => {
                proof {
                    lemma_stages_err(o.ham, o.t, h, o.pq.momenta@, o.pq.positions@,
                        o.pqdot.momenta@, o.pqdot.positions@, 3, 5);
                }
                return Err(e);
            },
        }
        match self.advance_stage(4) {
            Ok(_) => (),
            Err(e) => {
                proof {
                    lemma_stages_err(o.ham, o.t, h, o.pq.momenta@, o.pq.positions@,
                        o.pqdot.momenta@, o.pqdot.positions@, 4, 5);
                }
                return Err(e);
            },
        }
        match self.advance_stage(5) {
            Ok(_) => (),
            Err(e) => {
                return Err(e);
            },
        }
        let ghost sts = stages_s(o.ham, o.t, h, o.pq.momenta@, o.pq.positions@, o.pqdot.momenta@,
            o.pqdot.positions@, 5)->Ok_0;
        let ghost cols_p = stage_cols(
            self.stages@.map_values(|s: PhaseSpaceVector| (s.momenta@, s.positions@)),
            true,
        );
        let ghost cols_q = stage_cols(
            self.stages@.map_values(|s: PhaseSpaceVector| (s.momenta@, s.positions@)),
            false,
        );
        proof {
            assert(forall|j: int|
                0 <= j < 6 ==> #[trigger] cols_p[j] == stage_cols(sts, true)[j] && cols_q[j]
                    == stage_cols(sts, false)[j]);
            assert(to_ints(self.b@) =~= tab_b_s());
            assert(to_ints(self.d@) =~= tab_d_s());
            lemma_comb_vec_eq(to_ints(self.b@), cols_p, tab_b_s(), stage_cols(sts, true), 6,
                dim as int);
            lemma_comb_vec_eq(to_ints(self.b@), cols_q, tab_b_s(), stage_cols(sts, false), 6,
                dim as int);
            lemma_comb_vec_eq(to_ints(self.d@), cols_p, tab_d_s(), stage_cols(sts, true), 6,
                dim as int);
            lemma_comb_vec_eq(to_ints(self.d@), cols_q, tab_d_s(), stage_cols(sts, false), 6,
                dim as int);
        }
        let cbp = match comb_side(&self.b, &self.stages, 6, dim, true) {
            Some(v) => v,
            None => {
                return Err(IntegrationError::NumericalDivergence);
            },
        };
        let cbq = match comb_side(&self.b, &self.stages, 6, dim, false) {
            Some(v) => v,
            None => {
                return Err(IntegrationError::NumericalDivergence);
            },
        };
        let p2 = match add_scaled(&self.pq.momenta, h, &cbp) {
            Some(v) => v,
            None => {
                return Err(IntegrationError::NumericalDivergence);
            },
        };
        let q2 = match add_scaled(&self.pq.positions, h, &cbq) {
            Some(v) => v,
            None => {
                return Err(IntegrationError::NumericalDivergence);
            },
        };
        let t2 = match fx_add(self.t, h) {
            Some(v) => v,
            None => {
                return Err(IntegrationError::NumericalDivergence);
            },
        };
        let newpq = PhaseSpaceVector { momenta: p2, positions: q2 };
        let d2 = match self.ham.eom(t2, &newpq) {
            Ok(d) => d,
            Err(e) => {
                return Err(e);
            },
        };
        let edp = match comb_side(&self.d, &self.stages, 6, dim, true) {
            Some(v) => v,
            None => {
                return Err(IntegrationError::NumericalDivergence);
            },
        };
        let edq = match comb_side(&self.d, &self.stages, 6, dim, false) {
            Some(v) => v,
            None => {
                return Err(IntegrationError::NumericalDivergence);
            },
        };
        let errv = match err_norm(&edp, &edq) {
            Some(e) => e,
            None => {
                return Err(IntegrationError::NumericalDivergence);
            },
        };
        if errv == 0 {
            return Err(IntegrationError::NumericalDivergence);
        }
        let h2 = step_controller(h, self.params.eps, errv, self.params.max_step_size);
        if h2 == 0 {
            return Err(IntegrationError::NumericalDivergence);
        }
        self.t = t2;
        self.pq = newpq;
        self.pqdot = d2;
        self.params.step_size = h2;
        Ok(Some(t2))
    }
}

/// Adaptation is monotone: of two error estimates, the larger one never
/// yields the larger next step.
pub proof fn lemma_controller_monotone(h: i64, eps: i64, err1: i64, err2: i64, max_h: i64)
    requires
        h > 0,
        eps >= 0,
        0 < err1 <= err2,
        max_h > 0,
    ensures
        controller_s(h, eps, err1, max_h) >= controller_s(h, eps, err2, max_h),
{
    let s = SCALE as int;
    vstd::arithmetic::div_mod::lemma_div_is_ordered_by_denominator(
        (eps as int) * s,
        err1 as int,
        err2 as int,
    );
    vstd::arithmetic::div_mod::lemma_div_pos_is_pos((eps as int) * s, err1 as int);
    vstd::arithmetic::div_mod::lemma_div_pos_is_pos((eps as int) * s, err2 as int);
    let ratio1 = sat64(fx_div_s(eps as int, err1 as int));
    let ratio2 = sat64(fx_div_s(eps as int, err2 as int));
    assert(0 <= ratio2 <= ratio1 <= i64::MAX);
    lemma_root5_s_mono(ratio2, ratio1);
    lemma_root5_exists(ratio1);
    lemma_root5_exists(ratio2);
    let root1 = fx_root5_s(ratio1);
    let root2 = fx_root5_s(ratio2);
    lemma_fx_mul_s_mono(root2, h as int, root1, h as int);
    let hr1 = sat64(fx_mul_s(root1, h as int));
    let hr2 = sat64(fx_mul_s(root2, h as int));
    assert(0 <= hr2 <= hr1);
    lemma_fx_mul_s_mono(hr2, SAFETY as int, hr1, SAFETY as int);
}

/// When the error estimate reaches the tolerance, the next step is
/// strictly smaller than the current one.
pub proof fn lemma_controller_shrinks(h: i64, eps: i64, err: i64, max_h: i64)
    requires
        h > 0,
        0 <= eps <= err,
        err > 0,
        max_h > 0,
    ensures
        controller_s(h, eps, err, max_h) < h,
{
    let s = SCALE as int;
    // ratio = floor(eps * S / err) <= S since eps <= err
    vstd::arithmetic::div_mod::lemma_fundamental_div_mod_converse(
        (err as int) * s,
        err as int,
        s,
        0,
    );
    vstd::arithmetic::div_mod::lemma_div_is_ordered((eps as int) * s, (err as int) * s, err as int);
    vstd::arithmetic::div_mod::lemma_div_pos_is_pos((eps as int) * s, err as int);
    let ratio = sat64(fx_div_s(eps as int, err as int));
    assert(0 <= ratio <= s);
    // the fifth root of anything at most one is at most one
    lemma_root5_exists(ratio);
    let root = fx_root5_s(ratio);
    assert(fx_pow5_s(s + 1) > s) by {
        vstd::arithmetic::div_mod::lemma_fundamental_div_mod_converse(
            0x1_0000_0002_0000_0001int,
            0x1_0000_0000int,
            0x1_0000_0002int,
            1int,
        );
        vstd::arithmetic::div_mod::lemma_fundamental_div_mod_converse(
            0x1_0000_0003_0000_0002int,
            0x1_0000_0000int,
            0x1_0000_0003int,
            2int,
        );
        vstd::arithmetic::div_mod::lemma_fundamental_div_mod_converse(
            0x1_0000_0004_0000_0003int,
            0x1_0000_0000int,
            0x1_0000_0004int,
            3int,
        );
        vstd::arithmetic::div_mod::lemma_fundamental_div_mod_converse(
            0x1_0000_0005_0000_0004int,
            0x1_0000_0000int,
            0x1_0000_0005int,
            4int,
        );
    }
    if root > s {
        lemma_fx_pow5_s_mono(s + 1, root);
        assert(false);
    }
    // hr = sat(root * h / S) <= h
    lemma_fx_mul_s_mono(root, h as int, s, h as int);
    vstd::arithmetic::div_mod::lemma_fundamental_div_mod_converse(s * (h as int), s, h as int, 0);
    let hr = sat64(fx_mul_s(root, h as int));
    assert(0 <= hr <= h) by {
        lemma_fx_mul_s_nonneg(root, h as int);
    }
    // hnew = sat(hr * SAFETY / S) < h since SAFETY < S
    lemma_fx_mul_s_mono(hr, SAFETY as int, h as int, SAFETY as int);
    vstd::arithmetic::div_mod::lemma_fundamental_div_mod((h as int) * (SAFETY as int), s);
    vstd::arithmetic::div_mod::lemma_mod_bound((h as int) * (SAFETY as int), s);
    let q = (h as int) * (SAFETY as int) / s;
    assert(q < h) by (nonlinear_arith)
        requires
            (h as int) * (SAFETY as int) == s * q + ((h as int) * (SAFETY as int)) % s,
            0 <= ((h as int) * (SAFETY as int)) % s < s,
            h > 0,
            s == 0x1_0000_0000,
            SAFETY == 3865470566i64,
    ;
    assert(fx_mul_s(hr, SAFETY as int) < h);
    let hnew = sat64(fx_mul_s(hr, SAFETY as int));
    assert(hnew < h);
}

/// When the error estimate falls far enough below the tolerance, the
/// next step grows past the current one, or hits the ceiling.
pub proof fn lemma_controller_grows(h: i64, eps: i64, err: i64, max_h: i64)
    requires
        2 <= h <= 0x1000_0000_0000_0000i64,
        err > 0,
        eps >= 32 * err,
        max_h > 0,
    ensures
        controller_s(h, eps, err, max_h) == max_h || controller_s(h, eps, err, max_h) > h,
{
    let s = SCALE as int;
    // ratio >= 32 * S
    vstd::arithmetic::div_mod::lemma_fundamental_div_mod_converse(
        32 * s * (err as int),
        err as int,
        32 * s,
        0,
    );
    assert(32 * s * (err as int) <= (eps as int) * s) by (nonlinear_arith)
        requires
            eps >= 32 * err,
            s == 0x1_0000_0000,
    ;
    vstd::arithmetic::div_mod::lemma_div_is_ordered(
        32 * s * (err as int),
        (eps as int) * s,
        err as int,
    );
    let ratio = sat64(fx_div_s(eps as int, err as int));
    assert(32 * s <= ratio <= i64::MAX);
    // the fifth root of at least 32 is at least 2
    assert(fx_pow5_s(2 * s) == 32 * s) by {
        vstd::arithmetic::div_mod::lemma_fundamental_div_mod_converse(
            0x4_0000_0000_0000_0000int,
            0x1_0000_0000int,
            0x4_0000_0000int,
            0int,
        );
        vstd::arithmetic::div_mod::lemma_fundamental_div_mod_converse(
            0x8_0000_0000_0000_0000int,
            0x1_0000_0000int,
            0x8_0000_0000int,
            0int,
        );
        vstd::arithmetic::div_mod::lemma_fundamental_div_mod_converse(
            0x10_0000_0000_0000_0000int,
            0x1_0000_0000int,
            0x10_0000_0000int,
            0int,
        );
        vstd::arithmetic::div_mod::lemma_fundamental_div_mod_converse(
            0x20_0000_0000_0000_0000int,
            0x1_0000_0000int,
            0x20_0000_0000int,
            0int,
        );
    }
    lemma_root5_exists(ratio);
    let root = fx_root5_s(ratio);
    if root < 2 * s {
        lemma_fx_pow5_s_mono(root + 1, 2 * s);
        assert(false);
    }
    // hr >= 2 * h
    lemma_fx_mul_s_mono(2 * s, h as int, root, h as int);
    vstd::arithmetic::div_mod::lemma_fundamental_div_mod_converse(
        2 * s * (h as int),
        s,
        2 * (h as int),
        0,
    );
    assert(fx_mul_s(2 * s, h as int) == 2 * (h as int));
    let hr = sat64(fx_mul_s(root, h as int));
    assert(hr >= 2 * (h as int));
    // hnew >= floor(2 * h * SAFETY / S) > h
    lemma_fx_mul_s_mono(2 * (h as int), SAFETY as int, hr, SAFETY as int);
    vstd::arithmetic::div_mod::lemma_fundamental_div_mod(2 * (h as int) * (SAFETY as int), s);
    vstd::arithmetic::div_mod::lemma_mod_bound(2 * (h as int) * (SAFETY as int), s);
    let q = 2 * (h as int) * (SAFETY as int) / s;
    assert(q > h) by (nonlinear_arith)
        requires
            2 * (h as int) * (SAFETY as int) == s * q + (2 * (h as int) * (SAFETY as int)) % s,
            0 <= (2 * (h as int) * (SAFETY as int)) % s < s,
            2 <= h <= 0x1000_0000_0000_0000i64,
            s == 0x1_0000_0000,
            SAFETY == 3865470566i64,
    ;
    let hnew = sat64(fx_mul_s(hr, SAFETY as int));
    assert(hnew > h);
}

} // verus!
