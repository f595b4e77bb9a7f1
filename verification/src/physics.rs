//! Phase-space states and Hamiltonian dynamical systems.
//!
//! A [`PhaseSpaceVector`] pairs the flat momentum and position coordinates
//! of all particles (two coordinates per planar particle). The
//! [`Hamiltonian`] trait abstracts a system's equations of motion; the
//! [`TwoBodyHamiltonian`] and [`ThreeBodyHamiltonian`] implement
//! inverse-square gravity for two and three bodies.

use vstd::prelude::*;

use crate::fixed::{
    fits64, fx_add, fx_div, fx_div_s, fx_mul, fx_mul_s, fx_neg, fx_sqrt, fx_sub, isqrt_s,
    lemma_fx_mul_s_nonneg, lemma_fx_sq_nonneg, SCALE,
};

verus! {

/// How an operation of the library fails.
///
/// `DimensionMismatch` marks state arithmetic over unequal dimensions, a
/// caller error; `NumericalDivergence` marks a value outside the
/// representable range or a singular force evaluation, after which the
/// integrator cannot continue.
#[derive(Clone, Copy, PartialEq, Eq, Structural, Debug)]
pub enum IntegrationError {
    DimensionMismatch,
    NumericalDivergence,
}

/// Every entry of the sequence fits in `i64`.
pub open spec fn all_fit(s: Seq<int>) -> bool {
    forall|i: int| 0 <= i < s.len() ==> fits64(#[trigger] s[i])
}

/// Narrow a sequence of fitting mathematical integers to `i64`.
pub open spec fn cast64(s: Seq<int>) -> Seq<i64> {
    s.map_values(|v: int| v as i64)
}

/// Elementwise sum of two equal-length raw sequences, unbounded.
pub open spec fn seq_add_s(a: Seq<i64>, b: Seq<i64>) -> Seq<int> {
    Seq::new(a.len(), |i: int| a[i] + b[i])
}

/// Elementwise fixed-point scaling of a raw sequence, unbounded.
pub open spec fn seq_scale_s(f: i64, s: Seq<i64>) -> Seq<int> {
    Seq::new(s.len(), |i: int| fx_mul_s(f as int, s[i] as int))
}

/// The combined momenta and positions of all particles, in Q32.32 raw
/// values, one pair of coordinates per planar particle.
pub struct PhaseSpaceVector {
    pub momenta: Vec<i64>,
    pub positions: Vec<i64>,
}

impl PhaseSpaceVector {
    /// The state is well formed: one momentum coordinate per position
    /// coordinate.
    pub open spec fn wf(&self) -> bool {
        self.momenta@.len() == self.positions@.len()
    }

    /// Build a state from raw momentum and position coordinates.
    pub fn new(momenta: Vec<i64>, positions: Vec<i64>) -> (r: PhaseSpaceVector)
        ensures
            r.momenta@ == momenta@,
            r.positions@ == positions@,
    {
        PhaseSpaceVector { momenta, positions }
    }

    /// Number of degrees of freedom per side (momenta entries).
    pub fn dim(&self) -> (r: usize)
        ensures
            r == self.momenta@.len(),
    {
        self.momenta.len()
    }

    /// An identical copy of the state.
    pub fn duplicate(&self) -> (r: PhaseSpaceVector)
        ensures
            r.momenta@ == self.momenta@,
            r.positions@ == self.positions@,
    {
        PhaseSpaceVector { momenta: copy_raw(&self.momenta), positions: copy_raw(&self.positions) }
    }

    /// Elementwise sum of two states.
    ///
    /// Fails with `DimensionMismatch` when the operands' sides disagree in
    /// length, and with `NumericalDivergence` when a coordinate sum leaves
    /// the representable range.
    pub fn add(&self, other: &PhaseSpaceVector) -> (r: Result<
        PhaseSpaceVector,
        IntegrationError,
    >)
        ensures
            match r {
                Ok(v) => {
                    &&& self.momenta@.len() == other.momenta@.len()
                    &&& self.positions@.len() == other.positions@.len()
                    &&& all_fit(seq_add_s(self.momenta@, other.momenta@))
                    &&& all_fit(seq_add_s(self.positions@, other.positions@))
                    &&& v.momenta@ == cast64(seq_add_s(self.momenta@, other.momenta@))
                    &&& v.positions@ == cast64(seq_add_s(self.positions@, other.positions@))
                },
                Err(e) => {
                    if self.momenta@.len() != other.momenta@.len() || self.positions@.len()
                        != other.positions@.len() {
                        e == IntegrationError::DimensionMismatch
                    } else {
                        e == IntegrationError::NumericalDivergence && !(all_fit(
                            seq_add_s(self.momenta@, other.momenta@),
                        ) && all_fit(seq_add_s(self.positions@, other.positions@)))
                    }
                },
            },
    {
        if self.momenta.len() != other.momenta.len() || self.positions.len()
            != other.positions.len() {
            return Err(IntegrationError::DimensionMismatch);
        }
        let p = match add_raw(&self.momenta, &other.momenta) {
            Some(v) => v,
            None => {
                return Err(IntegrationError::NumericalDivergence);
            },
        };
        let q = match add_raw(&self.positions, &other.positions) {
            Some(v) => v,
            None => {
                return Err(IntegrationError::NumericalDivergence);
            },
        };
        Ok(PhaseSpaceVector { momenta: p, positions: q })
    }

    /// Elementwise fixed-point scaling of a state.
    ///
    /// Fails with `NumericalDivergence` when a scaled coordinate leaves
    /// the representable range.
    pub fn scale(&self, factor: i64) -> (r: Result<PhaseSpaceVector, IntegrationError>)
        ensures
            match r {
                Ok(v) => {
                    &&& all_fit(seq_scale_s(factor, self.momenta@))
                    &&& all_fit(seq_scale_s(factor, self.positions@))
                    &&& v.momenta@ == cast64(seq_scale_s(factor, self.momenta@))
                    &&& v.positions@ == cast64(seq_scale_s(factor, self.positions@))
                },
                Err(e) => {
                    e == IntegrationError::NumericalDivergence && !(all_fit(
                        seq_scale_s(factor, self.momenta@),
                    ) && all_fit(seq_scale_s(factor, self.positions@)))
                },
            },
    {
        let p = match scale_raw(factor, &self.momenta) {
            Some(v) => v,
            None => {
                return Err(IntegrationError::NumericalDivergence);
            },
        };
        let q = match scale_raw(factor, &self.positions) {
            Some(v) => v,
            None => {
                return Err(IntegrationError::NumericalDivergence);
            },
        };
        Ok(PhaseSpaceVector { momenta: p, positions: q })
    }

    /// The position coordinates, one `(x, y)` pair per particle.
    pub fn particle_positions(&self) -> (r: Vec<(i64, i64)>)
        ensures
            r@.len() == self.positions@.len() / 2,
            forall|i: int|
                0 <= i < r@.len() ==> #[trigger] r@[i] == (
                    self.positions@[2 * i],
                    self.positions@[2 * i + 1],
                ),
    {
        pair_up(&self.positions)
    }

    /// The momentum coordinates, one `(x, y)` pair per particle.
    pub fn particle_momenta(&self) -> (r: Vec<(i64, i64)>)
        ensures
            r@.len() == self.momenta@.len() / 2,
            forall|i: int|
                0 <= i < r@.len() ==> #[trigger] r@[i] == (
                    self.momenta@[2 * i],
                    self.momenta@[2 * i + 1],
                ),
    {
        pair_up(&self.momenta)
    }
}

/// Copy a raw coordinate vector.
fn copy_raw(v: &Vec<i64>) -> (r: Vec<i64>)
    ensures
        r@ == v@,
{
    let mut r: Vec<i64> = Vec::new();
    let mut i: usize = 0;
    while i < v.len()
        invariant
            i <= v@.len(),
            r@ == v@.subrange(0, i as int),
        decreases v@.len() - i,
    {
        r.push(v[i]);
        i = i + 1;
        proof {
            assert(r@ =~= v@.subrange(0, i as int));
        }
    }
    proof {
        assert(r@ =~= v@);
    }
    r
}

/// Elementwise checked sum of two equal-length raw vectors.
fn add_raw(a: &Vec<i64>, b: &Vec<i64>) -> (r: Option<Vec<i64>>)
    requires
        a@.len() == b@.len(),
    ensures
        match r {
            Some(v) => all_fit(seq_add_s(a@, b@)) && v@ == cast64(seq_add_s(a@, b@)),
            None => !all_fit(seq_add_s(a@, b@)),
        },
{
    let ghost goal = seq_add_s(a@, b@);
    let mut r: Vec<i64> = Vec::new();
    let mut i: usize = 0;
    while i < a.len()
        invariant
            a@.len() == b@.len(),
            i <= a@.len(),
            goal == seq_add_s(a@, b@),
            r@.len() == i,
            forall|j: int| 0 <= j < i ==> fits64(#[trigger] goal[j]) && r@[j] == goal[j] as i64,
        decreases a@.len() - i,
    {
        match fx_add(a[i], b[i]) {
            Some(v) => r.push(v),
            None => {
                proof {
                    assert(!fits64(goal[i as int]));
                }
                return None;
            },
        }
        i = i + 1;
    }
    proof {
        assert(r@ =~= cast64(goal));
    }
    Some(r)
}

/// Elementwise checked fixed-point scaling of a raw vector.
fn scale_raw(f: i64, s: &Vec<i64>) -> (r: Option<Vec<i64>>)
    ensures
        match r {
            Some(v) => all_fit(seq_scale_s(f, s@)) && v@ == cast64(seq_scale_s(f, s@)),
            None => !all_fit(seq_scale_s(f, s@)),
        },
{
    let ghost goal = seq_scale_s(f, s@);
    let mut r: Vec<i64> = Vec::new();
    let mut i: usize = 0;
    while i < s.len()
        invariant
            i <= s@.len(),
            goal == seq_scale_s(f, s@),
            r@.len() == i,
            forall|j: int| 0 <= j < i ==> fits64(#[trigger] goal[j]) && r@[j] == goal[j] as i64,
        decreases s@.len() - i,
    {
        match fx_mul(f, s[i]) {
            Some(v) => r.push(v),
            None => {
                proof {
                    assert(!fits64(goal[i as int]));
                }
                return None;
            },
        }
        i = i + 1;
    }
    proof {
        assert(r@ =~= cast64(goal));
    }
    Some(r)
}

/// Group a flat coordinate vector into `(x, y)` pairs.
fn pair_up(v: &Vec<i64>) -> (r: Vec<(i64, i64)>)
    ensures
        r@.len() == v@.len() / 2,
        forall|i: int|
            0 <= i < r@.len() ==> #[trigger] r@[i] == (v@[2 * i], v@[2 * i + 1]),
{
    let n = v.len() / 2;
    proof {
        vstd::arithmetic::div_mod::lemma_fundamental_div_mod(v@.len() as int, 2);
    }
    let mut r: Vec<(i64, i64)> = Vec::new();
    let mut i: usize = 0;
    while i < n
        invariant
            n == v@.len() / 2,
            2 * n <= v@.len(),
            v@.len() <= usize::MAX,
            i <= n,
            r@.len() == i,
            forall|j: int| 0 <= j < i ==> #[trigger] r@[j] == (v@[2 * j], v@[2 * j + 1]),
        decreases n - i,
    {
        r.push((v[2 * i], v[2 * i + 1]));
        i = i + 1;
    }
    r
}

/// Elementwise fixed-point division of a raw sequence by a scalar,
/// unbounded.
pub open spec fn seq_div_s(s: Seq<i64>, d: i64) -> Seq<int> {
    Seq::new(s.len(), |i: int| fx_div_s(s[i] as int, d as int))
}

/// Elementwise checked fixed-point division of a raw vector by a scalar.
fn div_raw(s: &Vec<i64>, d: i64) -> (r: Option<Vec<i64>>)
    ensures
        match r {
            Some(v) => d != 0 && all_fit(seq_div_s(s@, d)) && v@ == cast64(seq_div_s(s@, d)),
            None => d == 0 || !all_fit(seq_div_s(s@, d)),
        },
{
    if d == 0 {
        return None;
    }
    let ghost goal = seq_div_s(s@, d);
    let mut r: Vec<i64> = Vec::new();
    let mut i: usize = 0;
    while i < s.len()
        invariant
            d != 0,
            i <= s@.len(),
            goal == seq_div_s(s@, d),
            r@.len() == i,
            forall|j: int| 0 <= j < i ==> fits64(#[trigger] goal[j]) && r@[j] == goal[j] as i64,
        decreases s@.len() - i,
    {
        match fx_div(s[i], d) {
            Some(v) => r.push(v),
            None => {
                proof {
                    assert(!fits64(goal[i as int]));
                }
                return None;
            },
        }
        i = i + 1;
    }
    proof {
        assert(r@ =~= cast64(goal));
    }
    Some(r)
}

/// The cube of the Euclidean norm of a planar separation `(dx, dy)`,
/// computed as `sqrt(dx^2 + dy^2)` cubed in fixed point; `None` when an
/// intermediate value leaves the representable range.
pub open spec fn sep_cubed_s(dx: int, dy: int) -> Option<int> {
    let s0 = fx_mul_s(dx, dx);
    let s1 = fx_mul_s(dy, dy);
    if !(fits64(s0) && fits64(s1) && fits64(s0 + s1)) {
        None
    } else {
        let rr = isqrt_s((s0 + s1) * (SCALE as int));
        let rr2 = fx_mul_s(rr, rr);
        if !fits64(rr2) {
            None
        } else {
            let r3 = fx_mul_s(rr2, rr);
            if !fits64(r3) {
                None
            } else {
                Some(r3)
            }
        }
    }
}

/// Cube of the separation norm; see [`sep_cubed_s`].
fn sep_cubed(dx: i64, dy: i64) -> (r: Option<i64>)
    ensures
        match r {
            Some(v) => v >= 0 && sep_cubed_s(dx as int, dy as int) == Some(v as int),
            None => sep_cubed_s(dx as int, dy as int) is None,
        },
{
    proof {
        lemma_fx_sq_nonneg(dx as int);
        lemma_fx_sq_nonneg(dy as int);
    }
    let s0 = match fx_mul(dx, dx) {
        Some(v) => v,
        None => {
            return None;
        },
    };
    let s1 = match fx_mul(dy, dy) {
        Some(v) => v,
        None => {
            return None;
        },
    };
    let s = match fx_add(s0, s1) {
        Some(v) => v,
        None => {
            return None;
        },
    };
    let rr = fx_sqrt(s);
    let rr2 = match fx_mul(rr, rr) {
        Some(v) => v,
        None => {
            return None;
        },
    };
    proof {
        lemma_fx_sq_nonneg(rr as int);
        lemma_fx_mul_s_nonneg(rr2 as int, rr as int);
    }
    match fx_mul(rr2, rr) {
        Some(v) => Some(v),
        None => None,
    }
}

/// A Hamiltonian dynamical system: its equations of motion and its
/// particle count.
///
/// The executable `eom` is pinned, result for result, to the
/// implementor's mathematical `eom_spec`, so that everything the
/// integrator proves is stated over the model alone.
pub trait Hamiltonian: Sized {
    /// Mathematical model of the equations of motion: either the exact
    /// raw derivative `(dp, dq)` of the state, or the error the
    /// evaluation fails with.
    spec fn eom_spec(&self, t: i64, p: Seq<i64>, q: Seq<i64>) -> Result<
        (Seq<i64>, Seq<i64>),
        IntegrationError,
    >;

    /// Mathematical particle count.
    spec fn num_particles_spec(&self) -> usize;

    /// Evaluate the time derivative `(-dH/dq, dH/dp)` of a phase-space
    /// state at time `t`.
    fn eom(&self, t: i64, pq: &PhaseSpaceVector) -> (r: Result<PhaseSpaceVector, IntegrationError>)
        ensures
            match r {
                Ok(d) => {
                    &&& self.eom_spec(t, pq.momenta@, pq.positions@) == Ok::<
                        _,
                        IntegrationError,
                    >((d.momenta@, d.positions@))
                    &&& d.momenta@.len() == pq.momenta@.len()
                    &&& d.positions@.len() == pq.positions@.len()
                },
                Err(e) => self.eom_spec(t, pq.momenta@, pq.positions@) == Err::<
                    (Seq<i64>, Seq<i64>),
                    _,
                >(e),
            },
    ;

    /// Number of particles the system describes.
    fn num_particles(&self) -> (n: usize)
        ensures
            n == self.num_particles_spec(),
    ;
}

/// Two bodies of shared mass `m` under an inverse-square coupling `k`:
/// the momenta decay along `-k * q / r^3` with `r` the bodies'
/// separation, and the positions move along `p / m`.
pub struct TwoBodyHamiltonian {
    pub m: i64,
    pub k: i64,
}

impl TwoBodyHamiltonian {
    /// A two-body system with mass `m` and coupling `k`, in Q32.32.
    pub fn new(m: i64, k: i64) -> (r: TwoBodyHamiltonian)
        ensures
            r.m == m,
            r.k == k,
    {
        TwoBodyHamiltonian { m, k }
    }
}

/// The two-body equations of motion over raw values; see
/// [`TwoBodyHamiltonian`].
pub open spec fn two_body_eom_s(m: i64, k: i64, p: Seq<i64>, q: Seq<i64>) -> Result<
    (Seq<i64>, Seq<i64>),
    IntegrationError,
> {
    if p.len() != 4 || q.len() != 4 {
        Err(IntegrationError::DimensionMismatch)
    } else {
        let d0 = q[0] - q[2];
        let d1 = q[1] - q[3];
        if !(fits64(d0) && fits64(d1)) {
            Err(IntegrationError::NumericalDivergence)
        } else {
            match sep_cubed_s(d0, d1) {
                None => Err(IntegrationError::NumericalDivergence),
                Some(r3) => {
                    if r3 == 0 || !fits64(-(k as int)) {
                        Err(IntegrationError::NumericalDivergence)
                    } else {
                        let c = fx_div_s(-(k as int), r3);
                        if !fits64(c) {
                            Err(IntegrationError::NumericalDivergence)
                        } else {
                            let pdot = seq_scale_s(c as i64, q);
                            if !all_fit(pdot) || m == 0 {
                                Err(IntegrationError::NumericalDivergence)
                            } else {
                                let qdot = seq_div_s(p, m);
                                if !all_fit(qdot) {
                                    Err(IntegrationError::NumericalDivergence)
                                } else {
                                    Ok((cast64(pdot), cast64(qdot)))
                                }
                            }
                        }
                    }
                },
            }
        }
    }
}

impl Hamiltonian for TwoBodyHamiltonian {
    open spec fn eom_spec(&self, t: i64, p: Seq<i64>, q: Seq<i64>) -> Result<
        (Seq<i64>, Seq<i64>),
        IntegrationError,
    > {
        two_body_eom_s(self.m, self.k, p, q)
    }

    open spec fn num_particles_spec(&self) -> usize {
        2
    }

    fn eom(&self, t: i64, pq: &PhaseSpaceVector) -> (r: Result<
        PhaseSpaceVector,
        IntegrationError,
    >) {
        if pq.momenta.len() != 4 || pq.positions.len() != 4 {
            return Err(IntegrationError::DimensionMismatch);
        }
        let d0 = match fx_sub(pq.positions[0], pq.positions[2]) {
            Some(v) => v,
            None => {
                return Err(IntegrationError::NumericalDivergence);
            },
        };
        let d1 = match fx_sub(pq.positions[1], pq.positions[3]) {
            Some(v) => v,
            None => {
                return Err(IntegrationError::NumericalDivergence);
            },
        };
        let r3 = match sep_cubed(d0, d1) {
            Some(v) => v,
            None => {
                return Err(IntegrationError::NumericalDivergence);
            },
        };
        let nk = match fx_neg(self.k) {
            Some(v) => v,
            None => {
                return Err(IntegrationError::NumericalDivergence);
            },
        };
        let c = match fx_div(nk, r3) {
            Some(v) => v,
            None => {
                return Err(IntegrationError::NumericalDivergence);
            },
        };
        let pdot = match scale_raw(c, &pq.positions) {
            Some(v) => v,
            None => {
                return Err(IntegrationError::NumericalDivergence);
            },
        };
        let qdot = match div_raw(&pq.momenta, self.m) {
            Some(v) => v,
            None => {
                return Err(IntegrationError::NumericalDivergence);
            },
        };
        Ok(PhaseSpaceVector { momenta: pdot, positions: qdot })
    }

    fn num_particles(&self) -> (n: usize) {
        2
    }
}

/// Three bodies of shared mass `m` under pairwise inverse-square
/// attraction with coupling `k`: each body's momentum changes by the sum
/// of the two pairwise forces it takes part in, and every position moves
/// along `p / m`.
pub struct ThreeBodyHamiltonian {
    pub m: i64,
    pub k: i64,
}

impl ThreeBodyHamiltonian {
    /// A three-body system with shared mass `m` and coupling `k`, in
    /// Q32.32.
    pub fn new(m: i64, k: i64) -> (r: ThreeBodyHamiltonian)
        ensures
            r.m == m,
            r.k == k,
    {
        ThreeBodyHamiltonian { m, k }
    }
}

/// The three-body equations of motion over raw values; see
/// [`ThreeBodyHamiltonian`]. The pairwise separations are
/// `r01 = q0 - q1`, `r02 = q0 - q2` and `r12 = q1 - q2`, each divided by
/// the cube of its norm; the force sums obey Newton's third law across
/// the three pairs.
pub open spec fn three_body_eom_s(m: i64, k: i64, p: Seq<i64>, q: Seq<i64>) -> Result<
    (Seq<i64>, Seq<i64>),
    IntegrationError,
> {
    if p.len() != 6 || q.len() != 6 {
        Err(IntegrationError::DimensionMismatch)
    } else {
        let r01x = q[0] - q[2];
        let r01y = q[1] - q[3];
        let r02x = q[0] - q[4];
        let r02y = q[1] - q[5];
        let r12x = q[2] - q[4];
        let r12y = q[3] - q[5];
        if !(fits64(r01x) && fits64(r01y) && fits64(r02x) && fits64(r02y) && fits64(r12x)
            && fits64(r12y)) {
            Err(IntegrationError::NumericalDivergence)
        } else {
            match (sep_cubed_s(r01x, r01y), sep_cubed_s(r02x, r02y), sep_cubed_s(r12x, r12y)) {
                (Some(a3), Some(b3), Some(c3)) => {
                    if a3 == 0 || b3 == 0 || c3 == 0 {
                        Err(IntegrationError::NumericalDivergence)
                    } else {
                        let t01x = fx_div_s(r01x, a3);
                        let t01y = fx_div_s(r01y, a3);
                        let t02x = fx_div_s(r02x, b3);
                        let t02y = fx_div_s(r02y, b3);
                        let t12x = fx_div_s(r12x, c3);
                        let t12y = fx_div_s(r12y, c3);
                        if !(fits64(t01x) && fits64(t01y) && fits64(t02x) && fits64(t02y)
                            && fits64(t12x) && fits64(t12y)) {
                            Err(IntegrationError::NumericalDivergence)
                        } else if !(fits64(-r01x) && fits64(-r01y) && fits64(-r02x) && fits64(
                            -r02y,
                        ) && fits64(-r12x) && fits64(-r12y)) {
                            Err(IntegrationError::NumericalDivergence)
                        } else {
                            let u01x = fx_div_s(-r01x, a3);
                            let u01y = fx_div_s(-r01y, a3);
                            let u02x = fx_div_s(-r02x, b3);
                            let u02y = fx_div_s(-r02y, b3);
                            let u12x = fx_div_s(-r12x, c3);
                            let u12y = fx_div_s(-r12y, c3);
                            if !(fits64(u01x) && fits64(u01y) && fits64(u02x) && fits64(u02y)
                                && fits64(u12x) && fits64(u12y)) {
                                Err(IntegrationError::NumericalDivergence)
                            } else if !fits64(-(k as int)) {
                                Err(IntegrationError::NumericalDivergence)
                            } else {
                                let nk = -(k as int);
                                if !(fits64(t01x + t02x) && fits64(t01y + t02y) && fits64(
                                    u01x + t12x,
                                ) && fits64(u01y + t12y) && fits64(u02x + u12x) && fits64(
                                    u02y + u12y,
                                )) {
                                    Err(IntegrationError::NumericalDivergence)
                                } else {
                                    let pdot = seq![
                                        fx_mul_s(nk, t01x + t02x),
                                        fx_mul_s(nk, t01y + t02y),
                                        fx_mul_s(nk, u01x + t12x),
                                        fx_mul_s(nk, u01y + t12y),
                                        fx_mul_s(nk, u02x + u12x),
                                        fx_mul_s(nk, u02y + u12y),
                                    ];
                                    if !all_fit(pdot) || m == 0 {
                                        Err(IntegrationError::NumericalDivergence)
                                    } else {
                                        let qdot = seq_div_s(p, m);
                                        if !all_fit(qdot) {
                                            Err(IntegrationError::NumericalDivergence)
                                        } else {
                                            Ok((cast64(pdot), cast64(qdot)))
                                        }
                                    }
                                }
                            }
                        }
                    }
                },
                _ => Err(IntegrationError::NumericalDivergence),
            }
        }
    }
}

impl Hamiltonian for ThreeBodyHamiltonian {
    open spec fn eom_spec(&self, t: i64, p: Seq<i64>, q: Seq<i64>) -> Result<
        (Seq<i64>, Seq<i64>),
        IntegrationError,
    > {
        three_body_eom_s(self.m, self.k, p, q)
    }

    open spec fn num_particles_spec(&self) -> usize {
        3
    }

    fn eom(&self, t: i64, pq: &PhaseSpaceVector) -> (r: Result<
        PhaseSpaceVector,
        IntegrationError,
    >) {
        if pq.momenta.len() != 6 || pq.positions.len() != 6 {
            return Err(IntegrationError::DimensionMismatch);
        }
        let q = &pq.positions;
        let r01x = match fx_sub(q[0], q[2]) {
            Some(v) => v,
            None => {
                return Err(IntegrationError::NumericalDivergence);
            },
        };
        let r01y = match fx_sub(q[1], q[3]) {
            Some(v) => v,
            None => {
                return Err(IntegrationError::NumericalDivergence);
            },
        };
        let r02x = match fx_sub(q[0], q[4]) {
            Some(v) => v,
            None => {
                return Err(IntegrationError::NumericalDivergence);
            },
        };
        let r02y = match fx_sub(q[1], q[5]) {
            Some(v) => v,
            None => {
                return Err(IntegrationError::NumericalDivergence);
            },
        };
        let r12x = match fx_sub(q[2], q[4]) {
            Some(v) => v,
            None => {
                return Err(IntegrationError::NumericalDivergence);
            },
        };
        let r12y = match fx_sub(q[3], q[5]) {
            Some(v) => v,
            None => {
                return Err(IntegrationError::NumericalDivergence);
            },
        };
        let a3 = match sep_cubed(r01x, r01y) {
            Some(v) => v,
            None => {
                return Err(IntegrationError::NumericalDivergence);
            },
        };
        let b3 = match sep_cubed(r02x, r02y) {
            Some(v) => v,
            None => {
                return Err(IntegrationError::NumericalDivergence);
            },
        };
        let c3 = match sep_cubed(r12x, r12y) {
            Some(v) => v,
            None => {
                return Err(IntegrationError::NumericalDivergence);
            },
        };
        let t01x = match fx_div(r01x, a3) {
            Some(v) => v,
            None => {
                return Err(IntegrationError::NumericalDivergence);
            },
        };
        let t01y = match fx_div(r01y, a3) {
            Some(v) => v,
            None => {
                return Err(IntegrationError::NumericalDivergence);
            },
        };
        let t02x = match fx_div(r02x, b3) {
            Some(v) => v,
            None => {
                return Err(IntegrationError::NumericalDivergence);
            },
        };
        let t02y = match fx_div(r02y, b3) {
            Some(v) => v,
            None => {
                return Err(IntegrationError::NumericalDivergence);
            },
        };
        let t12x = match fx_div(r12x, c3) {
            Some(v) => v,
            None => {
                return Err(IntegrationError::NumericalDivergence);
            },
        };
        let t12y = match fx_div(r12y, c3) {
            Some(v) => v,
            None => {
                return Err(IntegrationError::NumericalDivergence);
            },
        };
        let n01x = match fx_neg(r01x) {
            Some(v) => v,
            None => {
                return Err(IntegrationError::NumericalDivergence);
            },
        };
        let n01y = match fx_neg(r01y) {
            Some(v) => v,
            None => {
                return Err(IntegrationError::NumericalDivergence);
            },
        };
        let n02x = match fx_neg(r02x) {
            Some(v) => v,
            None => {
                return Err(IntegrationError::NumericalDivergence);
            },
        };
        let n02y = match fx_neg(r02y) {
            Some(v) => v,
            None => {
                return Err(IntegrationError::NumericalDivergence);
            },
        };
        let n12x = match fx_neg(r12x) {
            Some(v) => v,
            None => {
                return Err(IntegrationError::NumericalDivergence);
            },
        };
        let n12y = match fx_neg(r12y) {
            Some(v) => v,
            None => {
                return Err(IntegrationError::NumericalDivergence);
            },
        };
        let u01x = match fx_div(n01x, a3) {
            Some(v) => v,
            None => {
                return Err(IntegrationError::NumericalDivergence);
            },
        };
        let u01y = match fx_div(n01y, a3) {
            Some(v) => v,
            None => {
                return Err(IntegrationError::NumericalDivergence);
            },
        };
        let u02x = match fx_div(n02x, b3) {
            Some(v) => v,
            None => {
                return Err(IntegrationError::NumericalDivergence);
            },
        };
        let u02y = match fx_div(n02y, b3) {
            Some(v) => v,
            None => {
                return Err(IntegrationError::NumericalDivergence);
            },
        };
        let u12x = match fx_div(n12x, c3) {
            Some(v) => v,
            None => {
                return Err(IntegrationError::NumericalDivergence);
            },
        };
        let u12y = match fx_div(n12y, c3) {
            Some(v) => v,
            None => {
                return Err(IntegrationError::NumericalDivergence);
            },
        };
        let nk = match fx_neg(self.k) {
            Some(v) => v,
            None => {
                return Err(IntegrationError::NumericalDivergence);
            },
        };
        let s0x = match fx_add(t01x, t02x) {
            Some(v) => v,
            None => {
                return Err(IntegrationError::NumericalDivergence);
            },
        };
        let s0y = match fx_add(t01y, t02y) {
            Some(v) => v,
            None => {
                return Err(IntegrationError::NumericalDivergence);
            },
        };
        let s1x = match fx_add(u01x, t12x) {
            Some(v) => v,
            None => {
                return Err(IntegrationError::NumericalDivergence);
            },
        };
        let s1y = match fx_add(u01y, t12y) {
            Some(v) => v,
            None => {
                return Err(IntegrationError::NumericalDivergence);
            },
        };
        let s2x = match fx_add(u02x, u12x) {
            Some(v) => v,
            None => {
                return Err(IntegrationError::NumericalDivergence);
            },
        };
        let s2y = match fx_add(u02y, u12y) {
            Some(v) => v,
            None => {
                return Err(IntegrationError::NumericalDivergence);
            },
        };
        let f0x = match fx_mul(nk, s0x) {
            Some(v) => v,
            None => {
                return Err(IntegrationError::NumericalDivergence);
            },
        };
        let f0y = match fx_mul(nk, s0y) {
            Some(v) => v,
            None => {
                return Err(IntegrationError::NumericalDivergence);
            },
        };
        let f1x = match fx_mul(nk, s1x) {
            Some(v) => v,
            None => {
                return Err(IntegrationError::NumericalDivergence);
            },
        };
        let f1y = match fx_mul(nk, s1y) {
            Some(v) => v,
            None => {
                return Err(IntegrationError::NumericalDivergence);
            },
        };
        let f2x = match fx_mul(nk, s2x) {
            Some(v) => v,
            None => {
                return Err(IntegrationError::NumericalDivergence);
            },
        };
        let f2y = match fx_mul(nk, s2y) {
            Some(v) => v,
            None => {
                return Err(IntegrationError::NumericalDivergence);
            },
        };
        let mut pdot: Vec<i64> = Vec::new();
        pdot.push(f0x);
        pdot.push(f0y);
        pdot.push(f1x);
        pdot.push(f1y);
        pdot.push(f2x);
        pdot.push(f2y);
        let qdot = match div_raw(&pq.momenta, self.m) {
            Some(v) => v,
            None => {
                return Err(IntegrationError::NumericalDivergence);
            },
        };
        proof {
            let spec_pdot = seq![
                fx_mul_s(nk as int, t01x + t02x),
                fx_mul_s(nk as int, t01y + t02y),
                fx_mul_s(nk as int, u01x + t12x),
                fx_mul_s(nk as int, u01y + t12y),
                fx_mul_s(nk as int, u02x + u12x),
                fx_mul_s(nk as int, u02y + u12y),
            ];
            assert(pdot@ =~= cast64(spec_pdot));
        }
        Ok(PhaseSpaceVector { momenta: pdot, positions: qdot })
    }

    fn num_particles(&self) -> (n: usize) {
        3
    }
}

} // verus!
