//! A particle: a point of the search space together with its velocity and
//! the best position it has ever held.

use vstd::prelude::*;
use crate::fixed::{sat_sub, isqrt_u128, sat_add_u128};
use crate::fixed::{spec_sat_sub, spec_sat_add_u128};
use crate::rng::gen_range_i64;

verus! {

/// Builds `n` particles of dimensionality `dim`: each position coordinate
/// drawn from `[min, max]`, the velocity zero, and the personal best equal
/// to the position.
pub(crate) fn init_particles(
    rng: &mut rand::rngs::StdRng,
    min: i64,
    max: i64,
    n: usize,
    dim: usize,
) -> (ps: Vec<Particle>)
    requires
        min <= max,
    ensures
        ps@.len() == n,
        forall|i: int| 0 <= i < n ==> (#[trigger] ps@[i]).wf(dim as int),
        forall|i: int, j: int|
            0 <= i < n && 0 <= j < dim ==> min <= #[trigger] ps@[i].position@[j] <= max,
        forall|i: int, j: int| 0 <= i < n && 0 <= j < dim ==> #[trigger] ps@[i].velocity@[j] == 0,
        forall|i: int| 0 <= i < n ==> (#[trigger] ps@[i]).personal_best@ == ps@[i].position@,
{
    let mut ps: Vec<Particle> = Vec::new();
    for i in 0..n
        invariant
            min <= max,
            ps@.len() == i,
            forall|k: int| 0 <= k < i ==> (#[trigger] ps@[k]).wf(dim as int),
            forall|k: int, j: int|
                0 <= k < i && 0 <= j < dim ==> min <= #[trigger] ps@[k].position@[j] <= max,
            forall|k: int, j: int|
                0 <= k < i && 0 <= j < dim ==> #[trigger] ps@[k].velocity@[j] == 0,
            forall|k: int| 0 <= k < i ==> (#[trigger] ps@[k]).personal_best@ == ps@[k].position@,
    {
        let mut position: Vec<i64> = Vec::new();
        for j in 0..dim
            invariant
                min <= max,
                position@.len() == j,
                forall|t: int| 0 <= t < j ==> min <= #[trigger] position@[t] <= max,
        {
            position.push(gen_range_i64(rng, min, max));
        }
        let mut velocity: Vec<i64> = Vec::new();
        for j in 0..dim
            invariant
                velocity@.len() == j,
                forall|t: int| 0 <= t < j ==> #[trigger] velocity@[t] == 0,
        {
            velocity.push(0);
        }
        let personal_best = copy_coords(&position);
        ps.push(Particle { position, velocity, personal_best });
    }
    ps
}

/// Returns a vector with exactly the coordinates of `v`.
pub fn copy_coords(v: &Vec<i64>) -> (r: Vec<i64>)
    ensures
        r@ == v@,
{
    let n = v.len();
    let mut r: Vec<i64> = Vec::new();
    for i in 0..n
        invariant
            n == v@.len(),
            r@.len() == i,
            forall|j: int| 0 <= j < i ==> r@[j] == v@[j],
    {
        r.push(v[i]);
    }
    proof {
        assert(r@ =~= v@);
    }
    r
}

/// A candidate solution. Each coordinate is a fixed-point value (see
/// [`crate::fixed::SCALE`]). An optimizer keeps `position`, `velocity` and
/// `personal_best` at one common length, the dimensionality of the search
/// space.
#[derive(Clone)]
pub struct Particle {
    pub position: Vec<i64>,
    pub velocity: Vec<i64>,
    pub personal_best: Vec<i64>,
}

impl Particle {
    /// The particle's three coordinate sequences all have length `dim`.
    pub open spec fn wf(self, dim: int) -> bool {
        &&& self.position@.len() == dim
        &&& self.velocity@.len() == dim
        &&& self.personal_best@.len() == dim
    }

    /// Returns a particle with exactly the coordinates of `self`.
    pub fn duplicate(&self) -> (r: Particle)
        ensures
            r.position@ == self.position@,
            r.velocity@ == self.velocity@,
            r.personal_best@ == self.personal_best@,
    {
        Particle {
            position: copy_coords(&self.position),
            velocity: copy_coords(&self.velocity),
            personal_best: copy_coords(&self.personal_best),
        }
    }

    /// The saturating sum of the squared coordinate differences of the first
    /// `n` dimensions of `a` and `b`.
    pub open spec fn sq_dist(a: Seq<i64>, b: Seq<i64>, n: int) -> int
        decreases n,
    {
        if n <= 0 {
            0
        } else {
            let d = spec_sat_sub(a[n - 1] as int, b[n - 1] as int);
            spec_sat_add_u128(Self::sq_dist(a, b, n - 1), d * d)
        }
    }

    /// The Euclidean distance between the positions of `self` and `other`,
    /// in fixed-point units: the integer square root of the sum of squared
    /// coordinate differences, saturating at `i64::MAX`. The two particles
    /// must have equal dimensionality.
    pub fn distance(&self, other: &Particle) -> (r: i64)
        requires
            self.position@.len() == other.position@.len(),
        ensures
            ({
                let s = Self::sq_dist(self.position@, other.position@, self.position@.len() as int);
                let top = (i64::MAX as int + 1) * (i64::MAX as int + 1);
                &&& r >= 0
                &&& s < top ==> (r as int) * (r as int) <= s < ((r as int + 1) * (r as int + 1))
                &&& s >= top ==> r == i64::MAX
            }),
    {
        let n = self.position.len();
        let mut sum: u128 = 0;
        for i in 0..n
            invariant
                n == self.position@.len() == other.position@.len(),
                sum as int == Self::sq_dist(self.position@, other.position@, i as int),
        {
            let d = sat_sub(self.position[i], other.position[i]);
            proof {
                assert(0 <= (d as int) * (d as int) <= i128::MAX as int) by (nonlinear_arith)
                    requires
                        i64::MIN <= d <= i64::MAX,
                {}
            }
            let sq: u128 = ((d as i128) * (d as i128)) as u128;
            sum = sat_add_u128(sum, sq);
        }
        let root = isqrt_u128(sum);
        proof {
            let top = (i64::MAX as int + 1) * (i64::MAX as int + 1);
            if sum as int >= top {
                assert(root > i64::MAX as u128) by (nonlinear_arith)
                    requires
                        ((root as int + 1) * (root as int + 1)) > (sum as int),
                        (sum as int) >= ((i64::MAX as int + 1) * (i64::MAX as int + 1)),
                        root >= 0,
                {}
            } else {
                assert(root <= i64::MAX as u128) by (nonlinear_arith)
                    requires
                        (root as int) * (root as int) <= sum as int,
                        (sum as int) < ((i64::MAX as int + 1) * (i64::MAX as int + 1)),
                        root >= 0,
                {}
            }
        }
        if root > i64::MAX as u128 {
            i64::MAX
        } else {
            root as i64
        }
    }
}

} // verus!
