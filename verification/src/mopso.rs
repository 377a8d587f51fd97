//! The multi-objective extension: the Pareto-dominance relation,
//! nondominated-front extraction, and an external archive seeded from the
//! initial population.

use vstd::prelude::*;
use crate::particle::{Particle, init_particles};

verus! {

/// Weak Pareto dominance over two equal-length objective vectors, under
/// minimization: `a` dominates `b` when the vectors differ and no component
/// of `a` exceeds the corresponding component of `b`.
pub open spec fn spec_dominates(a: Seq<i64>, b: Seq<i64>) -> bool {
    &&& a.len() == b.len()
    &&& exists|i: int| 0 <= i < a.len() && #[trigger] a[i] != b[i]
    &&& forall|i: int| 0 <= i < a.len() ==> #[trigger] a[i] <= b[i]
}

/// Whether `a` dominates `b`: the vectors differ and every component of `a`
/// is less than or equal to the corresponding component of `b`. The two
/// vectors must have equal length.
pub fn dominates(a: &Vec<i64>, b: &Vec<i64>) -> (r: bool)
    requires
        a@.len() == b@.len(),
    ensures
        r == spec_dominates(a@, b@),
{
    let n = a.len();
    let mut differs = false;
    for i in 0..n
        invariant
            n == a@.len() == b@.len(),
            differs == exists|t: int| 0 <= t < i && #[trigger] a@[t] != b@[t],
            forall|t: int| 0 <= t < i ==> #[trigger] a@[t] <= b@[t],
    {
        if a[i] > b[i] {
            proof {
                assert(!(a@[i as int] <= b@[i as int]));
            }
            return false;
        }
        if a[i] != b[i] {
            differs = true;
        }
    }
    differs
}

/// Dominance is irreflexive: no objective vector dominates itself.
pub proof fn lemma_dominates_irreflexive(a: Seq<i64>)
    ensures
        !spec_dominates(a, a),
{
    assert(forall|i: int| 0 <= i < a.len() ==> #[trigger] a[i] == a[i]);
}

/// Dominance is asymmetric: two objective vectors never dominate each
/// other.
pub proof fn lemma_dominates_asymmetric(a: Seq<i64>, b: Seq<i64>)
    requires
        spec_dominates(a, b),
    ensures
        !spec_dominates(b, a),
{
    if spec_dominates(b, a) {
        let i = choose|i: int| 0 <= i < a.len() && #[trigger] a[i] != b[i];
        assert(a[i] <= b[i]);
        assert(b[i] <= a[i]);
        assert(false);
    }
}

/// Whether the objective vector at row `i` of `m` is dominated by no other
/// row of `m`.
pub open spec fn is_nondominated(m: Seq<Seq<i64>>, i: int) -> bool {
    forall|j: int| 0 <= j < m.len() && j != i ==> !spec_dominates(#[trigger] m[j], m[i])
}

/// The view of an objective matrix: one row of objective values per
/// particle.
pub open spec fn matrix_seq(m: Vec<Vec<i64>>) -> Seq<Seq<i64>> {
    m@.map_values(|row: Vec<i64>| row@)
}

/// The indices of the nondominated rows of `m`, in increasing order: a row
/// is kept exactly when no other row dominates it (mutually nondominated
/// rows, identical ones included, are all kept). All rows must have one
/// entry per objective.
pub fn nondominated_indices(m: &Vec<Vec<i64>>) -> (r: Vec<usize>)
    requires
        forall|i: int, j: int|
            0 <= i < m@.len() && 0 <= j < m@.len() ==> (#[trigger] m@[i])@.len() == (
            #[trigger] m@[j])@.len(),
    ensures
        forall|k: int|
            0 <= k < r@.len() ==> (#[trigger] r@[k] as int) < m@.len() && is_nondominated(
                matrix_seq(*m),
                r@[k] as int,
            ),
        forall|k1: int, k2: int| 0 <= k1 < k2 < r@.len() ==> r@[k1] < r@[k2],
        forall|i: int|
            0 <= i < m@.len() && is_nondominated(matrix_seq(*m), i) ==> exists|k: int|
                0 <= k < r@.len() && #[trigger] r@[k] as int == i,
{
    let ghost mm = matrix_seq(*m);
    let n = m.len();
    let mut r: Vec<usize> = Vec::new();
    for i in 0..n
        invariant
            n == m@.len(),
            mm == matrix_seq(*m),
            forall|i2: int, j2: int|
                0 <= i2 < n && 0 <= j2 < n ==> (#[trigger] m@[i2])@.len() == (
                #[trigger] m@[j2])@.len(),
            forall|k: int|
                0 <= k < r@.len() ==> (#[trigger] r@[k] as int) < i && is_nondominated(
                    mm,
                    r@[k] as int,
                ),
            forall|k1: int, k2: int| 0 <= k1 < k2 < r@.len() ==> r@[k1] < r@[k2],
            forall|t: int|
                0 <= t < i && is_nondominated(mm, t) ==> exists|k: int|
                    0 <= k < r@.len() && #[trigger] r@[k] as int == t,
    {
        let mut dominated = false;
        for j in 0..n
            invariant
                n == m@.len(),
                mm == matrix_seq(*m),
                i < n,
                forall|i2: int, j2: int|
                    0 <= i2 < n && 0 <= j2 < n ==> (#[trigger] m@[i2])@.len() == (
                    #[trigger] m@[j2])@.len(),
                dominated == exists|j2: int|
                    0 <= j2 < j && j2 != i && spec_dominates(#[trigger] mm[j2], mm[i as int]),
        {
            if j != i {
                if dominates(&m[j], &m[i]) {
                    dominated = true;
                    proof {
                        assert(spec_dominates(mm[j as int], mm[i as int]));
                    }
                }
            }
        }
        if !dominated {
            let ghost before = r@;
            r.push(i);
            proof {
                assert forall|j: int|
                    0 <= j < mm.len() && j != i as int implies !spec_dominates(
                    #[trigger] mm[j],
                    mm[i as int],
                ) by {
                    if spec_dominates(mm[j], mm[i as int]) {
                        assert(exists|j2: int|
                            0 <= j2 < n && j2 != i && spec_dominates(
                                #[trigger] mm[j2],
                                mm[i as int],
                            ));
                        assert(false);
                    }
                }
                assert(is_nondominated(mm, i as int));
                assert(r@[r@.len() - 1] == i);
                assert forall|t: int| 0 <= t < i + 1 && is_nondominated(mm, t) implies exists|
                    k: int,
                |
                    0 <= k < r@.len() && #[trigger] r@[k] as int == t by {
                    if t == i as int {
                        assert(r@[r@.len() - 1] as int == t);
                    } else {
                        let k = choose|k: int|
                            0 <= k < before.len() && #[trigger] before[k] as int == t;
                        assert(r@[k] as int == t);
                    }
                }
            }
        } else {
            proof {
                let j2 = choose|j2: int|
                    0 <= j2 < n && j2 != i && spec_dominates(#[trigger] mm[j2], mm[i as int]);
                assert(!is_nondominated(mm, i as int));
            }
        }
    }
    r
}

/// The multi-objective swarm optimizer: a swarm together with the set of
/// evaluation functions and an external archive of mutually nondominated
/// particles, computed once from the initial population.
pub struct Mopso<F: Fn(&Vec<i64>) -> i64> {
    pub particles: Vec<Particle>,
    pub w: i64,
    pub c1: i64,
    pub c2: i64,
    pub eval_funcs: Vec<F>,
    pub external_archive: Vec<Particle>,
}

impl<F: Fn(&Vec<i64>) -> i64> Mopso<F> {
    /// Every evaluation function accepts every position.
    pub open spec fn funcs_callable(self) -> bool {
        forall|k: int, x: &Vec<i64>|
            0 <= k < self.eval_funcs@.len() ==> #[trigger] call_requires(
                self.eval_funcs@[k],
                (x,),
            )
    }

    /// `m` is an objective matrix for `self`: one row per particle, whose
    /// entry for each objective is a value that evaluation function
    /// returned for the particle's position.
    pub open spec fn matrix_ok(self, m: Seq<Seq<i64>>) -> bool {
        &&& m.len() == self.particles@.len()
        &&& forall|i: int| 0 <= i < m.len() ==> (#[trigger] m[i]).len() == self.eval_funcs@.len()
        &&& forall|i: int, k: int|
            #![trigger m[i][k]]
            0 <= i < m.len() && 0 <= k < self.eval_funcs@.len() ==> call_ensures(
                self.eval_funcs@[k],
                (&self.particles@[i].position,),
                m[i][k],
            )
    }

    /// `r` holds copies of exactly the particles whose rows of `m` are
    /// nondominated, listed by increasing particle index `idxs`.
    pub open spec fn selection_ok(self, m: Seq<Seq<i64>>, idxs: Seq<int>, r: Seq<Particle>) -> bool {
        &&& idxs.len() == r.len()
        &&& forall|k: int| 0 <= k < idxs.len() ==> 0 <= #[trigger] idxs[k] < self.particles@.len()
        &&& forall|k: int| 0 <= k < idxs.len() ==> is_nondominated(m, #[trigger] idxs[k])
        &&& forall|k1: int, k2: int| 0 <= k1 < k2 < idxs.len() ==> idxs[k1] < idxs[k2]
        &&& forall|i: int|
            0 <= i < self.particles@.len() && #[trigger] is_nondominated(m, i) ==> exists|k: int|
                0 <= k < idxs.len() && #[trigger] idxs[k] == i
        &&& forall|k: int|
            #![trigger r[k]]
            0 <= k < r.len() ==> r[k].position@ == self.particles@[idxs[k]].position@
                && r[k].velocity@ == self.particles@[idxs[k]].velocity@ && r[k].personal_best@
                == self.particles@[idxs[k]].personal_best@
    }

    /// Extracts the nondominated front of the current population: every
    /// particle's position is scored under every evaluation function, and a
    /// particle is kept exactly when no other particle's objective vector
    /// dominates its own.
    pub fn nondominated_particles(&self) -> (r: Vec<Particle>)
        requires
            self.funcs_callable(),
        ensures
            exists|m: Seq<Seq<i64>>, idxs: Seq<int>|
                self.matrix_ok(m) && #[trigger] self.selection_ok(m, idxs, r@),
    {
        let n = self.particles.len();
        let nf = self.eval_funcs.len();
        let mut results: Vec<Vec<i64>> = Vec::new();
        for i in 0..n
            invariant
                self.funcs_callable(),
                n == self.particles@.len(),
                nf == self.eval_funcs@.len(),
                results@.len() == i,
                forall|i2: int| 0 <= i2 < i ==> (#[trigger] results@[i2])@.len() == nf,
                forall|i2: int, k: int|
                    #![trigger results@[i2]@[k]]
                    0 <= i2 < i && 0 <= k < nf ==> call_ensures(
                        self.eval_funcs@[k],
                        (&self.particles@[i2].position,),
                        results@[i2]@[k],
                    ),
        {
            let mut row: Vec<i64> = Vec::new();
            for k in 0..nf
                invariant
                    self.funcs_callable(),
                    n == self.particles@.len(),
                    nf == self.eval_funcs@.len(),
                    i < n,
                    row@.len() == k,
                    forall|k2: int|
                        #![trigger row@[k2]]
                        0 <= k2 < k ==> call_ensures(
                            self.eval_funcs@[k2],
                            (&self.particles@[i as int].position,),
                            row@[k2],
                        ),
            {
                let s = (self.eval_funcs[k])(&self.particles[i].position);
                row.push(s);
            }
            results.push(row);
        }
        let idxs = nondominated_indices(&results);
        let mut r: Vec<Particle> = Vec::new();
        let nn = idxs.len();
        let ghost mm = matrix_seq(results);
        for k in 0..nn
            invariant
                n == self.particles@.len(),
                nn == idxs@.len(),
                mm == matrix_seq(results),
                forall|k2: int|
                    0 <= k2 < nn ==> (#[trigger] idxs@[k2] as int) < n && is_nondominated(
                        mm,
                        idxs@[k2] as int,
                    ),
                r@.len() == k,
                forall|k2: int|
                    #![trigger r@[k2]]
                    0 <= k2 < k ==> r@[k2].position@ == self.particles@[idxs@[k2] as int].position@
                        && r@[k2].velocity@ == self.particles@[idxs@[k2] as int].velocity@
                        && r@[k2].personal_best@ == self.particles@[
                    idxs@[k2] as int].personal_best@,
        {
            let p = self.particles[idxs[k]].duplicate();
            r.push(p);
        }
        proof {
            let idxs_int = Seq::new(idxs@.len(), |k: int| idxs@[k] as int);
            assert(mm.len() == n as int);
            assert forall|i: int| 0 <= i < mm.len() implies (#[trigger] mm[i]).len() == nf as int
                by {
                assert(mm[i] == results@[i]@);
            }
            assert forall|i: int, k: int|
                #![trigger mm[i][k]]
                0 <= i < mm.len() && 0 <= k < nf implies call_ensures(
                self.eval_funcs@[k],
                (&self.particles@[i].position,),
                mm[i][k],
            ) by {
                assert(mm[i] == results@[i]@);
            }
            assert(self.matrix_ok(mm));
            assert forall|k: int| 0 <= k < idxs_int.len() implies 0 <= #[trigger] idxs_int[k]
                < self.particles@.len() && is_nondominated(mm, idxs_int[k]) by {
                assert(idxs_int[k] == idxs@[k] as int);
            }
            assert forall|i: int|
                0 <= i < self.particles@.len() && #[trigger] is_nondominated(mm, i) implies exists|
                k: int,
            |
                0 <= k < idxs_int.len() && #[trigger] idxs_int[k] == i by {
                let k = choose|k: int| 0 <= k < idxs@.len() && #[trigger] idxs@[k] as int == i;
                assert(idxs_int[k] == i);
            }
            assert(self.selection_ok(mm, idxs_int, r@));
        }
        r
    }

    /// Builds a multi-objective optimizer: `n` particles of dimensionality
    /// `dim` initialized as in the single-objective case, and the external
    /// archive seeded, exactly once, with the nondominated front of that
    /// initial population.
    pub fn new(
        w: i64,
        c1: i64,
        c2: i64,
        min: i64,
        max: i64,
        n: usize,
        dim: usize,
        eval_funcs: Vec<F>,
        rng: &mut rand::rngs::StdRng,
    ) -> (r: Mopso<F>)
        requires
            min <= max,
            forall|k: int, x: &Vec<i64>|
                0 <= k < eval_funcs@.len() ==> #[trigger] call_requires(eval_funcs@[k], (x,)),
        ensures
            r.w == w && r.c1 == c1 && r.c2 == c2,
            r.eval_funcs == eval_funcs,
            r.particles@.len() == n,
            forall|i: int| 0 <= i < n ==> (#[trigger] r.particles@[i]).wf(dim as int),
            forall|i: int, j: int|
                0 <= i < n && 0 <= j < dim ==> min <= #[trigger] r.particles@[i].position@[j]
                    <= max,
            forall|i: int, j: int|
                0 <= i < n && 0 <= j < dim ==> #[trigger] r.particles@[i].velocity@[j] == 0,
            forall|i: int|
                0 <= i < n ==> (#[trigger] r.particles@[i]).personal_best@
                    == r.particles@[i].position@,
            exists|m: Seq<Seq<i64>>, idxs: Seq<int>|
                r.matrix_ok(m) && #[trigger] r.selection_ok(m, idxs, r.external_archive@),
    {
        let particles = init_particles(rng, min, max, n, dim);
        let mut mopso = Mopso { particles, w, c1, c2, eval_funcs, external_archive: Vec::new() };
        let ghost pre_mopso = mopso;
        let archive = mopso.nondominated_particles();
        let ghost arch_view = archive@;
        mopso.external_archive = archive;
        proof {
            let (m, idxs) = choose|m: Seq<Seq<i64>>, idxs: Seq<int>|
                pre_mopso.matrix_ok(m) && #[trigger] pre_mopso.selection_ok(m, idxs, arch_view);
            assert(mopso.particles == pre_mopso.particles);
            assert(mopso.eval_funcs == pre_mopso.eval_funcs);
            assert(mopso.matrix_ok(m));
            assert(mopso.selection_ok(m, idxs, mopso.external_archive@));
        }
        mopso
    }

    /// The per-iteration step of the multi-objective optimizer. A full
    /// multi-objective update cycle (archive maintenance and leader
    /// selection) is an open extension point of this design: the step
    /// leaves the optimizer unchanged, and the archive remains the
    /// construction-time snapshot.
    pub fn update(&mut self, _rng: &mut rand::rngs::StdRng)
        ensures
            *final(self) == *old(self),
    {
    }
}

} // verus!
