//! The single-objective swarm optimizer: owns the particles, the topology
//! and the scalar evaluation function; implements initialization, the
//! velocity/position update rule, local/global best resolution, and the run
//! loop.
//!
//! The optimizer stores, beside each particle, the score the evaluation
//! function returned for the particle's current position and for its
//! personal best, and the score of the swarm's global best. Scores are
//! fixed-point `i64` values, so every comparison between them is total.

use vstd::prelude::*;
use vstd::pervasive::VecAdditionalExecFns;
use std::io::Write;
use crate::particle::{Particle, copy_coords, init_particles};
use crate::topology::{
    graph_seq, graph_ok, reach_set, graph_indices_valid, reachable_within, copy_graph,
    lemma_reach_contains_start, lemma_reach_in_range,
};
use crate::rng::gen_range_i64;
use crate::fixed::{SCALE, fmul, sat_add, sat_sub, spec_fmul, spec_sat_add, spec_sat_sub};

verus! {

/// A configuration the optimizer cannot be built from; reported at
/// construction, which then returns no partial optimizer.
#[derive(Debug, Clone, Copy, PartialEq, Eq, Structural)]
pub enum ConfigurationError {
    /// The neighborhood topology has no entries.
    EmptyTopology,
    /// An adjacency row mentions a particle index that does not exist.
    NeighborOutOfRange,
    /// The lower initialization bound exceeds the upper one.
    InvalidBounds,
    /// The search space has no dimensions.
    ZeroDimension,
}

/// The new velocity of one coordinate: the inertia term plus the cognitive
/// pull toward the personal best plus the social pull toward the leader,
/// each weighted by its coefficient, in saturating fixed-point arithmetic.
pub open spec fn spec_velocity(
    w: int,
    v: int,
    c1: int,
    r1: int,
    pb: int,
    pos: int,
    c2: int,
    r2: int,
    lead: int,
) -> int {
    spec_sat_add(
        spec_sat_add(spec_fmul(w, v), spec_fmul(spec_fmul(c1, r1), spec_sat_sub(pb, pos))),
        spec_fmul(spec_fmul(c2, r2), spec_sat_sub(lead, pos)),
    )
}

/// Whether `newv` is a velocity the update rule can produce from the given
/// coordinate data: some pair of random factors in `[0, SCALE]` yields it.
pub open spec fn velocity_possible(
    w: int,
    c1: int,
    c2: int,
    oldv: int,
    pb: int,
    pos: int,
    lead: int,
    newv: int,
) -> bool {
    exists|r1: int, r2: int|
        0 <= r1 <= SCALE as int && 0 <= r2 <= SCALE as int && newv == spec_velocity(
            w,
            oldv,
            c1,
            r1,
            pb,
            pos,
            c2,
            r2,
            lead,
        )
}

/// Computes [`spec_velocity`] on fixed-point values.
fn velocity_step(w: i64, v: i64, c1: i64, r1: i64, pb: i64, pos: i64, c2: i64, r2: i64, lead: i64) -> (nv: i64)
    ensures
        nv as int == spec_velocity(
            w as int,
            v as int,
            c1 as int,
            r1 as int,
            pb as int,
            pos as int,
            c2 as int,
            r2 as int,
            lead as int,
        ),
{
    sat_add(
        sat_add(fmul(w, v), fmul(fmul(c1, r1), sat_sub(pb, pos))),
        fmul(fmul(c2, r2), sat_sub(lead, pos)),
    )
}

/// Relies on `std::io::Stdout`: prints the global best and its score after
/// an iteration, when the caller asked for per-iteration reporting.
#[verifier::external_body]
fn report_status(iteration: usize, best: &Vec<i64>, score: i64) {
    let mut out = std::io::stdout();
    let _ = writeln!(out, "iteration {}\nglobal best: {:?}\nbest score: {:?}", iteration, best, score);
}

/// The single-objective swarm optimizer.
pub struct Pso<F: Fn(&Vec<i64>) -> i64> {
    pub particles: Vec<Particle>,
    pub global_best: Vec<i64>,
    pub global_best_score: i64,
    pub personal_best_scores: Vec<i64>,
    pub position_scores: Vec<i64>,
    pub w: i64,
    pub c1: i64,
    pub c2: i64,
    pub eval_func: F,
    pub neighborhood_graph: Vec<Vec<usize>>,
    pub neighborhood_depth: usize,
}

impl<F: Fn(&Vec<i64>) -> i64> Pso<F> {
    /// The number of particles.
    pub open spec fn n(self) -> int {
        self.particles@.len() as int
    }

    /// The dimensionality of the search space.
    pub open spec fn dim(self) -> int {
        self.global_best@.len() as int
    }

    /// The optimizer's invariant: at least one particle; every particle's
    /// coordinate sequences have the configured dimensionality; one stored
    /// score per particle; the topology has one in-range row per particle;
    /// the global best score is at least as good as every personal best,
    /// which is at least as good as the score of the current position; and
    /// the evaluation function accepts every position.
    pub open spec fn wf(self) -> bool {
        &&& self.n() > 0
        &&& forall|i: int| 0 <= i < self.n() ==> (#[trigger] self.particles@[i]).wf(self.dim())
        &&& self.personal_best_scores@.len() == self.n()
        &&& self.position_scores@.len() == self.n()
        &&& graph_ok(graph_seq(self.neighborhood_graph), self.n())
        &&& forall|i: int|
            0 <= i < self.n() ==> self.global_best_score <= #[trigger] self.personal_best_scores@[i]
        &&& forall|i: int|
            0 <= i < self.n() ==> #[trigger] self.personal_best_scores@[i]
                <= self.position_scores@[i]
        &&& forall|x: &Vec<i64>| call_requires(self.eval_func, (x,))
    }

    /// The indices within `neighborhood_depth` hops of `i` in the topology.
    pub open spec fn neighborhood(self, i: int) -> Set<int> {
        reach_set(graph_seq(self.neighborhood_graph), i, self.neighborhood_depth as nat)
    }

    /// What the local-best resolution owes for query index `i`: an index of
    /// the neighborhood whose current position scores best; the query index
    /// wins ties, and otherwise the smallest minimizing index wins.
    pub open spec fn local_best_ok(self, i: int, r: int) -> bool {
        let nb = self.neighborhood(i);
        &&& nb.contains(r)
        &&& forall|v: int|
            nb.contains(v) ==> self.position_scores@[r] <= #[trigger] self.position_scores@[v]
        &&& self.position_scores@[r] == self.position_scores@[i] ==> r == i
        &&& r != i ==> forall|v: int|
            nb.contains(v) && #[trigger] self.position_scores@[v] == self.position_scores@[r]
                ==> r <= v
    }

    /// With neighborhood depth zero, the neighborhood of an index is that
    /// index alone, so the local-best resolution always returns the queried
    /// particle's own index.
    pub proof fn lemma_local_best_depth_zero(self, i: int, r: int)
        requires
            self.neighborhood_depth == 0,
            self.local_best_ok(i, r),
        ensures
            r == i,
    {
        assert(self.neighborhood(i).contains(r));
    }

    /// Resolves the social attractor for the particle at `particle_idx`:
    /// among the particles within `neighborhood_depth` hops (the particle
    /// itself included, as its own neighbor at depth zero), the one whose
    /// current position evaluates best. The queried particle wins ties.
    pub fn local_best_idx(&self, particle_idx: usize) -> (r: usize)
        requires
            self.wf(),
            (particle_idx as int) < self.n(),
        ensures
            (r as int) < self.n(),
            self.local_best_ok(particle_idx as int, r as int),
    {
        let ghost gs = graph_seq(self.neighborhood_graph);
        let ghost nb = self.neighborhood(particle_idx as int);
        let in_nb = reachable_within(
            &self.neighborhood_graph,
            particle_idx,
            self.neighborhood_depth,
        );
        proof {
            lemma_reach_contains_start(gs, particle_idx as int, self.neighborhood_depth as nat);
            lemma_reach_in_range(gs, particle_idx as int, self.neighborhood_depth as nat, self.n());
        }
        let n = self.particles.len();
        let mut best = particle_idx;
        for v in 0..n
            invariant
                self.wf(),
                n == self.n(),
                (particle_idx as int) < n,
                nb == self.neighborhood(particle_idx as int),
                nb.contains(particle_idx as int),
                forall|u: int| nb.contains(u) ==> 0 <= u < n,
                in_nb@.len() == n,
                forall|u: int| 0 <= u < n ==> in_nb@[u] == nb.contains(u),
                (best as int) < n,
                nb.contains(best as int),
                self.position_scores@[best as int] <= self.position_scores@[particle_idx as int],
                forall|u: int|
                    0 <= u < v && nb.contains(u) ==> self.position_scores@[best as int]
                        <= #[trigger] self.position_scores@[u],
                self.position_scores@[best as int] == self.position_scores@[particle_idx as int]
                    ==> best == particle_idx,
                best != particle_idx ==> (best as int) < v,
                best != particle_idx ==> forall|u: int|
                    0 <= u < v && nb.contains(u) && #[trigger] self.position_scores@[u]
                        == self.position_scores@[best as int] ==> best <= u,
        {
            if in_nb[v] && self.position_scores[v] < self.position_scores[best] {
                best = v;
            }
        }
        best
    }

    /// Builds an optimizer: one particle per topology row, each position
    /// coordinate drawn from `[min, max]`, velocities zero, the personal
    /// best equal to the position, and the global best seeded with the
    /// best-scoring initial position (the first such, on ties). Rejects an
    /// empty topology, a topology mentioning an index out of range, bounds
    /// with `min > max`, and a zero-dimensional search space.
    #[verifier::rlimit(100)]
    pub fn new(
        w: i64,
        c1: i64,
        c2: i64,
        min: i64,
        max: i64,
        dim: usize,
        eval_func: F,
        neighborhood_graph: &Vec<Vec<usize>>,
        neighborhood_depth: usize,
        rng: &mut rand::rngs::StdRng,
    ) -> (r: Result<Pso<F>, ConfigurationError>)
        requires
            forall|x: &Vec<i64>| call_requires(eval_func, (x,)),
        ensures
            ({
                let gsv = graph_seq(*neighborhood_graph);
                let n = neighborhood_graph@.len() as int;
                match r {
                    Result::Err(ConfigurationError::EmptyTopology) => n == 0,
                    Result::Err(ConfigurationError::NeighborOutOfRange) => n > 0 && !graph_ok(
                        gsv,
                        n,
                    ),
                    Result::Err(ConfigurationError::InvalidBounds) => n > 0 && graph_ok(gsv, n)
                        && min > max,
                    Result::Err(ConfigurationError::ZeroDimension) => n > 0 && graph_ok(gsv, n)
                        && min <= max && dim == 0,
                    Result::Ok(p) => {
                        &&& n > 0 && graph_ok(gsv, n) && min <= max && dim >= 1
                        &&& p.wf()
                        &&& p.n() == n
                        &&& p.dim() == dim as int
                        &&& p.w == w && p.c1 == c1 && p.c2 == c2
                        &&& p.eval_func == eval_func
                        &&& graph_seq(p.neighborhood_graph) == gsv
                        &&& p.neighborhood_depth == neighborhood_depth
                        &&& forall|i: int, j: int|
                            0 <= i < n && 0 <= j < dim ==> min
                                <= #[trigger] p.particles@[i].position@[j] <= max
                        &&& forall|i: int, j: int|
                            0 <= i < n && 0 <= j < dim ==> #[trigger] p.particles@[i].velocity@[j]
                                == 0
                        &&& forall|i: int|
                            0 <= i < n ==> (#[trigger] p.particles@[i]).personal_best@
                                == p.particles@[i].position@
                        &&& forall|i: int|
                            0 <= i < n ==> #[trigger] p.position_scores@[i]
                                == p.personal_best_scores@[i]
                        &&& forall|i: int|
                            #![trigger p.position_scores@[i]]
                            0 <= i < n ==> call_ensures(
                                eval_func,
                                (&p.particles@[i].position,),
                                p.position_scores@[i],
                            )
                        &&& exists|b: int|
                            0 <= b < n && p.global_best@ == (
                            #[trigger] p.particles@[b]).personal_best@ && p.global_best_score
                                == p.personal_best_scores@[b] && (forall|j: int|
                                0 <= j < b ==> p.global_best_score
                                    < #[trigger] p.personal_best_scores@[j])
                    },
                }
            }),
    {
        let n = neighborhood_graph.len();
        if n == 0 {
            return Err(ConfigurationError::EmptyTopology);
        }
        if !graph_indices_valid(neighborhood_graph) {
            return Err(ConfigurationError::NeighborOutOfRange);
        }
        if min > max {
            return Err(ConfigurationError::InvalidBounds);
        }
        if dim == 0 {
            return Err(ConfigurationError::ZeroDimension);
        }
        let particles = init_particles(rng, min, max, n, dim);
        let mut pb_scores: Vec<i64> = Vec::new();
        let mut pos_scores: Vec<i64> = Vec::new();
        for i in 0..n
            invariant
                min <= max,
                forall|x: &Vec<i64>| call_requires(eval_func, (x,)),
                particles@.len() == n,
                pb_scores@.len() == i,
                pos_scores@.len() == i,
                forall|k: int|
                    0 <= k < i ==> #[trigger] pos_scores@[k] == pb_scores@[k],
                forall|k: int|
                    #![trigger pos_scores@[k]]
                    0 <= k < i ==> call_ensures(
                        eval_func,
                        (&particles@[k].position,),
                        pos_scores@[k],
                    ),
        {
            let s = eval_func(&particles[i].position);
            pb_scores.push(s);
            pos_scores.push(s);
        }
        let mut best_idx: usize = 0;
        for i in 1..n
            invariant
                n == pb_scores@.len(),
                (best_idx as int) < i,
                forall|j: int|
                    0 <= j < i ==> pb_scores@[best_idx as int] <= #[trigger] pb_scores@[j],
                forall|j: int|
                    0 <= j < best_idx ==> pb_scores@[best_idx as int] < #[trigger] pb_scores@[j],
        {
            if pb_scores[i] < pb_scores[best_idx] {
                best_idx = i;
            }
        }
        let global_best = copy_coords(&particles[best_idx].personal_best);
        let global_best_score = pb_scores[best_idx];
        let pso = Pso {
            particles,
            global_best,
            global_best_score,
            personal_best_scores: pb_scores,
            position_scores: pos_scores,
            w,
            c1,
            c2,
            eval_func,
            neighborhood_graph: copy_graph(neighborhood_graph),
            neighborhood_depth,
        };
        proof {
            assert(pso.global_best@ == pso.particles@[best_idx as int].personal_best@);
            assert(pso.wf());
            assert(pso.n() == n as int && pso.dim() == dim as int);
            assert(graph_seq(pso.neighborhood_graph) == graph_seq(*neighborhood_graph));
            assert(forall|i: int, j: int|
                0 <= i < n && 0 <= j < dim ==> min <= #[trigger] pso.particles@[i].position@[j]
                    <= max);
            assert(forall|i: int, j: int|
                0 <= i < n && 0 <= j < dim ==> #[trigger] pso.particles@[i].velocity@[j] == 0);
            assert(forall|i: int|
                0 <= i < n ==> (#[trigger] pso.particles@[i]).personal_best@
                    == pso.particles@[i].position@);
            assert(forall|i: int|
                0 <= i < n ==> #[trigger] pso.position_scores@[i]
                    == pso.personal_best_scores@[i]);
            assert(forall|i: int|
                #![trigger pso.position_scores@[i]]
                0 <= i < n ==> call_ensures(
                    eval_func,
                    (&pso.particles@[i].position,),
                    pso.position_scores@[i],
                ));
            assert(0 <= (best_idx as int) < n as int && pso.global_best@ == pso.particles@[
                best_idx as int].personal_best@ && pso.global_best_score
                == pso.personal_best_scores@[best_idx as int] && (forall|j: int|
                0 <= j < best_idx ==> pso.global_best_score
                    < #[trigger] pso.personal_best_scores@[j]));
            assert(exists|b: int|
                0 <= b < n && pso.global_best@ == (#[trigger] pso.particles@[b]).personal_best@
                    && pso.global_best_score == pso.personal_best_scores@[b] && (forall|j: int|
                    0 <= j < b ==> pso.global_best_score
                        < #[trigger] pso.personal_best_scores@[j]));
        }
        Ok(pso)
    }

    /// How one update step relates a pre-state to a post-state. The
    /// configuration is unchanged. For every particle there is a leader,
    /// resolved on the pre-state snapshot, and per dimension a pair of
    /// random factors in `[0, SCALE]` that produce the committed velocity;
    /// the position moves by that velocity. The stored position score is a
    /// value the evaluation function returned for the new position. The
    /// personal best improves to the new position exactly when the new
    /// score is strictly better, and the global best becomes the minimum of
    /// its old score and every new personal best.
    /// Whether `ls` assigns to every particle a leader resolved on the
    /// pre-state snapshot, such that per dimension some pair of random
    /// factors in `[0, SCALE]` yields the committed velocity.
    pub open spec fn leaders_ok(pre: Pso<F>, post: Pso<F>, ls: Seq<int>) -> bool {
        &&& ls.len() == pre.n()
        &&& forall|i: int|
            0 <= i < pre.n() ==> pre.local_best_ok(i, #[trigger] ls[i]) && 0 <= ls[i] < pre.n()
        &&& forall|i: int, j: int|
            #![trigger post.particles@[i].velocity@[j]]
            0 <= i < pre.n() && 0 <= j < pre.dim() ==> velocity_possible(
                pre.w as int,
                pre.c1 as int,
                pre.c2 as int,
                pre.particles@[i].velocity@[j] as int,
                pre.particles@[i].personal_best@[j] as int,
                pre.particles@[i].position@[j] as int,
                pre.particles@[ls[i]].position@[j] as int,
                post.particles@[i].velocity@[j] as int,
            )
    }

    /// Assembles [`Pso::step_rel`] from its clauses.
    proof fn lemma_step_rel_intro(pre: Pso<F>, post: Pso<F>)
        requires
            post.n() == pre.n(),
            post.dim() == pre.dim(),
            post.w == pre.w && post.c1 == pre.c1 && post.c2 == pre.c2,
            post.eval_func == pre.eval_func,
            post.neighborhood_graph == pre.neighborhood_graph,
            post.neighborhood_depth == pre.neighborhood_depth,
            exists|ls: Seq<int>| #[trigger] Self::leaders_ok(pre, post, ls),
            forall|i: int, j: int|
                #![trigger post.particles@[i].position@[j]]
                0 <= i < pre.n() && 0 <= j < pre.dim() ==> post.particles@[i].position@[j] as int
                    == spec_sat_add(
                    pre.particles@[i].position@[j] as int,
                    post.particles@[i].velocity@[j] as int,
                ),
            forall|i: int|
                #![trigger post.position_scores@[i]]
                0 <= i < pre.n() ==> call_ensures(
                    pre.eval_func,
                    (&post.particles@[i].position,),
                    post.position_scores@[i],
                ),
            forall|i: int|
                #![trigger post.personal_best_scores@[i]]
                0 <= i < pre.n() && post.position_scores@[i] < pre.personal_best_scores@[i]
                    ==> post.personal_best_scores@[i] == post.position_scores@[i]
                    && post.particles@[i].personal_best@ == post.particles@[i].position@,
            forall|i: int|
                #![trigger post.personal_best_scores@[i]]
                0 <= i < pre.n() && pre.personal_best_scores@[i] <= post.position_scores@[i]
                    ==> post.personal_best_scores@[i] == pre.personal_best_scores@[i]
                    && post.particles@[i].personal_best@ == pre.particles@[i].personal_best@,
            post.global_best_score <= pre.global_best_score,
            forall|i: int|
                0 <= i < pre.n() ==> post.global_best_score
                    <= #[trigger] post.personal_best_scores@[i],
            ((post.global_best_score == pre.global_best_score && post.global_best@
                == pre.global_best@) || (exists|i: int|
                0 <= i < pre.n() && post.global_best_score
                    == #[trigger] post.personal_best_scores@[i] && post.global_best@
                    == post.particles@[i].personal_best@)),
        ensures
            Self::step_rel(pre, post),
    {
    }

    pub open spec fn step_rel(pre: Pso<F>, post: Pso<F>) -> bool {
        let n = pre.n();
        let d = pre.dim();
        &&& post.n() == n
        &&& post.dim() == d
        &&& post.w == pre.w && post.c1 == pre.c1 && post.c2 == pre.c2
        &&& post.eval_func == pre.eval_func
        &&& post.neighborhood_graph == pre.neighborhood_graph
        &&& post.neighborhood_depth == pre.neighborhood_depth
        &&& exists|ls: Seq<int>| #[trigger] Self::leaders_ok(pre, post, ls)
        &&& forall|i: int, j: int|
            #![trigger post.particles@[i].position@[j]]
            0 <= i < n && 0 <= j < d ==> post.particles@[i].position@[j] as int == spec_sat_add(
                pre.particles@[i].position@[j] as int,
                post.particles@[i].velocity@[j] as int,
            )
        &&& forall|i: int|
            #![trigger post.position_scores@[i]]
            0 <= i < n ==> call_ensures(
                pre.eval_func,
                (&post.particles@[i].position,),
                post.position_scores@[i],
            )
        &&& forall|i: int|
            #![trigger post.personal_best_scores@[i]]
            0 <= i < n && post.position_scores@[i] < pre.personal_best_scores@[i]
                ==> post.personal_best_scores@[i] == post.position_scores@[i]
                && post.particles@[i].personal_best@ == post.particles@[i].position@
        &&& forall|i: int|
            #![trigger post.personal_best_scores@[i]]
            0 <= i < n && pre.personal_best_scores@[i] <= post.position_scores@[i]
                ==> post.personal_best_scores@[i] == pre.personal_best_scores@[i]
                && post.particles@[i].personal_best@ == pre.particles@[i].personal_best@
        &&& post.global_best_score <= pre.global_best_score
        &&& forall|i: int|
            0 <= i < n ==> post.global_best_score <= #[trigger] post.personal_best_scores@[i]
        &&& ((post.global_best_score == pre.global_best_score && post.global_best@
            == pre.global_best@) || (exists|i: int|
            0 <= i < n && post.global_best_score == #[trigger] post.personal_best_scores@[i]
                && post.global_best@ == post.particles@[i].personal_best@))
    }

    /// Applies one iteration of the update rule to every particle. All new
    /// velocities and positions are computed from one consistent snapshot
    /// of the pre-update state, then committed: the personal best moves to
    /// the new position when that evaluates strictly better, and the global
    /// best to the best personal best when that beats it.
    /// Commits one planned iteration: per particle, adopt the planned
    /// velocity and position, evaluate the new position, improve the
    /// personal best when the new score is strictly better, and improve the
    /// global best when the particle's personal best beats it.
    #[verifier::rlimit(100)]
    fn commit_step(&mut self, new_vels: &Vec<Vec<i64>>, new_poss: &Vec<Vec<i64>>)
        requires
            old(self).wf(),
            new_vels@.len() == old(self).n(),
            new_poss@.len() == old(self).n(),
            forall|k: int|
                0 <= k < old(self).n() ==> (#[trigger] new_vels@[k])@.len() == old(self).dim(),
            forall|k: int|
                0 <= k < old(self).n() ==> (#[trigger] new_poss@[k])@.len() == old(self).dim(),
        ensures
            final(self).wf(),
            final(self).n() == old(self).n(),
            final(self).dim() == old(self).dim(),
            final(self).w == old(self).w && final(self).c1 == old(self).c1 && final(self).c2
                == old(self).c2,
            final(self).eval_func == old(self).eval_func,
            final(self).neighborhood_graph == old(self).neighborhood_graph,
            final(self).neighborhood_depth == old(self).neighborhood_depth,
            forall|i: int|
                0 <= i < old(self).n() ==> (#[trigger] final(self).particles@[i]).velocity@
                    == new_vels@[i]@,
            forall|i: int|
                0 <= i < old(self).n() ==> (#[trigger] final(self).particles@[i]).position@
                    == new_poss@[i]@,
            forall|i: int|
                #![trigger final(self).position_scores@[i]]
                0 <= i < old(self).n() ==> call_ensures(
                    old(self).eval_func,
                    (&final(self).particles@[i].position,),
                    final(self).position_scores@[i],
                ),
            forall|i: int|
                #![trigger final(self).personal_best_scores@[i]]
                0 <= i < old(self).n() && final(self).position_scores@[i] < old(self).personal_best_scores@[i] ==> final(self).personal_best_scores@[i] == final(self).position_scores@[i] && final(self).particles@[i].personal_best@ == final(self).particles@[i].position@,
            forall|i: int|
                #![trigger final(self).personal_best_scores@[i]]
                0 <= i < old(self).n() && old(self).personal_best_scores@[i] <= final(self).position_scores@[i] ==> final(self).personal_best_scores@[i] == old(self).personal_best_scores@[i] && final(self).particles@[i].personal_best@ == old(self).particles@[i].personal_best@,
            final(self).global_best_score <= old(self).global_best_score,
            forall|i: int|
                0 <= i < old(self).n() ==> final(self).global_best_score <= #[trigger] final(self).personal_best_scores@[i],
            ((final(self).global_best_score == old(self).global_best_score && final(self).global_best@ == old(self).global_best@) || (exists|i: int|
                0 <= i < old(self).n() && final(self).global_best_score == #[trigger] final(self).personal_best_scores@[i] && final(self).global_best@ == final(self).particles@[i].personal_best@)),
    {
        let ghost pre = *old(self);
        let n = self.particles.len();
        let dim = self.global_best.len();
        for i in 0..n
            invariant
                pre.wf(),
                n == pre.n(),
                dim == pre.dim(),
                new_vels@.len() == n,
                new_poss@.len() == n,
                forall|k: int| 0 <= k < n ==> (#[trigger] new_vels@[k])@.len() == dim,
                forall|k: int| 0 <= k < n ==> (#[trigger] new_poss@[k])@.len() == dim,
                self.particles@.len() == n,
                self.global_best@.len() == dim,
                self.personal_best_scores@.len() == n,
                self.position_scores@.len() == n,
                self.w == pre.w && self.c1 == pre.c1 && self.c2 == pre.c2,
                self.eval_func == pre.eval_func,
                self.neighborhood_graph == pre.neighborhood_graph,
                self.neighborhood_depth == pre.neighborhood_depth,
                forall|k: int| i <= k < n ==> #[trigger] self.particles@[k] == pre.particles@[k],
                forall|k: int|
                    i <= k < n ==> #[trigger] self.personal_best_scores@[k]
                        == pre.personal_best_scores@[k],
                forall|k: int|
                    i <= k < n ==> #[trigger] self.position_scores@[k] == pre.position_scores@[k],
                forall|k: int|
                    0 <= k < i ==> (#[trigger] self.particles@[k]).velocity@ == new_vels@[k]@,
                forall|k: int|
                    0 <= k < i ==> (#[trigger] self.particles@[k]).position@ == new_poss@[k]@,
                forall|k: int| 0 <= k < i ==> (#[trigger] self.particles@[k]).wf(dim as int),
                forall|k: int|
                    #![trigger self.position_scores@[k]]
                    0 <= k < i ==> call_ensures(
                        pre.eval_func,
                        (&self.particles@[k].position,),
                        self.position_scores@[k],
                    ),
                forall|k: int|
                    #![trigger self.position_scores@[k]]
                    0 <= k < i && self.position_scores@[k] < pre.personal_best_scores@[k]
                        ==> self.personal_best_scores@[k] == self.position_scores@[k]
                        && self.particles@[k].personal_best@ == self.particles@[k].position@,
                forall|k: int|
                    #![trigger self.position_scores@[k]]
                    0 <= k < i && pre.personal_best_scores@[k] <= self.position_scores@[k]
                        ==> self.personal_best_scores@[k] == pre.personal_best_scores@[k]
                        && self.particles@[k].personal_best@ == pre.particles@[k].personal_best@,
                forall|k: int|
                    0 <= k < i ==> #[trigger] self.personal_best_scores@[k]
                        <= self.position_scores@[k],
                self.global_best_score <= pre.global_best_score,
                forall|k: int|
                    0 <= k < n ==> self.global_best_score
                        <= #[trigger] self.personal_best_scores@[k],
                ((self.global_best_score == pre.global_best_score && self.global_best@
                    == pre.global_best@) || (exists|k: int|
                    0 <= k < i && self.global_best_score
                        == #[trigger] self.personal_best_scores@[k] && self.global_best@
                        == self.particles@[k].personal_best@)),
        {
            let ghost entry = *self;
            let np = copy_coords(&new_poss[i]);
            let nv = copy_coords(&new_vels[i]);
            let s = (self.eval_func)(&np);
            let old_pb_score = self.personal_best_scores[i];
            let ghost old_pb = self.particles@[i as int].personal_best@;
            let npb = if s < old_pb_score {
                copy_coords(&np)
            } else {
                copy_coords(&self.particles[i].personal_best)
            };
            let newp = Particle { position: np, velocity: nv, personal_best: npb };
            self.particles.set(i, newp);
            self.position_scores.set(i, s);
            if s < old_pb_score {
                self.personal_best_scores.set(i, s);
            }
            proof {
                assert(old_pb_score == pre.personal_best_scores@[i as int]);
                assert(old_pb == pre.particles@[i as int].personal_best@);
                assert(self.particles@[i as int].position@ == new_poss@[i as int]@);
                assert(self.particles@[i as int].velocity@ == new_vels@[i as int]@);
                assert(self.position_scores@[i as int] == s);
                if s < old_pb_score {
                    assert(self.personal_best_scores@[i as int] == s);
                    let committed = self.particles@[i as int];
                    assert(committed.personal_best@ == committed.position@);
                } else {
                    assert(self.personal_best_scores@[i as int] == old_pb_score);
                    assert(self.particles@[i as int].personal_best@ == old_pb);
                }
                assert(forall|k: int|
                    0 <= k < i ==> #[trigger] self.particles@[k] == entry.particles@[k]);
                assert(forall|k: int|
                    i < k < n ==> #[trigger] self.particles@[k] == entry.particles@[k]);
                assert forall|k: int| 0 <= k < i + 1 implies (self.position_scores@[k]
                    < pre.personal_best_scores@[k] ==> #[trigger] self.personal_best_scores@[k]
                    == self.position_scores@[k] && self.particles@[k].personal_best@
                    == self.particles@[k].position@) && (pre.personal_best_scores@[k]
                    <= self.position_scores@[k] ==> self.personal_best_scores@[k]
                    == pre.personal_best_scores@[k] && self.particles@[k].personal_best@
                    == pre.particles@[k].personal_best@) by {
                    if k < i {
                        assert(self.personal_best_scores@[k] == entry.personal_best_scores@[k]);
                        assert(self.position_scores@[k] == entry.position_scores@[k]);
                        assert(self.particles@[k] == entry.particles@[k]);
                    }
                }
            }
            if self.personal_best_scores[i] < self.global_best_score {
                let ngb = copy_coords(&self.particles[i].personal_best);
                self.global_best = ngb;
                self.global_best_score = self.personal_best_scores[i];
                proof {
                    assert(self.global_best_score == self.personal_best_scores@[i as int]);
                    assert(self.global_best@ == self.particles@[i as int].personal_best@);
                    assert(exists|k: int|
                        0 <= k < i + 1 && self.global_best_score
                            == #[trigger] self.personal_best_scores@[k] && self.global_best@
                            == self.particles@[k].personal_best@);
                }
            } else {
                proof {
                    assert(self.global_best_score == entry.global_best_score);
                    assert(self.global_best@ == entry.global_best@);
                    if !(self.global_best_score == pre.global_best_score && self.global_best@
                        == pre.global_best@) {
                        let k = choose|k: int|
                            0 <= k < i && entry.global_best_score
                                == #[trigger] entry.personal_best_scores@[k]
                                && entry.global_best@ == entry.particles@[k].personal_best@;
                        assert(self.personal_best_scores@[k] == entry.personal_best_scores@[k]);
                        assert(self.particles@[k] == entry.particles@[k]);
                        assert(0 <= k < i + 1 && self.global_best_score
                            == self.personal_best_scores@[k] && self.global_best@
                            == self.particles@[k].personal_best@);
                        assert(exists|k2: int|
                            0 <= k2 < i + 1 && self.global_best_score
                                == #[trigger] self.personal_best_scores@[k2] && self.global_best@
                                == self.particles@[k2].personal_best@);
                    }
                }
            }
            proof {
                assert forall|k: int|
                    #![trigger self.position_scores@[k]]
                    0 <= k < i + 1 && self.position_scores@[k] < pre.personal_best_scores@[k]
                    implies self.personal_best_scores@[k] == self.position_scores@[k]
                    && self.particles@[k].personal_best@ == self.particles@[k].position@ by {
                    if k < i {
                        assert(self.personal_best_scores@[k] == entry.personal_best_scores@[k]);
                        assert(self.position_scores@[k] == entry.position_scores@[k]);
                        assert(self.particles@[k] == entry.particles@[k]);
                    }
                }
                assert forall|k: int|
                    #![trigger self.position_scores@[k]]
                    0 <= k < i + 1 && pre.personal_best_scores@[k] <= self.position_scores@[k]
                    implies self.personal_best_scores@[k] == pre.personal_best_scores@[k]
                    && self.particles@[k].personal_best@ == pre.particles@[k].personal_best@ by {
                    if k < i {
                        assert(self.personal_best_scores@[k] == entry.personal_best_scores@[k]);
                        assert(self.position_scores@[k] == entry.position_scores@[k]);
                        assert(self.particles@[k] == entry.particles@[k]);
                    }
                }
            }
        }
    }

    #[verifier::rlimit(100)]
    pub fn update(&mut self, rng: &mut rand::rngs::StdRng)
        requires
            old(self).wf(),
        ensures
            final(self).wf(),
            Self::step_rel(*old(self), *final(self)),
    {
        let ghost pre = *self;
        let n = self.particles.len();
        let dim = self.global_best.len();
        let mut new_vels: Vec<Vec<i64>> = Vec::new();
        let mut new_poss: Vec<Vec<i64>> = Vec::new();
        let mut leaders: Vec<usize> = Vec::new();
        for i in 0..n
            invariant
                *self == pre,
                pre.wf(),
                n == pre.n(),
                dim == pre.dim(),
                new_vels@.len() == i,
                new_poss@.len() == i,
                leaders@.len() == i,
                forall|k: int| 0 <= k < i ==> (#[trigger] new_vels@[k])@.len() == dim,
                forall|k: int| 0 <= k < i ==> (#[trigger] new_poss@[k])@.len() == dim,
                forall|k: int|
                    #![trigger leaders@[k]]
                    0 <= k < i ==> (leaders@[k] as int) < n && pre.local_best_ok(
                        k,
                        leaders@[k] as int,
                    ),
                forall|k: int, j: int|
                    #![trigger new_vels@[k]@[j]]
                    0 <= k < i && 0 <= j < dim ==> velocity_possible(
                        pre.w as int,
                        pre.c1 as int,
                        pre.c2 as int,
                        pre.particles@[k].velocity@[j] as int,
                        pre.particles@[k].personal_best@[j] as int,
                        pre.particles@[k].position@[j] as int,
                        pre.particles@[leaders@[k] as int].position@[j] as int,
                        new_vels@[k]@[j] as int,
                    ),
                forall|k: int, j: int|
                    #![trigger new_poss@[k]@[j]]
                    0 <= k < i && 0 <= j < dim ==> new_poss@[k]@[j] as int == spec_sat_add(
                        pre.particles@[k].position@[j] as int,
                        new_vels@[k]@[j] as int,
                    ),
        {
            let li = self.local_best_idx(i);
            let mut nv: Vec<i64> = Vec::new();
            let mut np: Vec<i64> = Vec::new();
            for j in 0..dim
                invariant
                    *self == pre,
                    pre.wf(),
                    n == pre.n(),
                    dim == pre.dim(),
                    (i as int) < n,
                    (li as int) < n,
                    pre.local_best_ok(i as int, li as int),
                    nv@.len() == j,
                    np@.len() == j,
                    forall|t: int|
                        #![trigger nv@[t]]
                        0 <= t < j ==> velocity_possible(
                            pre.w as int,
                            pre.c1 as int,
                            pre.c2 as int,
                            pre.particles@[i as int].velocity@[t] as int,
                            pre.particles@[i as int].personal_best@[t] as int,
                            pre.particles@[i as int].position@[t] as int,
                            pre.particles@[li as int].position@[t] as int,
                            nv@[t] as int,
                        ),
                    forall|t: int|
                        #![trigger np@[t]]
                        0 <= t < j ==> np@[t] as int == spec_sat_add(
                            pre.particles@[i as int].position@[t] as int,
                            nv@[t] as int,
                        ),
            {
                let r1 = gen_range_i64(rng, 0, SCALE);
                let r2 = gen_range_i64(rng, 0, SCALE);
                let vel = velocity_step(
                    self.w,
                    self.particles[i].velocity[j],
                    self.c1,
                    r1,
                    self.particles[i].personal_best[j],
                    self.particles[i].position[j],
                    self.c2,
                    r2,
                    self.particles[li].position[j],
                );
                let posj = sat_add(self.particles[i].position[j], vel);
                nv.push(vel);
                np.push(posj);
                proof {
                    assert(nv@[j as int] == vel);
                    assert(velocity_possible(
                        pre.w as int,
                        pre.c1 as int,
                        pre.c2 as int,
                        pre.particles@[i as int].velocity@[j as int] as int,
                        pre.particles@[i as int].personal_best@[j as int] as int,
                        pre.particles@[i as int].position@[j as int] as int,
                        pre.particles@[li as int].position@[j as int] as int,
                        nv@[j as int] as int,
                    ));
                }
            }
            let ghost nvv = nv@;
            let ghost npv = np@;
            new_vels.push(nv);
            new_poss.push(np);
            leaders.push(li);
            proof {
                assert(new_vels@[i as int]@ == nvv);
                assert(new_poss@[i as int]@ == npv);
                assert(leaders@[i as int] == li);
            }
        }
        self.commit_step(&new_vels, &new_poss);
        proof {
            let ls = Seq::new(n as nat, |i: int| leaders@[i] as int);
            assert forall|i: int|
                0 <= i < pre.n() implies pre.local_best_ok(i, #[trigger] ls[i]) && 0 <= ls[i]
                < pre.n() by {
                assert(ls[i] == leaders@[i] as int);
            }
            assert forall|i: int, j: int| #![trigger self.particles@[i].velocity@[j]]
                0 <= i < pre.n() && 0 <= j < pre.dim() implies velocity_possible(
                pre.w as int,
                pre.c1 as int,
                pre.c2 as int,
                pre.particles@[i].velocity@[j] as int,
                pre.particles@[i].personal_best@[j] as int,
                pre.particles@[i].position@[j] as int,
                pre.particles@[ls[i]].position@[j] as int,
                self.particles@[i].velocity@[j] as int,
            ) by {
                assert(ls[i] == leaders@[i] as int);
                assert(self.particles@[i].velocity@ == new_vels@[i]@);
                assert(self.particles@[i].velocity@[j] == new_vels@[i]@[j]);
            }
            assert(Self::leaders_ok(pre, *self, ls));
            assert forall|i: int, j: int| #![trigger self.particles@[i].position@[j]]
                0 <= i < n && 0 <= j < pre.dim() implies self.particles@[i].position@[j] as int
                == spec_sat_add(
                pre.particles@[i].position@[j] as int,
                self.particles@[i].velocity@[j] as int,
            ) by {
                assert(self.particles@[i].position@ == new_poss@[i]@);
                assert(self.particles@[i].velocity@ == new_vels@[i]@);
                assert(self.particles@[i].position@[j] == new_poss@[i]@[j]);
                assert(self.particles@[i].velocity@[j] == new_vels@[i]@[j]);
            }
            assert(self.n() == pre.n() && self.dim() == pre.dim());
            assert(self.w == pre.w && self.c1 == pre.c1 && self.c2 == pre.c2);
            assert(self.eval_func == pre.eval_func);
            assert(self.neighborhood_graph == pre.neighborhood_graph);
            assert(self.neighborhood_depth == pre.neighborhood_depth);
            assert(exists|ls2: Seq<int>| #[trigger] Self::leaders_ok(pre, *self, ls2));
            assert(forall|i: int|
                #![trigger self.position_scores@[i]]
                0 <= i < pre.n() ==> call_ensures(
                    pre.eval_func,
                    (&self.particles@[i].position,),
                    self.position_scores@[i],
                ));
            assert(forall|i: int|
                #![trigger self.personal_best_scores@[i]]
                0 <= i < pre.n() && self.position_scores@[i] < pre.personal_best_scores@[i]
                    ==> self.personal_best_scores@[i] == self.position_scores@[i]
                    && self.particles@[i].personal_best@ == self.particles@[i].position@);
            assert(forall|i: int|
                #![trigger self.personal_best_scores@[i]]
                0 <= i < pre.n() && pre.personal_best_scores@[i] <= self.position_scores@[i]
                    ==> self.personal_best_scores@[i] == pre.personal_best_scores@[i]
                    && self.particles@[i].personal_best@ == pre.particles@[i].personal_best@);
            assert(self.global_best_score <= pre.global_best_score);
            assert(forall|i: int|
                0 <= i < pre.n() ==> self.global_best_score
                    <= #[trigger] self.personal_best_scores@[i]);
            assert(((self.global_best_score == pre.global_best_score && self.global_best@
                == pre.global_best@) || (exists|i: int|
                0 <= i < pre.n() && self.global_best_score
                    == #[trigger] self.personal_best_scores@[i] && self.global_best@
                    == self.particles@[i].personal_best@)));
            Self::lemma_step_rel_intro(pre, *self);
        }
    }

    /// Whether `tr` records `steps` update iterations leading from state
    /// `a` to state `b`: successive entries are related by [`Pso::step_rel`].
    pub open spec fn run_trace(tr: Seq<Pso<F>>, a: Pso<F>, b: Pso<F>, steps: int) -> bool {
        &&& tr.len() == steps + 1
        &&& tr[0] == a
        &&& tr[steps] == b
        &&& forall|k: int| 0 <= k < steps ==> Self::step_rel(#[trigger] tr[k], tr[k + 1])
    }

    /// Applies the update exactly `max_iter` times, reporting the global
    /// best and its score after each iteration when `print_status` asks for
    /// it. With `max_iter == 0` the optimizer is left unchanged. The global
    /// best score never regresses.
    #[verifier::rlimit(80)]
    pub fn run(&mut self, rng: &mut rand::rngs::StdRng, max_iter: usize, print_status: bool)
        requires
            old(self).wf(),
        ensures
            final(self).wf(),
            final(self).global_best_score <= old(self).global_best_score,
            max_iter == 0 ==> *final(self) == *old(self),
            exists|tr: Seq<Pso<F>>|
                Self::run_trace(tr, *old(self), *final(self), max_iter as int),
    {
        let ghost mut tr: Seq<Pso<F>> = seq![*self];
        for it in 0..max_iter
            invariant
                self.wf(),
                tr.len() == it + 1,
                tr[0] == *old(self),
                tr[it as int] == *self,
                forall|k: int| 0 <= k < it ==> Self::step_rel(#[trigger] tr[k], tr[k + 1]),
                self.global_best_score <= old(self).global_best_score,
        {
            self.update(rng);
            if print_status {
                report_status(it, &self.global_best, self.global_best_score);
            }
            proof {
                tr = tr.push(*self);
            }
        }
        proof {
            assert(Self::run_trace(tr, *old(self), *self, max_iter as int));
        }
    }
}

} // verus!
