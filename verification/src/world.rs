//! The population manager: owns the collection of heap-boxed particles,
//! applies the randomized spawn/despawn policy and advances every survivor
//! one tick at a time.
use vstd::prelude::*;

use vstd::math::min;

use crate::particle::Particle;
use crate::particle::mag;
use crate::rng;
use crate::ALPHA_INVISIBLE;
use crate::MAX_BOUND;
use crate::MAX_STEP;
use crate::MAX_TURN;
use crate::POS_LIMIT;
use crate::SPEED_CAP;

verus! {

/// Relies on Vec::shrink_to_fit: it drops excess capacity and leaves the
/// contents of the vector unchanged.
#[verifier::external_body]
fn shrink_vec(v: &mut Vec<Box<Particle>>)
    ensures
        final(v)@ == old(v)@,
{
    v.shrink_to_fit();
}

/// Data useful for the lifetime of the simulation: the tick counter, the
/// fixed bounds, the particle collection and the random generator. Every
/// particle is individually heap-allocated through its own `Box`, so each
/// spawn and each despawn is one distinct allocation or deallocation.
pub struct World {
    pub current_turn: u64,
    pub particles: Vec<Box<Particle>>,
    pub height: i64,
    pub width: i64,
    pub rng: rand::rngs::ThreadRng,
}

impl World {
    /// The fixed bounds are non-negative and within the supported range.
    pub open spec fn bounds_ok(self) -> bool {
        &&& 0 <= self.width <= MAX_BOUND
        &&& 0 <= self.height <= MAX_BOUND
    }

    /// Largest position magnitude any particle can have reached by the
    /// current turn: each tick moves a particle by at most `SPEED_CAP` per
    /// axis.
    pub open spec fn pos_bound(self) -> int {
        MAX_BOUND + self.current_turn * SPEED_CAP
    }

    /// The mathematical model of the collection: the particles themselves,
    /// in insertion order, with the boxes stripped.
    pub open spec fn parts(self) -> Seq<Particle> {
        self.particles@.map_values(|b: Box<Particle>| *b)
    }

    /// One particle as the world keeps it: well-formed and within the
    /// travel envelope of the current turn.
    pub open spec fn particle_ok(self, p: Particle) -> bool {
        &&& p.wf()
        &&& mag(p.pos_x as int) <= self.pos_bound()
        &&& mag(p.pos_y as int) <= self.pos_bound()
    }

    /// Well-formedness of the whole world.
    pub open spec fn wf(self) -> bool {
        &&& self.bounds_ok()
        &&& self.current_turn <= MAX_TURN
        &&& forall|i: int| 0 <= i < self.parts().len() ==> self.particle_ok(#[trigger] self.parts()[i])
    }

    /// The change a population draw `d` makes to the population size:
    /// growth by exactly `d` when positive, shrinkage by `|d|` clamped to
    /// the population when not.
    pub open spec fn policy_delta(len_before: int, len_after: int, d: int) -> bool {
        &&& (d > 0 ==> len_after == len_before + d)
        &&& (d <= 0 ==> len_after == len_before - min(-d, len_before))
    }

    /// The travel envelope always reaches at least the world bounds and
    /// stays inside the overflow guard, with room for one more step.
    proof fn lemma_pos_bound_range(self)
        requires
            self.current_turn <= MAX_TURN,
        ensures
            MAX_BOUND <= self.pos_bound() <= POS_LIMIT - SPEED_CAP,
    {
        let t = self.current_turn as int;
        let c = SPEED_CAP as int;
        assert(0 <= t * c <= 1_000_000_000_000int * 2_500_000int) by (nonlinear_arith)
            requires
                0 <= t <= 1_000_000_000_000int,
                c == 2_500_000int,
        ;
    }

    /// Well-formedness does not depend on the random generator: two worlds
    /// that agree on everything but the generator are equally well-formed.
    proof fn lemma_wf_same(a: World, b: World)
        requires
            a.wf(),
            b.current_turn == a.current_turn,
            b.width == a.width,
            b.height == a.height,
            b.particles@ == a.particles@,
        ensures
            b.wf(),
    {
        assert(forall|i: int|
            0 <= i < b.parts().len() ==> #[trigger] b.parts()[i] == a.parts()[i]);
    }

    /// Constructs an empty world with the given fixed bounds, tick counter
    /// zero and a fresh random generator.
    pub fn new(width: i64, height: i64) -> (w: World)
        requires
            0 <= width <= MAX_BOUND,
            0 <= height <= MAX_BOUND,
        ensures
            w.current_turn == 0,
            w.parts().len() == 0,
            w.height == height,
            w.width == width,
            w.wf(),
    {
        World {
            current_turn: 0,
            // Box<Particle> instead of Particle, to incur one extra heap
            // allocation whenever a particle is created
            particles: Vec::<Box<Particle>>::new(),
            height: height,
            width: width,
            rng: rng::rng_new(),
        }
    }

    /// Spawns `|n|` particles, each at the end of the collection and each
    /// behind its own fresh `Box`, so each insertion is one distinct heap
    /// allocation. The particles already present are untouched.
    pub fn add_shapes(&mut self, n: i32)
        requires
            old(self).wf(),
            n > i32::MIN,
        ensures
            final(self).wf(),
            final(self).current_turn == old(self).current_turn,
            final(self).width == old(self).width,
            final(self).height == old(self).height,
            final(self).parts().len() == old(self).parts().len() + mag(n as int),
            forall|i: int|
                0 <= i < old(self).parts().len()
                    ==> final(self).parts()[i] == old(self).parts()[i],
            forall|i: int|
                old(self).parts().len() <= i < final(self).parts().len()
                    ==> (#[trigger] final(self).parts()[i]).just_spawned(
                    old(self).width,
                    old(self).height,
                ),
    {
        let count: i64 = if n < 0 {
            -(n as i64)
        } else {
            n as i64
        };
        let mut k: i64 = 0;
        while k < count
            invariant
                0 <= k <= count,
                count == mag(n as int),
                self.wf(),
                self.current_turn == old(self).current_turn,
                self.width == old(self).width,
                self.height == old(self).height,
                self.parts().len() == old(self).parts().len() + k,
                forall|i: int|
                    0 <= i < old(self).parts().len() ==> self.parts()[i] == old(self).parts()[i],
                forall|i: int|
                    old(self).parts().len() <= i < self.parts().len() ==> (#[trigger] self.parts()[i]).just_spawned(
                        old(self).width,
                        old(self).height,
                    ),
            decreases count - k,
        {
            let ghost pre = self.parts();
            // create a particle as a local variable on the stack
            let particle = Particle::new(&*self);
            // take ownership of the particle and move its data to the heap
            let boxed_particle = Box::new(particle);
            self.particles.push(boxed_particle);
            proof {
                // connect the view after the push to the one before it
                assert(self.parts().len() == pre.len() + 1);
                assert(forall|i: int| 0 <= i < pre.len() ==> #[trigger] self.parts()[i] == pre[i]);
                assert(self.parts()[pre.len() as int] == particle);
                let t = self.current_turn as int;
                let c = SPEED_CAP as int;
                assert(t * c >= 0) by (nonlinear_arith)
                    requires
                        t >= 0,
                        c >= 0,
                ;
                assert(self.pos_bound() >= MAX_BOUND);
                assert(self.particle_ok(particle));
            }
            k = k + 1;
        }
    }

    /// Despawns `|n|` particles, clamped to the number present: removing
    /// from an empty collection is a no-op, so the population is floored at
    /// zero. Each removal looks only at the front of the collection (a
    /// single-element look-ahead, not a full scan): if the front particle
    /// is invisible it is removed for that reason, and otherwise the front
    /// particle - the oldest by insertion order - is removed as the
    /// fallback. Either way the front element goes, and each removal drops
    /// one `Box`, one distinct heap deallocation.
    pub fn remove_shapes(&mut self, n: i32)
        requires
            old(self).wf(),
            n > i32::MIN,
        ensures
            final(self).wf(),
            final(self).current_turn == old(self).current_turn,
            final(self).width == old(self).width,
            final(self).height == old(self).height,
            final(self).parts() == old(self).parts().skip(
                min(mag(n as int), old(self).parts().len() as int),
            ),
    {
        let ghost orig = old(self).parts();
        let count: i64 = if n < 0 {
            -(n as i64)
        } else {
            n as i64
        };
        let mut k: i64 = 0;
        while k < count && self.particles.len() > 0
            invariant
                0 <= k <= count,
                count == mag(n as int),
                self.wf(),
                self.current_turn == old(self).current_turn,
                self.width == old(self).width,
                self.height == old(self).height,
                self.parts() == orig.skip(min(k as int, orig.len() as int)),
            decreases count - k,
        {
            let ghost pre = self.parts();
            let mut to_delete: Option<usize> = None;
            // look for an invisible particle to remove; the look-ahead
            // examines only the very first element before giving up
            let front: &Box<Particle> = &self.particles[0];
            if (**front).alpha < ALPHA_INVISIBLE {
                to_delete = Some(0);
            }
            match to_delete {
                Some(i) => {
                    self.particles.remove(i);
                },
                None => {
                    // no invisible particle found there: remove the oldest
                    self.particles.remove(0);
                },
            }
            proof {
                // connect the view after the removal to the one before it
                let m = min(k as int, orig.len() as int);
                assert(self.parts().len() == pre.len() - 1);
                assert(forall|i: int|
                    0 <= i < self.parts().len() ==> #[trigger] self.parts()[i] == pre[i + 1]);
                assert(self.parts() =~= orig.skip(m + 1));
            }
            k = k + 1;
        }
        proof {
            let m = min(mag(n as int), orig.len() as int);
            assert(self.parts() =~= orig.skip(m));
        }
    }

    /// One tick with the population draw `n` given: if `n` is positive it
    /// spawns `n` particles, otherwise it despawns `|n|` (clamped to the
    /// population); then the backing storage is compacted to its exact
    /// size, every surviving particle is advanced one step, and the tick
    /// counter is incremented. The population delta is exactly `n` when
    /// spawning and `-min(|n|, population)` when despawning.
    pub fn update_with(&mut self, n: i32)
        requires
            old(self).wf(),
            old(self).current_turn < MAX_TURN,
            n > i32::MIN,
        ensures
            final(self).wf(),
            final(self).current_turn == old(self).current_turn + 1,
            final(self).width == old(self).width,
            final(self).height == old(self).height,
            n > 0 ==> final(self).parts().len() == old(self).parts().len() + n,
            n <= 0 ==> final(self).parts().len() == old(self).parts().len() - min(
                mag(n as int),
                old(self).parts().len() as int,
            ),
            n > 0 ==> forall|i: int|
                0 <= i < old(self).parts().len()
                    ==> final(self).parts()[i] == (#[trigger] old(self).parts()[i]).stepped(),
            n > 0 ==> forall|i: int|
                old(self).parts().len() <= i < final(self).parts().len()
                    ==> (#[trigger] final(self).parts()[i]).spawn_stepped(
                    old(self).width,
                    old(self).height,
                ),
            n <= 0 ==> forall|i: int|
                0 <= i < final(self).parts().len()
                    ==> #[trigger] final(self).parts()[i] == old(self).parts()[i + min(
                    mag(n as int),
                    old(self).parts().len() as int,
                )].stepped(),
    {
        if n > 0 {
            self.add_shapes(n);
        } else {
            self.remove_shapes(n);
        }
        // compact the backing storage to the exact population size
        shrink_vec(&mut self.particles);

        let ghost mid = self.parts();
        let mut j: usize = 0;
        while j < self.particles.len()
            invariant
                0 <= j <= mid.len(),
                self.particles@.len() == mid.len(),
                self.bounds_ok(),
                self.current_turn == old(self).current_turn,
                self.current_turn < MAX_TURN,
                self.width == old(self).width,
                self.height == old(self).height,
                forall|i: int| 0 <= i < mid.len() ==> self.particle_ok(#[trigger] mid[i]),
                forall|i: int|
                    j <= i < mid.len() ==> #[trigger] self.parts()[i] == mid[i],
                forall|i: int|
                    #![trigger self.parts()[i]]
                    0 <= i < j ==> self.parts()[i] == mid[i].stepped(),
                forall|i: int|
                    #![trigger self.parts()[i]]
                    0 <= i < j ==> self.parts()[i].wf(),
                forall|i: int|
                    #![trigger self.parts()[i]]
                    0 <= i < j ==> mag(self.parts()[i].pos_x as int) <= mag(mid[i].pos_x as int)
                        + SPEED_CAP && mag(self.parts()[i].pos_y as int) <= mag(
                        mid[i].pos_y as int,
                    ) + SPEED_CAP,
            decreases mid.len() - j,
        {
            let ghost pre = self.parts();
            proof {
                self.lemma_pos_bound_range();
                assert(self.parts()[j as int] == mid[j as int]);
                assert(self.particle_ok(mid[j as int]));
            }
            let boxed: &mut Box<Particle> = &mut self.particles[j];
            (&mut **boxed).update();
            proof {
                // only the particle behind index j changed
                assert(forall|i: int|
                    0 <= i < mid.len() && i != j ==> #[trigger] self.parts()[i] == pre[i]);
                assert(self.parts()[j as int] == pre[j as int].stepped());
            }
            j = j + 1;
        }
        proof {
            // surface the loop's conclusion once before the tick counter
            // changes, so it carries over to the final state
            assert(mid.len() > 0 ==> self.parts()[0] == mid[0].stepped());
        }
        self.current_turn = self.current_turn + 1;
        proof {
            let t = old(self).current_turn as int;
            let c = SPEED_CAP as int;
            assert((t + 1) * c == t * c + c) by (nonlinear_arith);
            assert forall|i: int|
                0 <= i < self.parts().len() implies self.particle_ok(
                #[trigger] self.parts()[i],
            ) by {
                assert(self.parts()[i] == mid[i].stepped());
            }
            if n > 0 {
                assert forall|i: int|
                    0 <= i < old(self).parts().len() implies self.parts()[i]
                    == (#[trigger] old(self).parts()[i]).stepped() by {
                    assert(mid[i] == old(self).parts()[i]);
                    assert(self.parts()[i] == mid[i].stepped());
                }
                assert forall|i: int|
                    old(self).parts().len() <= i < self.parts().len() implies (#[trigger] self.parts()[i]).spawn_stepped(old(self).width, old(self).height) by {
                    assert(mid[i].just_spawned(old(self).width, old(self).height));
                    assert(self.parts()[i] == mid[i].stepped());
                }
            } else {
                let m = min(mag(n as int), old(self).parts().len() as int);
                assert forall|i: int|
                    0 <= i < self.parts().len() implies #[trigger] self.parts()[i]
                    == old(self).parts()[i + m].stepped() by {
                    assert(mid[i] == old(self).parts().skip(m)[i]);
                    assert(self.parts()[i] == mid[i].stepped());
                }
            }
        }
    }

    /// One full tick: draws a random integer in `[-MAX_STEP, MAX_STEP]`
    /// and hands it to `update_with`. Whatever the draw, the population
    /// changes by at most `MAX_STEP` in either direction, with the sign of
    /// the draw; every surviving particle is advanced exactly one step, in
    /// collection order; and any appended particle is one step removed
    /// from freshly spawned.
    pub fn update(&mut self)
        requires
            old(self).wf(),
            old(self).current_turn < MAX_TURN,
        ensures
            final(self).wf(),
            final(self).current_turn == old(self).current_turn + 1,
            final(self).width == old(self).width,
            final(self).height == old(self).height,
            old(self).parts().len() - MAX_STEP <= final(self).parts().len(),
            final(self).parts().len() <= old(self).parts().len() + MAX_STEP,
            exists|d: int|
                -MAX_STEP <= d <= MAX_STEP && #[trigger] World::policy_delta(
                    old(self).parts().len() as int,
                    final(self).parts().len() as int,
                    d,
                ) && (d > 0 ==> (forall|i: int|
                    0 <= i < old(self).parts().len()
                        ==> final(self).parts()[i] == (#[trigger] old(self).parts()[i]).stepped())
                    && (forall|i: int|
                    old(self).parts().len() <= i < final(self).parts().len()
                        ==> (#[trigger] final(self).parts()[i]).spawn_stepped(
                        old(self).width,
                        old(self).height,
                    ))) && (d <= 0 ==> (forall|i: int|
                    0 <= i < final(self).parts().len()
                        ==> #[trigger] final(self).parts()[i] == old(self).parts()[i + min(
                        mag(d),
                        old(self).parts().len() as int,
                    )].stepped())),
    {
        // random integer between -3 and 3, inclusive
        let d = rng::gen_in(&mut self.rng, -MAX_STEP, MAX_STEP);
        let n: i32 = d as i32;
        proof {
            World::lemma_wf_same(*old(self), *self);
        }
        self.update_with(n);
        proof {
            let w = n as int;
            let len0 = old(self).parts().len() as int;
            assert(w <= 0 ==> min(-w, len0) == min(mag(w), len0));
            assert(World::policy_delta(len0, self.parts().len() as int, w));
            if n > 0 {
                assert(forall|i: int|
                    0 <= i < len0 ==> self.parts()[i] == (#[trigger] old(self).parts()[i]).stepped());
                assert(forall|i: int|
                    len0 <= i < self.parts().len() ==> (#[trigger] self.parts()[i]).spawn_stepped(
                        old(self).width,
                        old(self).height,
                    ));
            } else {
                assert(forall|i: int|
                    0 <= i < self.parts().len() ==> #[trigger] self.parts()[i] == old(
                        self,
                    ).parts()[i + min(mag(w), len0)].stepped());
            }
        }
    }
}

} // verus!
