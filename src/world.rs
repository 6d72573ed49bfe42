//! The world of ducks and its per-frame update.
use crate::duck::{
    anim_tick_fits, animate_duck, can_step, duck_animated, duck_fell, duck_moved, duck_shot,
    fall_duck, fallen_y, in_i64, is_hit, move_duck, shoot_duck, spawn_duck, spawn_heading,
    spawn_speed, step_fits, Duck, DuckBehaviour, DEATH_Y, HALF_EXTENT, NANOS_PER_SEC, SINE_ONE,
    SPAWN_X_PIXELS, SPAWN_Y,
};
use crate::timer::RepeatingTimer;
use vstd::prelude::*;

verus! {

/// Time between two spawned ducks in a new game, in nanoseconds.
pub const SPAWN_INTERVAL_NS: u64 = 1_000_000_000;

/// Whether the game is still loading its assets or running.
#[derive(Clone, Copy, Debug, PartialEq, Eq, Structural)]
pub enum GameState {
    Loading,
    InGame,
}

impl Default for GameState {
    fn default() -> (r: GameState)
        ensures
            r == GameState::Loading,
    {
        GameState::Loading
    }
}

/// All ducks in play, the spawn timer, and the next free duck identifier.
pub struct World {
    pub ducks: Vec<Duck>,
    pub spawn_timer: RepeatingTimer,
    pub next_id: u64,
}

/// Whether some duck of `ducks` has identifier `id`.
pub open spec fn has_id(ducks: Seq<Duck>, id: u64) -> bool {
    exists|i: int| 0 <= i < ducks.len() && ducks[i].id == id
}

/// All ducks are well formed, with distinct identifiers below `next_id`.
pub open spec fn ducks_wf(ducks: Seq<Duck>, next_id: u64) -> bool {
    &&& forall|i: int| 0 <= i < ducks.len() ==> (#[trigger] ducks[i]).wf() && ducks[i].id < next_id
    &&& forall|i: int, j: int|
        0 <= i < ducks.len() && 0 <= j < ducks.len() && i != j ==> (#[trigger] ducks[i]).id
            != (#[trigger] ducks[j]).id
}

/// Every duck of the frame (`b`, `nb`) was already in the frame (`a`, `na`)
/// or got an identifier that was new then; identifiers are never handed out twice.
pub open spec fn frame_follows(a: Seq<Duck>, na: u64, b: Seq<Duck>, nb: u64) -> bool {
    &&& na <= nb
    &&& forall|i: int|
        0 <= i < b.len() ==> has_id(a, #[trigger] b[i].id) || (na <= b[i].id && b[i].id < nb)
}

/// No duck of `b` that has the identifier of a dying duck of `a` is flying.
pub open spec fn dying_stays_dying(a: Seq<Duck>, b: Seq<Duck>) -> bool {
    forall|i: int, j: int|
        0 <= i < a.len() && 0 <= j < b.len() && (#[trigger] a[i]).id == (#[trigger] b[j]).id
            && a[i].behaviour == DuckBehaviour::Dying ==> b[j].behaviour == DuckBehaviour::Dying
}

/// Each duck of `b` stands at the same place as in `a`, changed by `step`.
pub open spec fn each_duck(a: Seq<Duck>, b: Seq<Duck>, step: spec_fn(Duck, Duck) -> bool) -> bool {
    &&& b.len() == a.len()
    &&& forall|i: int| 0 <= i < a.len() ==> step(#[trigger] a[i], b[i])
}

/// Dropping ducks keeps the rest well formed, and keeps only ducks that were there.
proof fn lemma_filter_keeps_wf(s: Seq<Duck>, next_id: u64, pred: spec_fn(Duck) -> bool)
    requires
        ducks_wf(s, next_id),
    ensures
        ducks_wf(s.filter(pred), next_id),
        forall|k: int|
            0 <= k < s.filter(pred).len() ==> s.contains(#[trigger] s.filter(pred)[k]),
    decreases s.len(),
{
    reveal(Seq::filter);
    if s.len() > 0 {
        let t = s.drop_last();
        assert(ducks_wf(t, next_id)) by {
            assert forall|i: int, j: int|
                0 <= i < t.len() && 0 <= j < t.len() && i != j implies (#[trigger] t[i]).id != (
                #[trigger] t[j]).id by {
                assert(t[i] == s[i] && t[j] == s[j]);
            }
            assert forall|i: int| 0 <= i < t.len() implies (#[trigger] t[i]).wf() && t[i].id
                < next_id by {
                assert(t[i] == s[i]);
            }
        }
        lemma_filter_keeps_wf(t, next_id, pred);
        let ft = t.filter(pred);
        let last = s.last();
        assert forall|k: int| 0 <= k < ft.len() implies exists|m: int|
            0 <= m < s.len() - 1 && s[m] == #[trigger] ft[k] by {
            assert(t.contains(ft[k]));
            let m = choose|m: int| 0 <= m < t.len() && t[m] == ft[k];
            assert(s[m] == t[m]);
        }
        if pred(last) {
            let f = ft.push(last);
            assert(f == s.filter(pred));
            assert forall|k: int| 0 <= k < f.len() implies s.contains(#[trigger] f[k]) by {
                if k < ft.len() {
                    assert(f[k] == ft[k]);
                } else {
                    assert(s[s.len() - 1] == f[k]);
                }
            }
            assert forall|i: int, j: int|
                0 <= i < f.len() && 0 <= j < f.len() && i != j implies (#[trigger] f[i]).id != (
                #[trigger] f[j]).id by {
                if i < ft.len() && j < ft.len() {
                    assert(f[i] == ft[i] && f[j] == ft[j]);
                } else if i < ft.len() {
                    assert(f[i] == ft[i]);
                    let m = choose|m: int| 0 <= m < s.len() - 1 && s[m] == ft[i];
                    assert(s[m].id != s[s.len() - 1].id);
                } else {
                    assert(f[j] == ft[j]);
                    let m = choose|m: int| 0 <= m < s.len() - 1 && s[m] == ft[j];
                    assert(s[m].id != s[s.len() - 1].id);
                }
            }
            assert forall|i: int| 0 <= i < f.len() implies (#[trigger] f[i]).wf() && f[i].id
                < next_id by {
                if i < ft.len() {
                    assert(f[i] == ft[i]);
                } else {
                    assert(f[i] == s[s.len() - 1]);
                }
            }
        } else {
            assert(ft == s.filter(pred));
            assert forall|k: int| 0 <= k < ft.len() implies s.contains(#[trigger] ft[k]) by {
                let m = choose|m: int| 0 <= m < s.len() - 1 && s[m] == ft[k];
            }
        }
    }
}

/// Changing ducks in place, while each keeps its identifier and stays well
/// formed, keeps the sequence well formed.
proof fn lemma_same_ids_keeps_wf(a: Seq<Duck>, b: Seq<Duck>, next_id: u64)
    requires
        ducks_wf(a, next_id),
        b.len() == a.len(),
        forall|i: int| 0 <= i < b.len() ==> (#[trigger] b[i]).id == a[i].id && b[i].wf(),
    ensures
        ducks_wf(b, next_id),
{
    assert forall|i: int, j: int|
        0 <= i < b.len() && 0 <= j < b.len() && i != j implies (#[trigger] b[i]).id != (
        #[trigger] b[j]).id by {
        assert(a[i].id != a[j].id);
    }
    assert forall|i: int| 0 <= i < b.len() implies (#[trigger] b[i]).wf() && b[i].id < next_id by {
        assert(a[i].wf());
    }
}

/// `d` is the duck that the spawner adds with identifier `id` at sine `s`.
pub open spec fn is_new_duck(d: Duck, id: u64, s: int) -> bool {
    &&& d.wf()
    &&& d.id == id
    &&& d.x == s * SPAWN_X_PIXELS
    &&& d.y == SPAWN_Y
    &&& d.behaviour == spawn_heading(s)
    &&& d.speed == spawn_speed(s)
    &&& d.animation_timer.elapsed() == 0
    &&& d.frame_index == 0
    &&& !d.flip_x
    &&& !d.dead
}

/// No duck is marked dead, and none is dying below the playfield.
pub open spec fn no_dead_left(ducks: Seq<Duck>) -> bool {
    forall|i: int|
        0 <= i < ducks.len() ==> !(#[trigger] ducks[i]).dead && !(ducks[i].behaviour
            == DuckBehaviour::Dying && ducks[i].y < DEATH_Y)
}

/// Consecutive frames, as produced by `World::update`: ducks and next free
/// identifier of each frame.
pub open spec fn frames_follow(frames: Seq<(Seq<Duck>, u64)>) -> bool {
    forall|f: int|
        0 <= f < frames.len() - 1 ==> {
            &&& frame_follows(
                (#[trigger] frames[f]).0,
                frames[f].1,
                frames[f + 1].0,
                frames[f + 1].1,
            )
            &&& dying_stays_dying(frames[f].0, frames[f + 1].0)
        }
}

/// Every frame is well formed.
pub open spec fn frames_wf(frames: Seq<(Seq<Duck>, u64)>) -> bool {
    forall|f: int| 0 <= f < frames.len() ==> ducks_wf((#[trigger] frames[f]).0, frames[f].1)
}

proof fn lemma_next_id_grows(frames: Seq<(Seq<Duck>, u64)>, k: int, m: int)
    requires
        frames_follow(frames),
        0 <= k <= m < frames.len(),
    ensures
        frames[k].1 <= frames[m].1,
    decreases m - k,
{
    if k < m {
        lemma_next_id_grows(frames, k, m - 1);
        assert(frame_follows(frames[m - 1].0, frames[m - 1].1, frames[m].0, frames[m].1));
    }
}

/// A duck that was in frame `k` and is gone from a later frame `g` appears
/// in no frame after that: removed ducks never come back.
pub proof fn lemma_removed_duck_never_returns(
    frames: Seq<(Seq<Duck>, u64)>,
    k: int,
    g: int,
    m: int,
    id: u64,
)
    requires
        frames_follow(frames),
        frames_wf(frames),
        0 <= k < g <= m < frames.len(),
        has_id(frames[k].0, id),
        !has_id(frames[g].0, id),
    ensures
        !has_id(frames[m].0, id),
    decreases m - g,
{
    if g < m {
        lemma_removed_duck_never_returns(frames, k, g, m - 1, id);
        lemma_next_id_grows(frames, k, m - 1);
        assert(ducks_wf(frames[k].0, frames[k].1));
        let i = choose|i: int| 0 <= i < frames[k].0.len() && frames[k].0[i].id == id;
        assert(frame_follows(frames[m - 1].0, frames[m - 1].1, frames[m].0, frames[m].1));
        if has_id(frames[m].0, id) {
            let j = choose|j: int| 0 <= j < frames[m].0.len() && frames[m].0[j].id == id;
            assert(has_id(frames[m - 1].0, frames[m].0[j].id) || frames[m - 1].1 <= id);
        }
    }
}

/// Once a duck is dying it is dying in every later frame that holds it.
pub proof fn lemma_dying_duck_never_flies_again(
    frames: Seq<(Seq<Duck>, u64)>,
    k: int,
    a: int,
    m: int,
    b: int,
)
    requires
        frames_follow(frames),
        frames_wf(frames),
        0 <= k <= m < frames.len(),
        0 <= a < frames[k].0.len(),
        0 <= b < frames[m].0.len(),
        frames[k].0[a].behaviour == DuckBehaviour::Dying,
        frames[m].0[b].id == frames[k].0[a].id,
    ensures
        frames[m].0[b].behaviour == DuckBehaviour::Dying,
    decreases m - k,
{
    let id = frames[k].0[a].id;
    assert(ducks_wf(frames[m].0, frames[m].1));
    if k == m {
        assert(a == b);
    } else {
        assert(has_id(frames[k].0, id));
        assert(has_id(frames[m].0, id));
        if k < m - 1 && !has_id(frames[m - 1].0, id) {
            lemma_removed_duck_never_returns(frames, k, m - 1, m, id);
        }
        assert(has_id(frames[m - 1].0, id));
        let c = choose|c: int| 0 <= c < frames[m - 1].0.len() && (#[trigger] frames[m - 1].0[c]).id == id;
        lemma_dying_duck_never_flies_again(frames, k, a, m - 1, c);
        assert(dying_stays_dying(frames[m - 1].0, frames[m].0));
        assert(frames[m - 1].0[c].id == frames[m].0[b].id);
    }
}

/// `b` is `a` after the shot, if there is one.
pub open spec fn shot_stage(a: Seq<Duck>, b: Seq<Duck>, shot: Option<(i64, i64)>) -> bool {
    match shot {
        Some((cx, cy)) => each_duck(
            a,
            b,
            |a: Duck, b: Duck| duck_shot(a, b, cx as int, cy as int, HALF_EXTENT as int),
        ),
        None => b == a,
    }
}

/// The stages of a frame of `dt` on the ducks `w0`: they fly (`w1`), are
/// animated (`w2`), the shot is resolved (`w3`) and the dying fall (`w4`).
pub open spec fn frame_stages(
    w0: Seq<Duck>,
    w1: Seq<Duck>,
    w2: Seq<Duck>,
    w3: Seq<Duck>,
    w4: Seq<Duck>,
    dt: nat,
    shot: Option<(i64, i64)>,
) -> bool {
    &&& each_duck(w0, w1, |a: Duck, b: Duck| duck_moved(a, b, dt))
    &&& each_duck(w1, w2, |a: Duck, b: Duck| duck_animated(a, b, dt))
    &&& shot_stage(w2, w3, shot)
    &&& each_duck(w3, w4, |a: Duck, b: Duck| duck_fell(a, b, dt))
}

/// `b` is `a` without its dead ducks, followed by the spawned duck if there is one.
pub open spec fn swept_then_spawned(a: Seq<Duck>, b: Seq<Duck>, spawned: bool) -> bool {
    if spawned {
        b.len() > 0 && b.drop_last() == a.filter(|d: Duck| !d.dead)
    } else {
        b == a.filter(|d: Duck| !d.dead)
    }
}

/// What a frame leaves behind: the dead are gone, nobody dying is below the
/// playfield, identifiers come from the frame before or are new, and the dying
/// stay dying. `w3` holds the ducks before they fall, `w4` after, `w5` after
/// the dead are swept, and `w6` after the spawner.
proof fn lemma_frame_end(
    w0: Seq<Duck>,
    w3: Seq<Duck>,
    w4: Seq<Duck>,
    w5: Seq<Duck>,
    w6: Seq<Duck>,
    dt: nat,
    old_next: u64,
    new_next: u64,
    spawned: bool,
)
    requires
        ducks_wf(w0, old_next),
        ducks_wf(w4, old_next),
        w3.len() == w0.len(),
        forall|k: int|
            0 <= k < w3.len() ==> (#[trigger] w3[k]).id == w0[k].id && (w0[k].behaviour
                == DuckBehaviour::Dying ==> w3[k].behaviour == DuckBehaviour::Dying),
        each_duck(w3, w4, |a: Duck, b: Duck| duck_fell(a, b, dt)),
        w5 == w4.filter(|d: Duck| !d.dead),
        !spawned ==> w6 == w5 && new_next == old_next,
        spawned ==> {
            &&& new_next == old_next + 1
            &&& w6.len() == w5.len() + 1
            &&& w6.drop_last() == w5
            &&& !w6.last().dead
            &&& w6.last().behaviour != DuckBehaviour::Dying
            &&& w6.last().id == old_next
        },
    ensures
        no_dead_left(w6),
        frame_follows(w0, old_next, w6, new_next),
        dying_stays_dying(w0, w6),
{
    broadcast use vstd::seq_lib::group_filter_ensures;
    lemma_filter_keeps_wf(w4, old_next, |d: Duck| !d.dead);
    assert forall|j: int| 0 <= j < w5.len() implies {
        &&& !(#[trigger] w5[j]).dead
        &&& !(w5[j].behaviour == DuckBehaviour::Dying && w5[j].y < DEATH_Y)
        &&& exists|m: int| 0 <= m < w0.len() && w5[j] == w4[m] && w0[m].id == w5[j].id
    } by {
        assert(w4.contains(w5[j]));
        let m = choose|m: int| 0 <= m < w4.len() && w4[m] == w5[j];
        assert(duck_fell(w3[m], w4[m], dt as nat));
    }
    assert forall|j: int| 0 <= j < w6.len() implies {
        &&& !(#[trigger] w6[j]).dead
        &&& !(w6[j].behaviour == DuckBehaviour::Dying && w6[j].y < DEATH_Y)
    } by {
        if j < w5.len() {
            assert(w6[j] == w5[j]);
        } else {
            assert(w6[j] == w6.last());
        }
    }
    assert forall|j: int| 0 <= j < w6.len() implies has_id(w0, #[trigger] w6[j].id) || (
    old_next <= w6[j].id && w6[j].id < new_next) by {
        if j < w5.len() {
            assert(w6[j] == w5[j]);
            let m = choose|m: int| 0 <= m < w0.len() && w5[j] == w4[m] && w0[m].id == w5[j].id;
            assert(w0[m].id == w6[j].id);
        } else {
            assert(w6[j] == w6.last());
        }
    }
    assert forall|i: int, j: int|
        0 <= i < w0.len() && 0 <= j < w6.len() && (#[trigger] w0[i]).id == (#[trigger] w6[j]).id
            && w0[i].behaviour == DuckBehaviour::Dying implies w6[j].behaviour == DuckBehaviour::Dying by {
        if j < w5.len() {
            assert(w6[j] == w5[j]);
            let m = choose|m: int| 0 <= m < w0.len() && w5[j] == w4[m] && w0[m].id == w5[j].id;
            if m != i {
                assert(w0[m].id != w0[i].id);
            }
            assert(w3[i].id == w0[i].id);
            assert(duck_fell(w3[i], w4[i], dt as nat));
        } else {
            assert(w6[j] == w6.last());
            assert(w0[i].id < old_next);
        }
    }
}

impl World {
    pub open spec fn wf(&self) -> bool {
        &&& self.spawn_timer.wf()
        &&& ducks_wf(self.ducks@, self.next_id)
    }

    /// Every duck can fly, fall and be animated for `dt` without leaving the
    /// range of the integer types.
    pub open spec fn step_fits(&self, dt: nat) -> bool {
        &&& forall|i: int|
            0 <= i < self.ducks@.len() ==> step_fits(#[trigger] self.ducks@[i], dt)
                && anim_tick_fits(self.ducks@[i], dt)
        &&& (self.spawn_timer.elapsed() + dt) / self.spawn_timer.duration() <= u32::MAX
    }

    /// An empty world whose spawn timer has the given period.
    pub fn new(spawn_interval_ns: u64) -> (r: World)
        requires
            spawn_interval_ns > 0,
        ensures
            r.wf(),
            r.ducks@.len() == 0,
            r.next_id == 0,
            r.spawn_timer.duration() == spawn_interval_ns,
            r.spawn_timer.elapsed() == 0,
    {
        World { ducks: Vec::new(), spawn_timer: RepeatingTimer::new(spawn_interval_ns), next_id: 0 }
    }

    /// Moves every duck for `dt` nanoseconds.
    pub fn move_ducks(&mut self, dt: u64)
        requires
            old(self).wf(),
            old(self).step_fits(dt as nat),
        ensures
            final(self).spawn_timer == old(self).spawn_timer,
            final(self).next_id == old(self).next_id,
            final(self).wf(),
            each_duck(old(self).ducks@, final(self).ducks@, |a: Duck, b: Duck| duck_moved(a, b, dt as nat)),
    {
        let n = self.ducks.len();
        let mut i: usize = 0;
        while i < n
            invariant
                0 <= i <= n,
                n == self.ducks@.len(),
                self.spawn_timer == old(self).spawn_timer,
                self.next_id == old(self).next_id,
                n == old(self).ducks@.len(),
                forall|k: int| 0 <= k < i ==> duck_moved(#[trigger] old(self).ducks@[k], self.ducks@[k], dt as nat),
                forall|k: int| i <= k < n ==> #[trigger] self.ducks@[k] == old(self).ducks@[k],
                old(self).step_fits(dt as nat),
            decreases n - i,
        {
            assert(step_fits(old(self).ducks@[i as int], dt as nat));
            move_duck(&mut self.ducks[i], dt);
            i = i + 1;
        }
        proof {
            lemma_same_ids_keeps_wf(old(self).ducks@, self.ducks@, self.next_id);
        }
    }

    /// Advances the animation of every duck by `dt` nanoseconds.
    pub fn animate_ducks(&mut self, dt: u64)
        requires
            old(self).wf(),
            forall|i: int|
                0 <= i < old(self).ducks@.len() ==> anim_tick_fits(#[trigger] old(self).ducks@[i], dt as nat),
        ensures
            final(self).spawn_timer == old(self).spawn_timer,
            final(self).next_id == old(self).next_id,
            final(self).wf(),
            each_duck(old(self).ducks@, final(self).ducks@, |a: Duck, b: Duck| duck_animated(a, b, dt as nat)),
    {
        let n = self.ducks.len();
        let mut i: usize = 0;
        while i < n
            invariant
                0 <= i <= n,
                n == self.ducks@.len(),
                self.spawn_timer == old(self).spawn_timer,
                self.next_id == old(self).next_id,
                n == old(self).ducks@.len(),
                old(self).wf(),
                forall|k: int| 0 <= k < i ==> duck_animated(#[trigger] old(self).ducks@[k], self.ducks@[k], dt as nat)
                    && self.ducks@[k].wf(),
                forall|k: int| i <= k < n ==> #[trigger] self.ducks@[k] == old(self).ducks@[k],
                forall|k: int| 0 <= k < n ==> anim_tick_fits(#[trigger] old(self).ducks@[k], dt as nat),
            decreases n - i,
        {
            assert(anim_tick_fits(old(self).ducks@[i as int], dt as nat));
            assert(old(self).ducks@[i as int].wf());
            animate_duck(&mut self.ducks[i], dt);
            i = i + 1;
        }
        proof {
            lemma_same_ids_keeps_wf(old(self).ducks@, self.ducks@, self.next_id);
        }
    }

    /// Resolves a shot at world position (`cx`, `cy`): every live duck whose
    /// hit box holds the point starts dying. Returns how many were hit.
    pub fn shoot_ducks(&mut self, cx: i64, cy: i64) -> (hits: usize)
        requires
            old(self).wf(),
        ensures
            final(self).spawn_timer == old(self).spawn_timer,
            final(self).next_id == old(self).next_id,
            final(self).wf(),
            each_duck(
                old(self).ducks@,
                final(self).ducks@,
                |a: Duck, b: Duck| duck_shot(a, b, cx as int, cy as int, HALF_EXTENT as int),
            ),
            hits == old(self).ducks@.filter(|a: Duck| is_hit(a, cx as int, cy as int, HALF_EXTENT as int)).len(),
    {
        let n = self.ducks.len();
        let mut i: usize = 0;
        let mut hits: usize = 0;
        while i < n
            invariant
                0 <= i <= n,
                n == self.ducks@.len(),
                self.spawn_timer == old(self).spawn_timer,
                self.next_id == old(self).next_id,
                n == old(self).ducks@.len(),
                old(self).wf(),
                forall|k: int| 0 <= k < i ==> duck_shot(#[trigger] old(self).ducks@[k], self.ducks@[k], cx as int, cy as int, HALF_EXTENT as int),
                forall|k: int| i <= k < n ==> #[trigger] self.ducks@[k] == old(self).ducks@[k],
                hits == old(self).ducks@.subrange(0, i as int).filter(|a: Duck| is_hit(a, cx as int, cy as int, HALF_EXTENT as int)).len(),
                hits <= i,
            decreases n - i,
        {
            let hit = shoot_duck(&mut self.ducks[i], cx, cy, HALF_EXTENT);
            proof {
                let s = old(self).ducks@.subrange(0, i + 1);
                assert(s.drop_last() == old(self).ducks@.subrange(0, i as int));
                reveal(Seq::filter);
            }
            if hit {
                hits = hits + 1;
            }
            proof {
                let s = old(self).ducks@.subrange(0, i + 1);
                assert(s.last() == old(self).ducks@[i as int]);
                assert(hit == is_hit(old(self).ducks@[i as int], cx as int, cy as int, HALF_EXTENT as int));
                assert(is_hit(s.last(), cx as int, cy as int, HALF_EXTENT as int) == hit);
                assert(s.filter(|a: Duck| is_hit(a, cx as int, cy as int, HALF_EXTENT as int)) == if is_hit(s.last(), cx as int, cy as int, HALF_EXTENT as int) {
                    s.drop_last().filter(|a: Duck| is_hit(a, cx as int, cy as int, HALF_EXTENT as int)).push(s.last())
                } else {
                    s.drop_last().filter(|a: Duck| is_hit(a, cx as int, cy as int, HALF_EXTENT as int))
                });
            }
            i = i + 1;
        }
        proof {
            assert(old(self).ducks@.subrange(0, n as int) == old(self).ducks@);
            lemma_same_ids_keeps_wf(old(self).ducks@, self.ducks@, self.next_id);
        }
        hits
    }

    /// Lets every dying duck fall for `dt` nanoseconds, marking those below
    /// the playfield dead.
    pub fn fall_ducks(&mut self, dt: u64)
        requires
            old(self).wf(),
            forall|i: int|
                0 <= i < old(self).ducks@.len() ==> in_i64(fallen_y(#[trigger] old(self).ducks@[i], dt as nat)),
        ensures
            final(self).spawn_timer == old(self).spawn_timer,
            final(self).next_id == old(self).next_id,
            final(self).wf(),
            each_duck(old(self).ducks@, final(self).ducks@, |a: Duck, b: Duck| duck_fell(a, b, dt as nat)),
    {
        let n = self.ducks.len();
        let mut i: usize = 0;
        while i < n
            invariant
                0 <= i <= n,
                n == self.ducks@.len(),
                self.spawn_timer == old(self).spawn_timer,
                self.next_id == old(self).next_id,
                n == old(self).ducks@.len(),
                old(self).wf(),
                forall|k: int| 0 <= k < i ==> duck_fell(#[trigger] old(self).ducks@[k], self.ducks@[k], dt as nat),
                forall|k: int| i <= k < n ==> #[trigger] self.ducks@[k] == old(self).ducks@[k],
                forall|k: int| 0 <= k < n ==> in_i64(fallen_y(#[trigger] old(self).ducks@[k], dt as nat)),
            decreases n - i,
        {
            assert(in_i64(fallen_y(old(self).ducks@[i as int], dt as nat)));
            fall_duck(&mut self.ducks[i], dt);
            i = i + 1;
        }
        proof {
            lemma_same_ids_keeps_wf(old(self).ducks@, self.ducks@, self.next_id);
        }
    }

    /// Removes every duck marked dead, keeping the others in order.
    pub fn remove_dead(&mut self)
        requires
            old(self).wf(),
        ensures
            final(self).spawn_timer == old(self).spawn_timer,
            final(self).next_id == old(self).next_id,
            final(self).wf(),
            final(self).ducks@ == old(self).ducks@.filter(|d: Duck| !d.dead),
    {
        let mut rest: Vec<Duck> = Vec::new();
        std::mem::swap(&mut self.ducks, &mut rest);
        let ghost all = rest@;
        let n = rest.len();
        let mut i: usize = 0;
        while i < n
            invariant
                0 <= i <= n,
                n == all.len(),
                all == old(self).ducks@,
                rest@ == all.subrange(i as int, n as int),
                self.ducks@ == all.subrange(0, i as int).filter(|d: Duck| !d.dead),
                self.spawn_timer == old(self).spawn_timer,
                self.next_id == old(self).next_id,
            decreases n - i,
        {
            let d = rest.remove(0);
            proof {
                assert(all.subrange(0, i + 1).drop_last() == all.subrange(0, i as int));
                assert(all.subrange(0, i + 1).last() == d);
                reveal(Seq::filter);
            }
            if !d.dead {
                self.ducks.push(d);
            }
            proof {
                let s = all.subrange(0, i + 1);
                assert(s.last() == all[i as int]);
                assert(d == all[i as int]);
                assert(!s.last().dead == !d.dead);
                assert(s.filter(|d: Duck| !d.dead) == if !s.last().dead {
                    s.drop_last().filter(|d: Duck| !d.dead).push(s.last())
                } else {
                    s.drop_last().filter(|d: Duck| !d.dead)
                });
            }
            i = i + 1;
            proof {
                assert(rest@ == all.subrange(i as int, n as int));
            }
        }
        proof {
            assert(all.subrange(0, n as int) == all);
            lemma_filter_keeps_wf(all, self.next_id, |d: Duck| !d.dead);
        }
    }

    /// Ticks the spawn timer by `dt` nanoseconds; when it completes, adds a new
    /// duck placed and set going by `sine_ppm`, the sine (in parts per million)
    /// of the time since the game started. Returns whether a duck was added.
    pub fn spawn_ducks(&mut self, dt: u64, sine_ppm: i64) -> (spawned: bool)
        requires
            old(self).wf(),
            -SINE_ONE <= sine_ppm <= SINE_ONE,
            (old(self).spawn_timer.elapsed() + dt as nat) / old(self).spawn_timer.duration() <= u32::MAX,
            old(self).next_id < u64::MAX,
        ensures
            final(self).wf(),
            spawned == (old(self).spawn_timer.elapsed() + dt as nat >= old(self).spawn_timer.duration()),
            final(self).spawn_timer.duration() == old(self).spawn_timer.duration(),
            final(self).spawn_timer.elapsed() == (old(self).spawn_timer.elapsed() + dt as nat)
                % old(self).spawn_timer.duration(),
            !spawned ==> final(self).ducks@ == old(self).ducks@ && final(self).next_id == old(self).next_id,
            spawned ==> {
                &&& final(self).next_id == old(self).next_id + 1
                &&& final(self).ducks@.len() == old(self).ducks@.len() + 1
                &&& final(self).ducks@.drop_last() == old(self).ducks@
                &&& is_new_duck(final(self).ducks@.last(), old(self).next_id, sine_ppm as int)
            },
    {
        let spawned = self.spawn_timer.tick(dt);
        if spawned {
            let d = spawn_duck(self.next_id, sine_ppm);
            self.ducks.push(d);
            self.next_id = self.next_id + 1;
            proof {
                assert(self.ducks@.drop_last() == old(self).ducks@);
                let s = self.ducks@;
                assert forall|i: int, j: int|
                    0 <= i < s.len() && 0 <= j < s.len() && i != j implies (#[trigger] s[i]).id != (
                    #[trigger] s[j]).id by {
                    if i < s.len() - 1 && j < s.len() - 1 {
                        assert(s[i] == old(self).ducks@[i] && s[j] == old(self).ducks@[j]);
                    } else if i < s.len() - 1 {
                        assert(s[i] == old(self).ducks@[i]);
                    } else {
                        assert(s[j] == old(self).ducks@[j]);
                    }
                }
                assert forall|i: int| 0 <= i < s.len() implies (#[trigger] s[i]).wf() && s[i].id
                    < self.next_id by {
                    if i < s.len() - 1 {
                        assert(s[i] == old(self).ducks@[i]);
                    }
                }
            }
        }
        spawned
    }

    /// One frame of play, `dt` nanoseconds long: live flying ducks move,
    /// every duck is animated, the shot, if any, is resolved at its world
    /// position, dying ducks fall, dead ducks are removed, and a new duck
    /// is added when the spawn timer completes, at a place set by `sine_ppm`
    /// (the sine, in parts per million, of the time since the game started).
    /// Returns whether a duck was added.
    pub fn update(&mut self, dt: u64, sine_ppm: i64, shot: Option<(i64, i64)>) -> (spawned: bool)
        requires
            old(self).wf(),
            old(self).step_fits(dt as nat),
            -SINE_ONE <= sine_ppm <= SINE_ONE,
            old(self).next_id < u64::MAX,
        ensures
            final(self).wf(),
            spawned == (old(self).spawn_timer.elapsed() + dt as nat >= old(self).spawn_timer.duration()),
            final(self).spawn_timer.duration() == old(self).spawn_timer.duration(),
            final(self).spawn_timer.elapsed() == (old(self).spawn_timer.elapsed() + dt as nat)
                % old(self).spawn_timer.duration(),
            final(self).next_id == old(self).next_id + if spawned { 1int } else { 0int },
            spawned ==> is_new_duck(final(self).ducks@.last(), old(self).next_id, sine_ppm as int),
            no_dead_left(final(self).ducks@),
            frame_follows(old(self).ducks@, old(self).next_id, final(self).ducks@, final(self).next_id),
            dying_stays_dying(old(self).ducks@, final(self).ducks@),
            exists|w1: Seq<Duck>, w2: Seq<Duck>, w3: Seq<Duck>, w4: Seq<Duck>|
                #[trigger] frame_stages(old(self).ducks@, w1, w2, w3, w4, dt as nat, shot)
                    && swept_then_spawned(w4, final(self).ducks@, spawned),
    {
        let ghost w0 = self.ducks@;
        self.move_ducks(dt);
        let ghost w1 = self.ducks@;
        assert forall|k: int| 0 <= k < w1.len() implies anim_tick_fits(#[trigger] w1[k], dt as nat) by {
            assert(anim_tick_fits(w0[k], dt as nat));
        }
        self.animate_ducks(dt);
        let ghost w2 = self.ducks@;
        match shot {
            Some((cx, cy)) => {
                self.shoot_ducks(cx, cy);
            },
            None => {},
        }
        let ghost w3 = self.ducks@;
        assert forall|k: int| 0 <= k < w3.len() implies in_i64(fallen_y(#[trigger] w3[k], dt as nat))
            && w3[k].id == w0[k].id && (w0[k].behaviour == DuckBehaviour::Dying
            ==> w3[k].behaviour == DuckBehaviour::Dying) by {
            assert(step_fits(w0[k], dt as nat));
            assert(duck_moved(w0[k], w1[k], dt as nat));
            assert(duck_animated(w1[k], w2[k], dt as nat));
            if let Some((cx, cy)) = shot {
                assert(duck_shot(w2[k], w3[k], cx as int, cy as int, HALF_EXTENT as int));
            } else {
                assert(w3 == w2);
            }
            vstd::arithmetic::div_mod::lemma_div_pos_is_pos(
                (w0[k].speed as nat * dt) as int,
                NANOS_PER_SEC as int,
            );
        }
        self.fall_ducks(dt);
        let ghost w4 = self.ducks@;
        self.remove_dead();
        let ghost w5 = self.ducks@;
        let spawned = self.spawn_ducks(dt, sine_ppm);
        proof {
            lemma_frame_end(w0, w3, w4, w5, self.ducks@, dt as nat, old(self).next_id, self.next_id, spawned);
            assert(frame_stages(w0, w1, w2, w3, w4, dt as nat, shot));
            assert(swept_then_spawned(w4, self.ducks@, spawned));
        }
        spawned
    }

    /// Whether `update` may be called with `dt`: every duck can fly, fall and
    /// be animated for `dt` within the integer types, the spawn timer's count
    /// of completions fits, and an identifier is left for a new duck.
    pub fn can_update(&self, dt: u64) -> (r: bool)
        requires
            self.wf(),
        ensures
            r == (self.step_fits(dt as nat) && self.next_id < u64::MAX),
    {
        let elapsed = self.spawn_timer.elapsed_ns();
        let duration = self.spawn_timer.duration_ns();
        let periods: u128 = (elapsed as u128 + dt as u128) / duration as u128;
        if periods > u32::MAX as u128 || self.next_id == u64::MAX {
            return false;
        }
        let n = self.ducks.len();
        let mut i: usize = 0;
        while i < n
            invariant
                0 <= i <= n,
                n == self.ducks@.len(),
                self.wf(),
                forall|k: int|
                    0 <= k < i ==> step_fits(#[trigger] self.ducks@[k], dt as nat) && anim_tick_fits(
                        self.ducks@[k],
                        dt as nat,
                    ),
            decreases n - i,
        {
            assert(self.ducks@[i as int].wf());
            if !can_step(&self.ducks[i], dt) {
                return false;
            }
            i = i + 1;
        }
        true
    }
}

} // verus!
