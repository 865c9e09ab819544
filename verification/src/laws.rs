//! The library's laws: properties that relate several operations, stated
//! and proved over the same spec functions the operations' contracts use.
use vstd::prelude::*;
use crate::num::FULL_TURN;
use crate::num::SLEEP_LIMIT;
use crate::num::clip64;
use crate::setting::Setting;
use crate::shot::ShotBehavior;
use crate::disk::Disk;
use crate::event_thread::burst_matches;
use crate::event_thread::burst_entry;
use crate::event_thread::circle_angle;
use crate::schedule::advance_spec;
use crate::sim::step_spec;
use crate::sim::bounds_spec;
use crate::sim::reflects_now;
use crate::sim::behaviors_applied;
use crate::sim::apply_behaviors_upto;
use crate::sim::aged;
use vstd::arithmetic::div_mod::lemma_small_mod;
use vstd::arithmetic::div_mod::lemma_mod_multiples_vanish;
use vstd::arithmetic::div_mod::lemma_fundamental_div_mod;

verus! {

/// Law: a circle burst of way count `n >= 1` has exactly `n` entities,
/// and from the drift offset their angles step evenly by the `n`-th
/// part of a full turn.
pub proof fn lemma_radial_even_spacing(s: Setting, iter: int, b: Seq<Disk>)
    requires
        s.wf(),
        s.shot_type is Circle,
        s.shot_way_num >= 1,
        burst_matches(s, iter, b),
    ensures
        b.len() == s.shot_way_num,
        b[0].angle == s.degree_change_by * iter,
        forall|i: int|
            0 <= i < b.len() - 1 ==> #[trigger] b[i + 1].angle - b[i].angle == FULL_TURN as int
                / s.shot_way_num as int,
{
    assert(burst_entry(s, iter, 0, b[0]));
    assert(circle_angle(s, iter, 0) == s.degree_change_by * iter) by {
        assert((FULL_TURN as int / s.shot_way_num as int) * 0 == 0) by (nonlinear_arith);
    }
    assert forall|i: int|
        0 <= i < b.len() - 1 implies #[trigger] b[i + 1].angle - b[i].angle == FULL_TURN as int
        / s.shot_way_num as int by {
        let spacing = FULL_TURN as int / s.shot_way_num as int;
        assert(burst_entry(s, iter, i, b[i]));
        assert(burst_entry(s, iter, i + 1, b[i + 1]));
        assert(spacing * (i + 1) - spacing * i == spacing) by (nonlinear_arith);
    }
}

/// Law: a way count of zero yields an empty burst, for every pattern.
pub proof fn lemma_zero_ways_empty(s: Setting, iter: int, b: Seq<Disk>)
    requires
        s.shot_way_num == 0,
        burst_matches(s, iter, b),
    ensures
        b.len() == 0,
{
}

/// Law: an entity with one bounce left that crosses the left edge, and
/// no other, comes out of boundary resolution with the displacement on
/// x undone, the x velocity negated, the y axis untouched and the
/// budget spent.
pub proof fn lemma_reflect_left_once(v: Disk, w: int, h: int)
    requires
        reflects_now(v),
        v.reflect_count == Some(1u32),
        clip64(v.x - v.disk_size) < 0,
        !(clip64(v.y - v.disk_size) < 0 || clip64(v.y + v.disk_size) > h),
    ensures
        bounds_spec(v, w, h) matches Some(u) && u.x == clip64(v.x - v.vec2d.x) && u.vec2d.x
            == clip64(-(v.vec2d.x as int)) && u.y == v.y && u.vec2d.y == v.vec2d.y
            && u.reflect_count == Some(0u32),
{
}

/// Law: once the bounce budget is spent the entity no longer reflects,
/// and boundary resolution culls it as soon as its box is fully outside
/// the world on some axis.
pub proof fn lemma_spent_budget_culls(u: Disk, w: int, h: int)
    requires
        u.reflect_count == Some(0u32),
        clip64(u.x + u.disk_size) < 0 || clip64(u.x - u.disk_size) > w || clip64(
            u.y + u.disk_size,
        ) < 0 || clip64(u.y - u.disk_size) > h,
    ensures
        !reflects_now(u),
        bounds_spec(u, w, h) is None,
{
}

/// The pool after `rs.len()` whole frames for one entity, or `None`
/// once some frame culled it.
pub open spec fn run_spec(d: Disk, w: int, h: int, rs: Seq<int>) -> Option<Disk>
    decreases rs.len(),
{
    if rs.len() == 0 {
        Some(d)
    } else {
        match step_spec(d, w, h, rs[0]) {
            Some(e) => run_spec(e, w, h, rs.skip(1)),
            None => None,
        }
    }
}

/// One frame of an entity whose only behavior is `Sleep(interval, nap)`,
/// on a frame that starts or continues a nap: the position freezes, the
/// age grows by one and the nap counter moves as the sleep rule says.
proof fn lemma_sleep_step(d: Disk, w: int, h: int, r: int, interval: i32, nap: i32)
    requires
        d.wf(),
        d.behavior@ == seq![ShotBehavior::Sleep(interval, nap)],
        0 < interval,
        0 < nap <= SLEEP_LIMIT,
        d.age < 0xffffffff,
        d.sleep_time + nap <= i32::MAX,
        ((d.age + 1) as int % interval as int == 0) || d.sleep_time > 1,
    ensures
        step_spec(d, w, h, r) matches Some(e) && e.x == d.x && e.y == d.y && e.behavior
            == d.behavior && e.age == d.age + 1 && e.speed == d.speed && e.angle == d.angle
            && e.vec2d == d.vec2d && e.disk_size == d.disk_size && e.reflect_count
            == d.reflect_count && e.wf() && e.sleep_time == (if (d.age + 1) as int % interval as int
            == 0 {
            d.sleep_time + nap
        } else {
            d.sleep_time - 1
        }),
{
    reveal(step_spec);
    let a = aged(d);
    assert(a.behavior@ == d.behavior@);
    assert(a.age == d.age + 1);
    let b = behaviors_applied(a, r);
    assert(apply_behaviors_upto(a, r, 0) == a);
    assert(b == crate::sim::apply_behavior_spec(a, ShotBehavior::Sleep(interval, nap), r));
}

/// Law: an entity whose single behavior is `Sleep(interval, nap)`, with
/// `nap < interval`, freezes for `nap` consecutive frames from the
/// frame its age hits the interval: over any run of at most `nap`
/// frames from the trigger frame it survives, does not move, and its
/// nap counter counts the remaining frames down.
pub proof fn lemma_sleep_freezes(d: Disk, w: int, h: int, rs: Seq<int>, interval: i32, nap: i32)
    requires
        d.wf(),
        d.behavior@ == seq![ShotBehavior::Sleep(interval, nap)],
        0 < nap < interval,
        nap <= SLEEP_LIMIT,
        d.sleep_time == 0,
        (d.age + 1) as int % interval as int == 0,
        d.age + rs.len() < 0xffffffff,
        1 <= rs.len() <= nap,
    ensures
        run_spec(d, w, h, rs) matches Some(e) && e.x == d.x && e.y == d.y && e.age == d.age
            + rs.len() && e.sleep_time == nap + 1 - rs.len(),
{
    lemma_sleep_step(d, w, h, rs[0], interval, nap);
    let e = step_spec(d, w, h, rs[0])->0;
    assert(e.sleep_time == nap);
    lemma_nap_phase(e, w, h, rs.skip(1), interval, nap, (d.age + 1) as int);
    assert(run_spec(d, w, h, rs) == run_spec(e, w, h, rs.skip(1)));
}

/// The continuation of a nap: while frames remain in the nap window,
/// each one leaves the position alone and spends one frame of the
/// counter.
proof fn lemma_nap_phase(
    e: Disk,
    w: int,
    h: int,
    rs: Seq<int>,
    interval: i32,
    nap: i32,
    trigger_age: int,
)
    requires
        e.wf(),
        e.behavior@ == seq![ShotBehavior::Sleep(interval, nap)],
        0 < nap < interval,
        nap <= SLEEP_LIMIT,
        e.age == trigger_age + (nap - e.sleep_time),
        trigger_age % interval as int == 0,
        1 <= e.sleep_time <= nap,
        rs.len() < e.sleep_time,
        e.age + rs.len() < 0xffffffff,
    ensures
        run_spec(e, w, h, rs) matches Some(f) && f.x == e.x && f.y == e.y && f.age == e.age
            + rs.len() && f.sleep_time == e.sleep_time - rs.len(),
    decreases rs.len(),
{
    if rs.len() == 0 {
    } else {
        let j = nap - e.sleep_time + 1;
        assert((e.age + 1) as int == trigger_age + j);
        assert(0 < j < interval);
        assert((trigger_age + j) % interval as int == j) by {
            lemma_fundamental_div_mod(trigger_age, interval as int);
            lemma_mod_multiples_vanish(trigger_age / interval as int, j, interval as int);
            lemma_small_mod(j as nat, interval as nat);
        }
        lemma_sleep_step(e, w, h, rs[0], interval, nap);
        let f = step_spec(e, w, h, rs[0])->0;
        lemma_nap_phase(f, w, h, rs.skip(1), interval, nap, trigger_age);
    }
}

/// The behavior fold ignores the draw when no behavior up to `k` is
/// `Random`.
proof fn lemma_fold_ignores_draw(d: Disk, r1: int, r2: int, k: int)
    requires
        0 <= k <= d.behavior@.len(),
        forall|i: int| 0 <= i < k ==> !((#[trigger] d.behavior@[i]) is Random),
    ensures
        apply_behaviors_upto(d, r1, k) == apply_behaviors_upto(d, r2, k),
    decreases k,
{
    if k > 0 {
        lemma_fold_ignores_draw(d, r1, r2, k - 1);
    }
}

/// Law: the frame of an entity that carries no `Random` behavior does
/// not depend on the random draw; combined with the pool pass relation
/// this makes such an entity's whole frame deterministic.
pub proof fn lemma_step_ignores_draw(d: Disk, w: int, h: int, r1: int, r2: int)
    requires
        forall|i: int| 0 <= i < d.behavior@.len() ==> !((#[trigger] d.behavior@[i]) is Random),
    ensures
        step_spec(d, w, h, r1) == step_spec(d, w, h, r2),
{
    reveal(step_spec);
    lemma_fold_ignores_draw(aged(d), r1, r2, aged(d).behavior@.len() as int);
}

/// Law: when the nap is over, displacement resumes. For an entity whose
/// single behavior is `Sleep(interval, nap)`, on a frame that neither
/// starts a nap nor leaves one running (the counter reaches zero after
/// the sleep update), the frame is an ordinary one: the entity is
/// displaced by its velocity and then faces the bounds.
pub proof fn lemma_sleep_resumes(d: Disk, w: int, h: int, r: int, interval: i32, nap: i32)
    requires
        d.wf(),
        d.behavior@ == seq![ShotBehavior::Sleep(interval, nap)],
        0 < interval,
        d.age < 0xffffffff,
        (d.age + 1) as int % interval as int != 0,
        d.sleep_time <= 1,
    ensures
        step_spec(d, w, h, r) == bounds_spec(
            Disk {
                age: (d.age + 1) as u32,
                sleep_time: 0,
                x: clip64(d.x + d.vec2d.x) as i64,
                y: clip64(d.y + d.vec2d.y) as i64,
                ..d
            },
            w,
            h,
        ),
{
    reveal(step_spec);
    let a = aged(d);
    assert(a.behavior@ == d.behavior@);
    let b = behaviors_applied(a, r);
    assert(apply_behaviors_upto(a, r, 0) == a);
    assert(b == crate::sim::apply_behavior_spec(a, ShotBehavior::Sleep(interval, nap), r));
    assert(b.sleep_time == 0);
}

/// The frame cursor after `n` ticks from the start of the cycle.
pub open spec fn advance_n(cycle: int, n: nat) -> int
    decreases n,
{
    if n == 0 {
        0
    } else {
        advance_spec(advance_n(cycle, (n - 1) as nat), cycle)
    }
}

/// Law: with a cycle of length `c`, the frame cursor counts `0, 1, ...,
/// c - 1` and returns to `0` exactly on the `c`-th tick.
pub proof fn lemma_cycle_wrap(cycle: int, n: nat)
    requires
        0 < cycle < 0x100000000,
        n <= cycle,
    ensures
        advance_n(cycle, n) == (if n == cycle {
            0int
        } else {
            n as int
        }),
    decreases n,
{
    if n > 0 {
        lemma_cycle_wrap(cycle, (n - 1) as nat);
        lemma_small_mod(n, 0x100000000nat);
    }
}

} // verus!
