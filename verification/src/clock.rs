//! The clock of the simulation.
//!
//! Frames come as they come; the simulation advances in ticks of one fixed
//! length. Frame time is collected, ticks are taken out of it as they
//! fall due, and what is left, less than a tick, waits for the next frame.
use vstd::prelude::*;
use crate::grid::Grid;
use crate::math::Vec3;

verus! {

/// Ticks that fall due when `frame_dt` is added to `leftover`.
pub open spec fn ticks_due(leftover: int, frame_dt: int, fixed_dt: int) -> int {
    (leftover + frame_dt) / fixed_dt
}

/// Time left over once the due ticks are taken out of `leftover` plus
/// `frame_dt`.
pub open spec fn leftover_after(leftover: int, frame_dt: int, fixed_dt: int) -> int {
    (leftover + frame_dt) % fixed_dt
}

/// However a stretch of time is cut into frames, the same ticks fall due
/// and the same time is left over: two frames of `a` and `b` microseconds
/// bring as many ticks as one frame of `a + b`.
pub proof fn lemma_frames_add_up(leftover: int, a: int, b: int, fixed_dt: int)
    requires
        0 < fixed_dt,
        0 <= leftover < fixed_dt,
        0 <= a,
        0 <= b,
    ensures
        ticks_due(leftover, a, fixed_dt) + ticks_due(
            leftover_after(leftover, a, fixed_dt),
            b,
            fixed_dt,
        ) == ticks_due(leftover, a + b, fixed_dt),
        leftover_after(leftover_after(leftover, a, fixed_dt), b, fixed_dt) == leftover_after(
            leftover,
            a + b,
            fixed_dt,
        ),
{
    let t = leftover + a;
    let q1 = t / fixed_dt;
    let r1 = t % fixed_dt;
    let q2 = (r1 + b) / fixed_dt;
    let r2 = (r1 + b) % fixed_dt;
    vstd::arithmetic::div_mod::lemma_fundamental_div_mod(t, fixed_dt);
    vstd::arithmetic::div_mod::lemma_fundamental_div_mod(r1 + b, fixed_dt);
    assert((q1 + q2) * fixed_dt + r2 == t + b) by (nonlinear_arith)
        requires
            t == fixed_dt * q1 + r1,
            r1 + b == fixed_dt * q2 + r2,
    ;
    vstd::arithmetic::div_mod::lemma_fundamental_div_mod_converse(t + b, fixed_dt, q1 + q2, r2);
}

/// One frame of `n` ticks' length brings exactly `n` ticks and leaves the
/// leftover time as it was; so three frames of one tick each and one frame
/// of three ticks bring the clock to the same state.
pub proof fn lemma_whole_ticks(leftover: int, n: int, fixed_dt: int)
    requires
        0 < fixed_dt,
        0 <= leftover < fixed_dt,
        0 <= n,
    ensures
        ticks_due(leftover, n * fixed_dt, fixed_dt) == n,
        leftover_after(leftover, n * fixed_dt, fixed_dt) == leftover,
{
    vstd::arithmetic::div_mod::lemma_fundamental_div_mod_converse(
        leftover + n * fixed_dt,
        fixed_dt,
        n,
        leftover,
    );
}

/// Two frames that add up to one tick bring one tick between them: none
/// is lost to rounding, and none comes twice.
pub proof fn lemma_split_tick(a: int, b: int, fixed_dt: int)
    requires
        0 < fixed_dt,
        0 <= a < fixed_dt,
        0 <= b,
        a + b == fixed_dt,
    ensures
        ticks_due(0, a, fixed_dt) == 0,
        ticks_due(leftover_after(0, a, fixed_dt), b, fixed_dt) == 1,
        leftover_after(leftover_after(0, a, fixed_dt), b, fixed_dt) == 0,
{
    vstd::arithmetic::div_mod::lemma_fundamental_div_mod_converse(a, fixed_dt, 0, a);
    vstd::arithmetic::div_mod::lemma_fundamental_div_mod_converse(a + b, fixed_dt, 1, 0);
}

/// However a stretch of time is cut into two frames, the world ends up the
/// same: the clock stands where one frame of the whole stretch would have
/// left it, and the terrain has taken as many ticks. This holds as long as
/// the player is the same in every tick: where they were when the frame
/// began, how fast they move, and whether they act.
pub proof fn lemma_frames_leave_the_same_world(
    leftover: int,
    a: int,
    b: int,
    fixed_dt: int,
    g: Grid,
    position: Vec3,
    velocity: Vec3,
    action: bool,
)
    requires
        0 < fixed_dt,
        0 <= leftover < fixed_dt,
        0 <= a,
        0 <= b,
    ensures
        ticks_due(leftover, a, fixed_dt) >= 0,
        ticks_due(leftover_after(leftover, a, fixed_dt), b, fixed_dt) >= 0,
        leftover_after(leftover_after(leftover, a, fixed_dt), b, fixed_dt) == leftover_after(
            leftover,
            a + b,
            fixed_dt,
        ),
        g.ticked_times(ticks_due(leftover, a, fixed_dt) as nat, position, velocity, action).ticked_times(
            ticks_due(leftover_after(leftover, a, fixed_dt), b, fixed_dt) as nat,
            position,
            velocity,
            action,
        ) == g.ticked_times(ticks_due(leftover, a + b, fixed_dt) as nat, position, velocity, action),
{
    lemma_frames_add_up(leftover, a, b, fixed_dt);
    let n1 = ticks_due(leftover, a, fixed_dt);
    let l1 = leftover_after(leftover, a, fixed_dt);
    let n2 = ticks_due(l1, b, fixed_dt);
    vstd::arithmetic::div_mod::lemma_div_pos_is_pos(leftover + a, fixed_dt);
    vstd::arithmetic::div_mod::lemma_div_pos_is_pos(l1 + b, fixed_dt);
    crate::grid::lemma_ticks_add_up(g, n1 as nat, n2 as nat, position, velocity, action);
}

} // verus!
