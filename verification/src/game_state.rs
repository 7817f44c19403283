use vstd::prelude::*;
use crate::renderer::SectorT;

verus! {

/// Microseconds in one second; every time in this module is in microseconds.
pub const MICROS_PER_SECOND: u64 = 1_000_000;

/// The state of one run of the engine.
pub struct GameStateT {
    pub scrn_w: u32,
    pub scrn_h: u32,
    pub target_fps: u32,
    pub is_running: bool,
    pub is_debug_mode: bool,
    pub elapsed_time: u64,
    pub delta_time: u64,
    pub frame_started: u64,
    pub sectors: Vec<SectorT>,
}

/// The time one frame is given at `fps` frames per second.
pub open spec fn frame_budget(fps: u32) -> int {
    1_000_000int / (fps as int)
}

/// The time between two clock samples, none where the clock went back.
pub open spec fn clamped_delta(earlier: u64, later: u64) -> int {
    if later >= earlier {
        later - earlier
    } else {
        0
    }
}

/// What is left of the frame's budget at `now`, none once it is spent.
pub open spec fn frame_remainder(fps: u32, started: u64, now: u64) -> int {
    if frame_budget(fps) > clamped_delta(started, now) {
        frame_budget(fps) - clamped_delta(started, now)
    } else {
        0
    }
}

impl GameStateT {
    /// A frame rate to pace by is set.
    pub open spec fn wf(&self) -> bool {
        self.target_fps > 0
    }

    /// A running state with no time passed and no sectors.
    pub fn new(width: u32, height: u32, target_fps: u32) -> (r: GameStateT)
        requires
            target_fps > 0,
        ensures
            r.wf(),
            r.scrn_w == width,
            r.scrn_h == height,
            r.target_fps == target_fps,
            r.is_running,
            !r.is_debug_mode,
            r.elapsed_time == 0,
            r.delta_time == 0,
            r.frame_started == 0,
            r.sectors@.len() == 0,
    {
        GameStateT {
            scrn_w: width,
            scrn_h: height,
            target_fps,
            is_running: true,
            is_debug_mode: false,
            elapsed_time: 0,
            delta_time: 0,
            frame_started: 0,
            sectors: Vec::new(),
        }
    }
}

/// The size of the half-resolution surface that the game is set up with:
/// half the screen's width and half its height.
pub fn logical_size(game_state: &GameStateT) -> (size: (u32, u32))
    ensures
        size.0 == game_state.scrn_w / 2,
        size.1 == game_state.scrn_h / 2,
{
    (game_state.scrn_w / 2, game_state.scrn_h / 2)
}

/// Marks the start of a frame at clock sample `now`: the delta is the time
/// since the previous start, zero where the clock went back, and the elapsed
/// time grows by it, stopping at the largest value it can hold.
pub fn frame_start(game_state: &mut GameStateT, now: u64)
    ensures
        final(game_state).frame_started == now,
        final(game_state).delta_time == clamped_delta(old(game_state).frame_started, now),
        final(game_state).elapsed_time == if old(game_state).elapsed_time + clamped_delta(
            old(game_state).frame_started,
            now,
        ) > u64::MAX {
            u64::MAX as int
        } else {
            old(game_state).elapsed_time + clamped_delta(old(game_state).frame_started, now)
        },
        final(game_state).scrn_w == old(game_state).scrn_w,
        final(game_state).scrn_h == old(game_state).scrn_h,
        final(game_state).target_fps == old(game_state).target_fps,
        final(game_state).is_running == old(game_state).is_running,
        final(game_state).is_debug_mode == old(game_state).is_debug_mode,
        final(game_state).sectors@ == old(game_state).sectors@,
{
    let delta: u64 = if now >= game_state.frame_started {
        now - game_state.frame_started
    } else {
        0
    };
    game_state.delta_time = delta;
    game_state.elapsed_time = if game_state.elapsed_time > u64::MAX - delta {
        u64::MAX
    } else {
        game_state.elapsed_time + delta
    };
    game_state.frame_started = now;
}

/// The time to sleep at clock sample `now` so that the frame fills its
/// budget.
pub fn frame_end(game_state: &GameStateT, now: u64) -> (sleep: u64)
    requires
        game_state.wf(),
    ensures
        sleep == frame_remainder(game_state.target_fps, game_state.frame_started, now),
{
    let budget: u64 = MICROS_PER_SECOND / (game_state.target_fps as u64);
    let spent: u64 = if now >= game_state.frame_started {
        now - game_state.frame_started
    } else {
        0
    };
    if budget > spent {
        budget - spent
    } else {
        0
    }
}

/// The delta of a frame is never negative, and is zero where the clock
/// went back.
pub proof fn lemma_delta_never_negative(earlier: u64, later: u64)
    ensures
        clamped_delta(earlier, later) >= 0,
        later < earlier ==> clamped_delta(earlier, later) == 0,
        later >= earlier ==> clamped_delta(earlier, later) == later - earlier,
{
}

/// A frame that starts at `started`, ends at `now` and then sleeps for the
/// remainder, is followed by a start no sooner than one budget later.
pub proof fn lemma_frames_keep_their_budget(fps: u32, started: u64, now: u64, next: u64)
    requires
        fps > 0,
        started <= now,
        next >= now + frame_remainder(fps, started, now),
    ensures
        clamped_delta(started, next) >= frame_budget(fps),
{
}

} // verus!
