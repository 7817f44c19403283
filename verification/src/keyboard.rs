use vstd::prelude::*;
use crate::game_state::GameStateT;
use crate::player::PlayerT;
use crate::typedefs::Vec2T;

verus! {

/// Forward and backward speed, in fixed-point world units per second.
pub const MOVE_SPEED: u64 = 262144;

/// Turning speed, in fixed-point radians per second.
pub const TURN_SPEED: u64 = 131072;

/// The longest time, in microseconds, that one frame's motion accounts for.
pub const MAX_STEP_TIME: u64 = 1_000_000;

/// What a key can ask of the engine.
#[derive(Clone, Copy, Debug, PartialEq, Eq, Structural)]
pub enum ActionT {
    Forward,
    Backward,
    TurnLeft,
    TurnRight,
    ToggleDebug,
    Quit,
}

/// One key and the action it stands for.
#[derive(Clone, Copy, Debug, PartialEq, Eq, Structural)]
pub struct KeyBindingT {
    pub key: i32,
    pub action: ActionT,
}

/// One key going down or up.
#[derive(Clone, Copy, Debug, PartialEq, Eq, Structural)]
pub struct KeyEventT {
    pub key: i32,
    pub pressed: bool,
}

/// The action bound to `key`; of several bindings of one key the last
/// counts.
pub open spec fn spec_lookup(bindings: Seq<KeyBindingT>, key: i32) -> Option<ActionT>
    decreases bindings.len(),
{
    if bindings.len() == 0 {
        None
    } else if bindings.last().key == key {
        Some(bindings.last().action)
    } else {
        spec_lookup(bindings.drop_last(), key)
    }
}

/// The table from keys to actions.
pub struct KeymapT {
    pub bindings: Vec<KeyBindingT>,
}

impl KeymapT {
    /// The standard bindings: `w`, `s`, `a`, `d` to move and turn, `o` for
    /// the debug overlay, escape to quit.
    pub fn new() -> (r: KeymapT)
        ensures
            r.bindings@ == seq![
                KeyBindingT { key: 119, action: ActionT::Forward },
                KeyBindingT { key: 115, action: ActionT::Backward },
                KeyBindingT { key: 97, action: ActionT::TurnLeft },
                KeyBindingT { key: 100, action: ActionT::TurnRight },
                KeyBindingT { key: 111, action: ActionT::ToggleDebug },
                KeyBindingT { key: 27, action: ActionT::Quit },
            ],
    {
        let mut bindings: Vec<KeyBindingT> = Vec::new();
        bindings.push(KeyBindingT { key: 119, action: ActionT::Forward });
        bindings.push(KeyBindingT { key: 115, action: ActionT::Backward });
        bindings.push(KeyBindingT { key: 97, action: ActionT::TurnLeft });
        bindings.push(KeyBindingT { key: 100, action: ActionT::TurnRight });
        bindings.push(KeyBindingT { key: 111, action: ActionT::ToggleDebug });
        bindings.push(KeyBindingT { key: 27, action: ActionT::Quit });
        proof {
            assert(bindings@ =~= seq![
                KeyBindingT { key: 119, action: ActionT::Forward },
                KeyBindingT { key: 115, action: ActionT::Backward },
                KeyBindingT { key: 97, action: ActionT::TurnLeft },
                KeyBindingT { key: 100, action: ActionT::TurnRight },
                KeyBindingT { key: 111, action: ActionT::ToggleDebug },
                KeyBindingT { key: 27, action: ActionT::Quit },
            ]);
        }
        KeymapT { bindings }
    }

    /// Binds `key` to `action`, ahead of any earlier binding of that key.
    pub fn bind(&mut self, key: i32, action: ActionT)
        ensures
            final(self).bindings@ == old(self).bindings@.push(KeyBindingT { key, action }),
            spec_lookup(final(self).bindings@, key) == Some(action),
    {
        self.bindings.push(KeyBindingT { key, action });
        proof {
            assert(self.bindings@.last() == (KeyBindingT { key, action }));
        }
    }

    /// The action that `key` stands for, if it is bound.
    pub fn lookup(&self, key: i32) -> (r: Option<ActionT>)
        ensures
            r == spec_lookup(self.bindings@, key),
    {
        let mut found: Option<ActionT> = None;
        let mut i: usize = 0;
        while i < self.bindings.len()
            invariant
                0 <= i <= self.bindings@.len(),
                found == spec_lookup(self.bindings@.take(i as int), key),
            decreases self.bindings@.len() - i,
        {
            proof {
                assert(self.bindings@.take(i as int + 1).drop_last() =~= self.bindings@.take(
                    i as int,
                ));
            }
            if self.bindings[i].key == key {
                found = Some(self.bindings[i].action);
            }
            i += 1;
        }
        proof {
            assert(self.bindings@.take(i as int) =~= self.bindings@);
        }
        found
    }
}

/// Which actions are held down.
#[derive(Clone, Copy, Debug, PartialEq, Eq, Structural)]
pub struct KeystatesT {
    pub forward: bool,
    pub backward: bool,
    pub turn_left: bool,
    pub turn_right: bool,
    pub toggle_debug: bool,
    pub quit: bool,
}

impl KeystatesT {
    /// Whether `action` is held down.
    pub open spec fn spec_is_pressed(&self, action: ActionT) -> bool {
        match action {
            ActionT::Forward => self.forward,
            ActionT::Backward => self.backward,
            ActionT::TurnLeft => self.turn_left,
            ActionT::TurnRight => self.turn_right,
            ActionT::ToggleDebug => self.toggle_debug,
            ActionT::Quit => self.quit,
        }
    }

    /// These states with `action` set to `pressed`.
    pub open spec fn spec_with(&self, action: ActionT, pressed: bool) -> KeystatesT {
        match action {
            ActionT::Forward => KeystatesT { forward: pressed, ..*self },
            ActionT::Backward => KeystatesT { backward: pressed, ..*self },
            ActionT::TurnLeft => KeystatesT { turn_left: pressed, ..*self },
            ActionT::TurnRight => KeystatesT { turn_right: pressed, ..*self },
            ActionT::ToggleDebug => KeystatesT { toggle_debug: pressed, ..*self },
            ActionT::Quit => KeystatesT { quit: pressed, ..*self },
        }
    }

    /// Every action released.
    pub fn new() -> (r: KeystatesT)
        ensures
            forall|a: ActionT| !r.spec_is_pressed(a),
    {
        KeystatesT {
            forward: false,
            backward: false,
            turn_left: false,
            turn_right: false,
            toggle_debug: false,
            quit: false,
        }
    }

    /// Whether `action` is held down.
    #[verifier::when_used_as_spec(spec_is_pressed)]
    pub fn is_pressed(&self, action: ActionT) -> (r: bool)
        ensures
            r == self.spec_is_pressed(action),
    {
        match action {
            ActionT::Forward => self.forward,
            ActionT::Backward => self.backward,
            ActionT::TurnLeft => self.turn_left,
            ActionT::TurnRight => self.turn_right,
            ActionT::ToggleDebug => self.toggle_debug,
            ActionT::Quit => self.quit,
        }
    }

    /// Sets `action` to `pressed` and leaves the others.
    pub fn set(&mut self, action: ActionT, pressed: bool)
        ensures
            *final(self) == old(self).spec_with(action, pressed),
    {
        match action {
            ActionT::Forward => { self.forward = pressed; },
            ActionT::Backward => { self.backward = pressed; },
            ActionT::TurnLeft => { self.turn_left = pressed; },
            ActionT::TurnRight => { self.turn_right = pressed; },
            ActionT::ToggleDebug => { self.toggle_debug = pressed; },
            ActionT::Quit => { self.quit = pressed; },
        }
    }
}

/// What input decides: the keys held, whether the run goes on, and whether
/// the debug overlay shows.
pub struct InputStateT {
    pub keys: KeystatesT,
    pub running: bool,
    pub debug: bool,
}

/// The state after one event. A key without a binding changes nothing. A
/// bound key sets its action's state; going down from released, quit stops
/// the run and the overlay key flips the overlay.
pub open spec fn after_event(bindings: Seq<KeyBindingT>, st: InputStateT, ev: KeyEventT)
    -> InputStateT {
    match spec_lookup(bindings, ev.key) {
        None => st,
        Some(action) => {
            let fresh = ev.pressed && !st.keys.spec_is_pressed(action);
            InputStateT {
                keys: st.keys.spec_with(action, ev.pressed),
                running: st.running && !(fresh && action == ActionT::Quit),
                debug: if fresh && action == ActionT::ToggleDebug {
                    !st.debug
                } else {
                    st.debug
                },
            }
        },
    }
}

/// The state after a run of events, taken in order.
pub open spec fn after_events(bindings: Seq<KeyBindingT>, st: InputStateT, evs: Seq<KeyEventT>)
    -> InputStateT
    decreases evs.len(),
{
    if evs.len() == 0 {
        st
    } else {
        after_event(bindings, after_events(bindings, st, evs.drop_last()), evs.last())
    }
}

/// Takes one event into the key states and the game state.
pub fn handle_event(
    keymap: &KeymapT,
    keystates: &mut KeystatesT,
    game_state: &mut GameStateT,
    ev: KeyEventT,
)
    ensures
        (InputStateT {
            keys: *final(keystates),
            running: final(game_state).is_running,
            debug: final(game_state).is_debug_mode,
        }) == after_event(
            keymap.bindings@,
            InputStateT {
                keys: *old(keystates),
                running: old(game_state).is_running,
                debug: old(game_state).is_debug_mode,
            },
            ev,
        ),
        final(game_state).scrn_w == old(game_state).scrn_w,
        final(game_state).scrn_h == old(game_state).scrn_h,
        final(game_state).target_fps == old(game_state).target_fps,
        final(game_state).elapsed_time == old(game_state).elapsed_time,
        final(game_state).delta_time == old(game_state).delta_time,
        final(game_state).frame_started == old(game_state).frame_started,
        final(game_state).sectors@ == old(game_state).sectors@,
{
    match keymap.lookup(ev.key) {
        None => {},
        Some(action) => {
            let fresh = ev.pressed && !keystates.is_pressed(action);
            if fresh {
                match action {
                    ActionT::Quit => { game_state.is_running = false; },
                    ActionT::ToggleDebug => {
                        game_state.is_debug_mode = !game_state.is_debug_mode;
                    },
                    _ => {},
                }
            }
            keystates.set(action, ev.pressed);
        },
    }
}

/// `v` kept within what a coordinate can hold.
pub open spec fn clamp_i64(v: int) -> int {
    if v < i64::MIN {
        i64::MIN as int
    } else if v > i64::MAX {
        i64::MAX as int
    } else {
        v
    }
}

/// The distance covered at `speed` units per second in `delta` microseconds,
/// of which no more than `MAX_STEP_TIME` count.
pub open spec fn step_length(speed: u64, delta: u64) -> int {
    if delta > 1_000_000 {
        speed as int
    } else {
        (speed * delta) / 1_000_000
    }
}

/// `pos` moved by `step` along a direction whose component is `dir`
/// (`FIXED_ONE` for full length), towards it or away from it, rounded
/// towards `pos` and kept inside the range of the coordinate.
pub open spec fn displaced(pos: i64, dir: i64, step: u64, towards: bool) -> int {
    let magnitude = if dir >= 0 {
        (dir * step) / 65536
    } else {
        ((-dir) * step) / 65536
    };
    if (dir >= 0) == towards {
        clamp_i64(pos + magnitude)
    } else {
        clamp_i64(pos - magnitude)
    }
}

/// The distance covered at `speed` in `delta` microseconds; see `step_length`.
pub fn step_of(speed: u64, delta: u64) -> (r: u64)
    ensures
        r == step_length(speed, delta),
{
    if delta > MAX_STEP_TIME {
        speed
    } else {
        assert(speed * delta <= speed * 1_000_000) by (nonlinear_arith)
            requires
                delta <= 1_000_000,
        ;
        let wide: u128 = (speed as u128) * (delta as u128);
        assert((speed * delta) / 1_000_000 <= speed) by (nonlinear_arith)
            requires
                speed * delta <= speed * 1_000_000,
        ;
        (wide / 1_000_000) as u64
    }
}

/// Moves one coordinate along a direction; see `displaced`.
pub fn displace(pos: i64, dir: i64, step: u64, towards: bool) -> (r: i64)
    ensures
        r == displaced(pos, dir, step, towards),
{
    let size: u128 = if dir >= 0 {
        dir as u128
    } else {
        (-(dir as i128)) as u128
    };
    assert(size * step <= 0x8000_0000_0000_0000 * 0xffff_ffff_ffff_ffff) by (nonlinear_arith)
        requires
            0 <= size <= 0x8000_0000_0000_0000,
            0 <= step <= 0xffff_ffff_ffff_ffff,
    ;
    let magnitude: u128 = size * (step as u128) / 65536;
    let wide: i128 = if (dir >= 0) == towards {
        pos as i128 + magnitude as i128
    } else {
        pos as i128 - magnitude as i128
    };
    if wide < i64::MIN as i128 {
        i64::MIN
    } else if wide > i64::MAX as i128 {
        i64::MAX
    } else {
        wide as i64
    }
}

/// The player after one frame of held keys: turned left and right by the
/// turning step, moved forward and backward along `heading` by the moving
/// step. `heading` is the unit vector of the angle the frame began with.
pub open spec fn moved_player(keys: KeystatesT, p: PlayerT, delta: u64, heading: Vec2T)
    -> PlayerT {
    let turn = step_length(TURN_SPEED, delta) as u64;
    let walk = step_length(MOVE_SPEED, delta) as u64;
    let a1 = if keys.turn_left {
        displaced(p.dir_angle, 65536, turn, true) as i64
    } else {
        p.dir_angle
    };
    let a2 = if keys.turn_right {
        displaced(a1, 65536, turn, false) as i64
    } else {
        a1
    };
    let x1 = if keys.forward {
        displaced(p.position.x, heading.x, walk, true) as i64
    } else {
        p.position.x
    };
    let y1 = if keys.forward {
        displaced(p.position.y, heading.y, walk, true) as i64
    } else {
        p.position.y
    };
    let x2 = if keys.backward {
        displaced(x1, heading.x, walk, false) as i64
    } else {
        x1
    };
    let y2 = if keys.backward {
        displaced(y1, heading.y, walk, false) as i64
    } else {
        y1
    };
    PlayerT { position: Vec2T { x: x2, y: y2 }, z: p.z, dir_angle: a2 }
}

/// Applies the held motion keys to the player for a frame of `delta`
/// microseconds.
pub fn apply_motion(keystates: &KeystatesT, player: &mut PlayerT, delta: u64, heading: Vec2T)
    ensures
        *final(player) == moved_player(*keystates, *old(player), delta, heading),
{
    let turn: u64 = step_of(TURN_SPEED, delta);
    let walk: u64 = step_of(MOVE_SPEED, delta);
    if keystates.turn_left {
        player.dir_angle = displace(player.dir_angle, 65536, turn, true);
    }
    if keystates.turn_right {
        player.dir_angle = displace(player.dir_angle, 65536, turn, false);
    }
    if keystates.forward {
        player.position.x = displace(player.position.x, heading.x, walk, true);
        player.position.y = displace(player.position.y, heading.y, walk, true);
    }
    if keystates.backward {
        player.position.x = displace(player.position.x, heading.x, walk, false);
        player.position.y = displace(player.position.y, heading.y, walk, false);
    }
}

/// Takes the pending events in order, then moves the player by the keys
/// that are held, scaled by the frame's delta.
pub fn handle_events(
    events: &Vec<KeyEventT>,
    keymap: &KeymapT,
    keystates: &mut KeystatesT,
    game_state: &mut GameStateT,
    player: &mut PlayerT,
    heading: Vec2T,
)
    ensures
        (InputStateT {
            keys: *final(keystates),
            running: final(game_state).is_running,
            debug: final(game_state).is_debug_mode,
        }) == after_events(
            keymap.bindings@,
            InputStateT {
                keys: *old(keystates),
                running: old(game_state).is_running,
                debug: old(game_state).is_debug_mode,
            },
            events@,
        ),
        *final(player) == moved_player(
            *final(keystates),
            *old(player),
            old(game_state).delta_time,
            heading,
        ),
        final(game_state).scrn_w == old(game_state).scrn_w,
        final(game_state).scrn_h == old(game_state).scrn_h,
        final(game_state).target_fps == old(game_state).target_fps,
        final(game_state).elapsed_time == old(game_state).elapsed_time,
        final(game_state).delta_time == old(game_state).delta_time,
        final(game_state).frame_started == old(game_state).frame_started,
        final(game_state).sectors@ == old(game_state).sectors@,
{
    let ghost start = InputStateT {
        keys: *keystates,
        running: game_state.is_running,
        debug: game_state.is_debug_mode,
    };
    let mut i: usize = 0;
    while i < events.len()
        invariant
            0 <= i <= events@.len(),
            (InputStateT {
                keys: *keystates,
                running: game_state.is_running,
                debug: game_state.is_debug_mode,
            }) == after_events(keymap.bindings@, start, events@.take(i as int)),
            game_state.scrn_w == old(game_state).scrn_w,
            game_state.scrn_h == old(game_state).scrn_h,
            game_state.target_fps == old(game_state).target_fps,
            game_state.elapsed_time == old(game_state).elapsed_time,
            game_state.delta_time == old(game_state).delta_time,
            game_state.frame_started == old(game_state).frame_started,
            game_state.sectors@ == old(game_state).sectors@,
            *player == *old(player),
        decreases events@.len() - i,
    {
        proof {
            assert(events@.take(i as int + 1).drop_last() =~= events@.take(i as int));
        }
        handle_event(keymap, keystates, game_state, events[i]);
        i += 1;
    }
    proof {
        assert(events@.take(i as int) =~= events@);
    }
    apply_motion(keystates, player, game_state.delta_time, heading);
}

/// A press of the quit key, from released, stops the run.
pub proof fn lemma_quit_press_stops(bindings: Seq<KeyBindingT>, st: InputStateT, ev: KeyEventT)
    requires
        spec_lookup(bindings, ev.key) == Some(ActionT::Quit),
        ev.pressed,
        !st.keys.quit,
    ensures
        !after_event(bindings, st, ev).running,
        after_event(bindings, st, ev).keys.quit,
{
}

/// An edge-triggered action fires once per press: while its key stays
/// down, further key-down events change neither the run nor the overlay.
pub proof fn lemma_held_key_fires_once(bindings: Seq<KeyBindingT>, st: InputStateT, ev: KeyEventT)
    requires
        ev.pressed,
        spec_lookup(bindings, ev.key) is Some,
        st.keys.spec_is_pressed(spec_lookup(bindings, ev.key).unwrap()),
    ensures
        after_event(bindings, st, ev).running == st.running,
        after_event(bindings, st, ev).debug == st.debug,
        after_event(bindings, st, ev).keys == st.keys,
{
}

/// Once stopped, no run of events starts the run again.
pub proof fn lemma_stopped_stays_stopped(
    bindings: Seq<KeyBindingT>,
    st: InputStateT,
    evs: Seq<KeyEventT>,
)
    requires
        !st.running,
    ensures
        !after_events(bindings, st, evs).running,
    decreases evs.len(),
{
    if evs.len() > 0 {
        lemma_stopped_stays_stopped(bindings, st, evs.drop_last());
    }
}

} // verus!
