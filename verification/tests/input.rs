use portal_engine::game_state::GameStateT;
use portal_engine::keyboard::{
    apply_motion, displace, handle_event, handle_events, step_of, ActionT, KeyEventT, KeymapT,
    KeystatesT, MOVE_SPEED, TURN_SPEED,
};
use portal_engine::player::PlayerT;
use portal_engine::typedefs::Vec2T;

#[test]
fn standard_bindings() {
    let k = KeymapT::new();
    assert_eq!(k.lookup(119), Some(ActionT::Forward));
    assert_eq!(k.lookup(115), Some(ActionT::Backward));
    assert_eq!(k.lookup(97), Some(ActionT::TurnLeft));
    assert_eq!(k.lookup(100), Some(ActionT::TurnRight));
    assert_eq!(k.lookup(111), Some(ActionT::ToggleDebug));
    assert_eq!(k.lookup(27), Some(ActionT::Quit));
    assert_eq!(k.lookup(5), None);
}

#[test]
fn later_binding_wins() {
    let mut k = KeymapT::new();
    k.bind(119, ActionT::Quit);
    k.bind(5, ActionT::Forward);
    assert_eq!(k.lookup(119), Some(ActionT::Quit));
    assert_eq!(k.lookup(5), Some(ActionT::Forward));
    assert_eq!(k.lookup(27), Some(ActionT::Quit));
}

#[test]
fn quit_key_stops_the_run() {
    let keymap = KeymapT::new();
    let mut keys = KeystatesT::new();
    let mut g = GameStateT::new(640, 480, 60);
    let mut frames = 0;
    let pending = vec![
        vec![KeyEventT { key: 119, pressed: true }],
        vec![KeyEventT { key: 27, pressed: true }],
        vec![KeyEventT { key: 27, pressed: false }],
        vec![KeyEventT { key: 119, pressed: false }],
    ];
    let mut p = PlayerT::new(0, 0, 0, 0);
    let mut next = 0;
    while g.is_running {
        handle_events(&pending[next], &keymap, &mut keys, &mut g, &mut p, Vec2T::new(65536, 0));
        next += 1;
        frames += 1;
    }
    assert_eq!(frames, 2);
    assert!(!g.is_running);
    assert!(keys.quit);
    handle_event(&keymap, &mut keys, &mut g, KeyEventT { key: 27, pressed: false });
    assert!(!g.is_running);
    assert!(!keys.quit);
    handle_event(&keymap, &mut keys, &mut g, KeyEventT { key: 119, pressed: true });
    assert!(!g.is_running);
}

#[test]
fn debug_overlay_toggles_once_per_press() {
    let keymap = KeymapT::new();
    let mut keys = KeystatesT::new();
    let mut g = GameStateT::new(640, 480, 60);
    let down = KeyEventT { key: 111, pressed: true };
    let up = KeyEventT { key: 111, pressed: false };
    handle_event(&keymap, &mut keys, &mut g, down);
    assert!(g.is_debug_mode);
    handle_event(&keymap, &mut keys, &mut g, down);
    handle_event(&keymap, &mut keys, &mut g, down);
    assert!(g.is_debug_mode);
    handle_event(&keymap, &mut keys, &mut g, up);
    assert!(g.is_debug_mode);
    handle_event(&keymap, &mut keys, &mut g, down);
    assert!(!g.is_debug_mode);
    assert!(g.is_running);
}

#[test]
fn unbound_key_changes_nothing() {
    let keymap = KeymapT::new();
    let mut keys = KeystatesT::new();
    let mut g = GameStateT::new(640, 480, 60);
    handle_event(&keymap, &mut keys, &mut g, KeyEventT { key: 1, pressed: true });
    assert_eq!(keys, KeystatesT::new());
    assert!(g.is_running);
    assert!(!g.is_debug_mode);
}

#[test]
fn key_states_follow_events() {
    let keymap = KeymapT::new();
    let mut keys = KeystatesT::new();
    let mut g = GameStateT::new(640, 480, 60);
    handle_event(&keymap, &mut keys, &mut g, KeyEventT { key: 119, pressed: true });
    handle_event(&keymap, &mut keys, &mut g, KeyEventT { key: 97, pressed: true });
    assert!(keys.is_pressed(ActionT::Forward));
    assert!(keys.is_pressed(ActionT::TurnLeft));
    assert!(!keys.is_pressed(ActionT::Backward));
    handle_event(&keymap, &mut keys, &mut g, KeyEventT { key: 119, pressed: false });
    assert!(!keys.is_pressed(ActionT::Forward));
    keys.set(ActionT::TurnRight, true);
    assert!(keys.turn_right);
}

#[test]
fn step_scales_with_delta() {
    assert_eq!(MOVE_SPEED, 262144);
    assert_eq!(TURN_SPEED, 131072);
    assert_eq!(step_of(MOVE_SPEED, 500_000), 131072);
    assert_eq!(step_of(MOVE_SPEED, 0), 0);
    assert_eq!(step_of(MOVE_SPEED, 1_000_000), 262144);
    assert_eq!(step_of(MOVE_SPEED, 5_000_000), 262144);
    assert_eq!(step_of(3, 333_333), 0);
    assert_eq!(step_of(u64::MAX, 1_000_000), u64::MAX);
}

#[test]
fn displacement_rounds_towards_start_and_saturates() {
    assert_eq!(displace(100, 65536, 50, true), 150);
    assert_eq!(displace(100, 65536, 50, false), 50);
    assert_eq!(displace(100, -65536, 50, true), 50);
    assert_eq!(displace(100, -65536, 50, false), 150);
    assert_eq!(displace(0, 32768, 3, true), 1);
    assert_eq!(displace(0, -32768, 3, true), -1);
    assert_eq!(displace(i64::MAX, 65536, 50, true), i64::MAX);
    assert_eq!(displace(i64::MIN, 65536, 50, false), i64::MIN);
    assert_eq!(displace(0, i64::MIN, u64::MAX, true), i64::MIN);
    assert_eq!(displace(7, 0, 1000, true), 7);
}

#[test]
fn held_keys_move_the_player() {
    let mut keys = KeystatesT::new();
    keys.forward = true;
    let mut p = PlayerT::new(1000, 2000, 30, 0);
    apply_motion(&keys, &mut p, 500_000, Vec2T::new(65536, 0));
    assert_eq!(p, PlayerT::new(1000 + 131072, 2000, 30, 0));
    keys.forward = false;
    keys.backward = true;
    apply_motion(&keys, &mut p, 250_000, Vec2T::new(0, 65536));
    assert_eq!(p, PlayerT::new(1000 + 131072, 2000 - 65536, 30, 0));
    keys.backward = false;
    keys.turn_left = true;
    apply_motion(&keys, &mut p, 500_000, Vec2T::new(0, 65536));
    assert_eq!(p.dir_angle, 65536);
    keys.turn_left = false;
    keys.turn_right = true;
    apply_motion(&keys, &mut p, 1_000_000, Vec2T::new(0, 65536));
    assert_eq!(p.dir_angle, 65536 - 131072);
    assert_eq!(p.z, 30);
}

#[test]
fn events_then_motion_by_the_frame_delta() {
    let keymap = KeymapT::new();
    let mut keys = KeystatesT::new();
    let mut g = GameStateT::new(640, 480, 60);
    g.delta_time = 500_000;
    let mut p = PlayerT::new(0, 0, 0, 0);
    let events = vec![
        KeyEventT { key: 119, pressed: true },
        KeyEventT { key: 111, pressed: true },
    ];
    handle_events(&events, &keymap, &mut keys, &mut g, &mut p, Vec2T::new(0, -65536));
    assert_eq!(p.position, Vec2T::new(0, -131072));
    assert!(g.is_debug_mode);
    assert!(g.is_running);
    assert_eq!(g.delta_time, 500_000);
    let none: Vec<KeyEventT> = Vec::new();
    handle_events(&none, &keymap, &mut keys, &mut g, &mut p, Vec2T::new(0, -65536));
    assert_eq!(p.position, Vec2T::new(0, -262144));
}
