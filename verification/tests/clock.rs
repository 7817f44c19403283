use portal_engine::game_state::{frame_end, frame_start, GameStateT};
use portal_engine::utils::u_rand_range_ui;

#[test]
fn new_state_runs() {
    let g = GameStateT::new(1024, 768, 120);
    assert_eq!((g.scrn_w, g.scrn_h, g.target_fps), (1024, 768, 120));
    assert!(g.is_running);
    assert!(!g.is_debug_mode);
    assert_eq!((g.elapsed_time, g.delta_time, g.frame_started), (0, 0, 0));
    assert!(g.sectors.is_empty());
}

#[test]
fn delta_is_time_since_previous_start() {
    let mut g = GameStateT::new(640, 480, 60);
    frame_start(&mut g, 1_000);
    assert_eq!(g.delta_time, 1_000);
    frame_start(&mut g, 17_666);
    assert_eq!(g.delta_time, 16_666);
    assert_eq!(g.elapsed_time, 17_666);
    assert_eq!(g.frame_started, 17_666);
}

#[test]
fn delta_is_zero_when_clock_goes_back() {
    let mut g = GameStateT::new(640, 480, 60);
    frame_start(&mut g, 50_000);
    frame_start(&mut g, 40_000);
    assert_eq!(g.delta_time, 0);
    assert_eq!(g.elapsed_time, 50_000);
    assert_eq!(g.frame_started, 40_000);
    frame_start(&mut g, 41_000);
    assert_eq!(g.delta_time, 1_000);
}

#[test]
fn elapsed_time_stops_at_its_largest_value() {
    let mut g = GameStateT::new(640, 480, 60);
    g.elapsed_time = u64::MAX - 5;
    frame_start(&mut g, 100);
    assert_eq!(g.delta_time, 100);
    assert_eq!(g.elapsed_time, u64::MAX);
}

#[test]
fn frame_end_fills_the_budget_at_120_fps() {
    let mut g = GameStateT::new(1024, 768, 120);
    frame_start(&mut g, 1_000);
    let sleep = frame_end(&g, 3_000);
    assert_eq!(sleep, 6_333);
    assert!(3_000 + sleep - 1_000 >= 1_000_000 / 120);
    assert_eq!(frame_end(&g, 1_000), 8_333);
    assert_eq!(frame_end(&g, 9_333), 0);
    assert_eq!(frame_end(&g, 9_332), 1);
    assert_eq!(frame_end(&g, 1_000_000), 0);
    assert_eq!(frame_end(&g, 0), 8_333);
}

#[test]
fn random_number_is_in_range() {
    let mut seen_other_than_min = false;
    for _ in 0..400 {
        let r = u_rand_range_ui(10, 20);
        assert!(r >= 10 && r < 20);
        if r != 10 {
            seen_other_than_min = true;
        }
    }
    assert!(seen_other_than_min);
    assert_eq!(u_rand_range_ui(7, 8), 7);
}
