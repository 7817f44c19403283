use portal_engine::game_state::GameStateT;
use portal_engine::player::PlayerT;
use portal_engine::compose::{composite, nearest_first, paint_sector};
use portal_engine::frame::{build_queue, render, sector_distance};
use portal_engine::planes::fill_planes;
use portal_engine::portal::{
    find_facing, has_edge, project_wall, traverse, view_of, window_through, ViewT, VisitT,
    WallSpanT, WindowT, MAX_DEPTH,
};
use portal_engine::renderer::SectorsQueueT;
use portal_engine::screen::Screen;
use portal_engine::projection::{
    clip_near, project_column, project_row, row_at, to_camera, CameraPointT, SegmentT,
};
use portal_engine::renderer::{create_portal, create_wall, SectorT};
use portal_engine::typedefs::{to_fixed, Vec2T};

fn unit(v: i32) -> i64 {
    to_fixed(v)
}

fn solid(ax: i32, ay: i32, bx: i32, by: i32) -> portal_engine::renderer::WallT {
    create_wall(unit(ax), unit(ay), unit(bx), unit(by), 0, 0, false)
}

fn two_rooms() -> GameStateT {
    two_rooms_on(640, 480)
}

fn screen_of(w: u32, h: u32) -> Screen {
    let mut s = Screen::new();
    s.init_screen(w, h);
    s
}

fn two_rooms_on(w: u32, h: u32) -> GameStateT {
    let mut g = GameStateT::new(w, h, 60);
    let mut a = SectorT::new(4, 0, 1, 2, 3);
    a.id = 0;
    a.add_wall(solid(0, 0, 10, 0));
    a.add_wall(create_portal(10, 0, 10, 10, 4, 0));
    a.add_wall(solid(10, 10, 0, 10));
    a.add_wall(solid(0, 10, 0, 0));
    let mut b = SectorT::new(4, 0, 4, 5, 6);
    b.id = 1;
    b.add_wall(solid(10, 0, 20, 0));
    b.add_wall(solid(20, 0, 20, 10));
    b.add_wall(solid(20, 10, 10, 10));
    b.add_wall(create_portal(10, 10, 10, 0, 4, 0));
    g.sectors.push(a);
    g.sectors.push(b);
    g
}

fn east() -> Vec2T {
    Vec2T::new(65536, 0)
}

#[test]
fn camera_space_of_a_point_ahead() {
    let eye = Vec2T::new(0, 0);
    let p = to_camera(Vec2T::new(unit(10), unit(-5)), eye, east());
    assert_eq!(p, CameraPointT { depth: unit(10), side: unit(5) });
    let q = to_camera(Vec2T::new(unit(10), unit(5)), eye, east());
    assert_eq!(q, CameraPointT { depth: unit(10), side: unit(-5) });
    let north = Vec2T::new(0, 65536);
    let r = to_camera(Vec2T::new(unit(3), unit(7)), Vec2T::new(unit(1), unit(1)), north);
    assert_eq!(r, CameraPointT { depth: unit(6), side: unit(2) });
    let behind = to_camera(Vec2T::new(unit(-4), 0), eye, east());
    assert_eq!(behind, CameraPointT { depth: unit(-4), side: 0 });
}

#[test]
fn camera_space_is_kept_within_the_view_limit() {
    let p = to_camera(Vec2T::new(i64::MAX, i64::MIN), Vec2T::new(i64::MIN, i64::MAX), east());
    assert_eq!(p, CameraPointT { depth: 0x100_0000_0000, side: 0x100_0000_0000 });
    let q = to_camera(Vec2T::new(unit(1), 0), Vec2T::new(0, 0), Vec2T::new(i64::MAX, 0));
    assert_eq!(q, CameraPointT { depth: unit(1), side: 0 });
}

#[test]
fn projection_matches_hand_computed_rows() {
    let view = ViewT {
        eye: Vec2T::new(0, 0),
        eye_z: unit(2),
        heading: east(),
        width: 640,
        height: 480,
        half_w: 320,
        half_h: 240,
        focal: 240,
    };
    let span = project_wall(
        Vec2T::new(unit(10), unit(-5)),
        Vec2T::new(unit(10), unit(5)),
        0,
        unit(4),
        &view,
    );
    let expected = WallSpanT { x0: 200, x1: 440, top0: 192, top1: 192, bot0: 288, bot1: 288 };
    assert_eq!(span, Some(expected));
    let by_hand_top = 240.0 - 240.0 * (4.0 - 2.0) / 10.0;
    let by_hand_bottom = 240.0 - 240.0 * (0.0 - 2.0) / 10.0;
    for x in 200..440 {
        let top = row_at(expected.top0, expected.top1, expected.x0, expected.x1, x);
        let bottom = row_at(expected.bot0, expected.bot1, expected.x0, expected.x1, x);
        assert!((top as f64 - by_hand_top).abs() <= 1.0);
        assert!((bottom as f64 - by_hand_bottom).abs() <= 1.0);
    }
}

#[test]
fn projection_of_a_slanted_wall() {
    let view = ViewT {
        eye: Vec2T::new(0, 0),
        eye_z: unit(1),
        heading: east(),
        width: 640,
        height: 480,
        half_w: 320,
        half_h: 240,
        focal: 240,
    };
    let span = project_wall(
        Vec2T::new(unit(4), unit(2)),
        Vec2T::new(unit(8), unit(-2)),
        0,
        unit(3),
        &view,
    );
    assert_eq!(
        span,
        Some(WallSpanT { x0: 200, x1: 380, top0: 120, top1: 180, bot0: 300, bot1: 270 })
    );
    assert_eq!(row_at(120, 180, 200, 380, 200), 120);
    assert_eq!(row_at(120, 180, 200, 380, 290), 150);
    assert_eq!(row_at(120, 180, 200, 380, 380), 180);
    assert_eq!(row_at(300, 270, 200, 380, 201), 299);
    assert_eq!(row_at(0, 10, 0, 3, 1), 3);
    assert_eq!(row_at(0, -10, 0, 3, 1), -4);
}

#[test]
fn columns_and_rows() {
    let p = CameraPointT { depth: unit(2), side: unit(1) };
    assert_eq!(project_column(p, 320, 240), 440);
    let q = CameraPointT { depth: unit(3), side: unit(-1) };
    assert_eq!(project_column(q, 320, 240), 240);
    let r = CameraPointT { depth: 3, side: -1 };
    assert_eq!(project_column(r, 0, 1), -1);
    assert_eq!(project_row(unit(3), unit(1), unit(4), 240, 240), 120);
    assert_eq!(project_row(0, unit(1), unit(4), 240, 240), 300);
    assert_eq!(project_row(i64::MAX, i64::MIN, 1, 0, i32::MAX), i32::MIN);
    assert_eq!(project_row(i64::MIN, i64::MAX, 1, 0, i32::MAX), i32::MAX);
}

#[test]
fn wall_behind_the_camera_is_not_seen() {
    let a = CameraPointT { depth: -unit(1), side: 0 };
    let b = CameraPointT { depth: 4095, side: unit(3) };
    assert_eq!(clip_near(SegmentT { a, b }), None);
    let view = view_of(&PlayerT::new(0, 0, 0, 0), east(), &GameStateT::new(640, 480, 60));
    assert_eq!(
        project_wall(Vec2T::new(unit(-3), unit(1)), Vec2T::new(unit(-3), unit(-1)), 0, unit(1), &view),
        None
    );
}

#[test]
fn wall_crossing_the_near_plane_is_cut_there() {
    let a = CameraPointT { depth: -4096, side: 0 };
    let b = CameraPointT { depth: 12288, side: 16384 };
    let cut = clip_near(SegmentT { a, b });
    assert_eq!(
        cut,
        Some(SegmentT { a: CameraPointT { depth: 4096, side: 8192 }, b })
    );
    let other = clip_near(SegmentT { a: b, b: a });
    assert_eq!(
        other,
        Some(SegmentT { a: b, b: CameraPointT { depth: 4096, side: 8192 } })
    );
    let whole = SegmentT { a: CameraPointT { depth: 4096, side: 1 }, b };
    assert_eq!(clip_near(whole), Some(whole));
}

#[test]
fn edge_on_wall_is_not_seen() {
    let view = view_of(&PlayerT::new(0, 0, 0, 0), east(), &GameStateT::new(640, 480, 60));
    assert_eq!(
        project_wall(Vec2T::new(unit(2), 0), Vec2T::new(unit(6), 0), 0, unit(1), &view),
        None
    );
}

#[test]
fn view_follows_player_and_screen() {
    let p = PlayerT::new(5, 6, 7, 8);
    let v = view_of(&p, east(), &GameStateT::new(640, 480, 60));
    assert_eq!(
        v,
        ViewT {
            eye: Vec2T::new(5, 6),
            eye_z: 7,
            heading: east(),
            width: 640,
            height: 480,
            half_w: 320,
            half_h: 240,
            focal: 240,
        }
    );
    let wide = view_of(&p, east(), &GameStateT::new(4000, u32::MAX, 60));
    assert_eq!(wide.width, 1024);
    assert_eq!(wide.half_w, 512);
    assert_eq!(wide.height, i32::MAX);
}

#[test]
fn windows_only_shrink() {
    let w = WindowT { lo: 10, hi: 100 };
    assert_eq!(w.narrowed(0, 50), WindowT { lo: 10, hi: 50 });
    assert_eq!(w.narrowed(20, 200), WindowT { lo: 20, hi: 100 });
    assert_eq!(w.narrowed(30, 40), WindowT { lo: 30, hi: 40 });
    assert!(w.narrowed(100, 200).is_empty());
    assert!(!w.is_empty());
    assert!(WindowT { lo: 5, hi: 5 }.is_empty());
}

#[test]
fn facing_sector_shares_the_edge() {
    let g = two_rooms();
    let portal = g.sectors[0].walls[1];
    assert!(has_edge(&g.sectors[1], portal));
    assert!(!has_edge(&g.sectors[1], g.sectors[0].walls[0]));
    assert_eq!(find_facing(&g.sectors, 0, portal), Some(1));
    assert_eq!(find_facing(&g.sectors, 1, g.sectors[1].walls[3]), Some(0));
    assert_eq!(find_facing(&g.sectors, 0, g.sectors[0].walls[0]), None);
    assert_eq!(find_facing(&g.sectors, 1, portal), Some(0));
}

#[test]
fn portal_window_is_the_portal_within_the_parent() {
    let g = two_rooms();
    let p = PlayerT::new(unit(5), unit(5), unit(2), 0);
    let view = view_of(&p, east(), &g);
    let whole = VisitT { sector: 0, depth: 0, window: WindowT { lo: 0, hi: 640 } };
    assert_eq!(window_through(&g.sectors, whole, 1, &view), Some(WindowT { lo: 80, hi: 560 }));
    assert_eq!(window_through(&g.sectors, whole, 0, &view), None);
    let narrow = VisitT { sector: 0, depth: 0, window: WindowT { lo: 100, hi: 120 } };
    assert_eq!(window_through(&g.sectors, narrow, 1, &view), Some(WindowT { lo: 100, hi: 120 }));
    let aside = VisitT { sector: 0, depth: 0, window: WindowT { lo: 600, hi: 640 } };
    assert_eq!(window_through(&g.sectors, aside, 1, &view), None);
}

#[test]
fn mutual_portals_give_a_finite_queue() {
    let g = two_rooms();
    let p = PlayerT::new(unit(5), unit(5), unit(2), 0);
    let mut screen = screen_of(640, 480);
    let set = render(&p, &g, east(), 0, &mut screen);
    assert_eq!(set.queue.num_sectors, 2);
    assert_eq!(set.order, vec![0, 1]);
    assert!(set.queue.num_sectors as u32 <= MAX_DEPTH + 1);
    assert_eq!(
        set.visits,
        vec![
            VisitT { sector: 0, depth: 0, window: WindowT { lo: 0, hi: 640 } },
            VisitT { sector: 1, depth: 1, window: WindowT { lo: 80, hi: 560 } },
        ]
    );
    assert_eq!(set.queue.sectors[0].id, 0);
    assert_eq!(set.queue.sectors[1].id, 1);
    assert_eq!(set.queue.sectors[0].dist, unit(10));
    assert_eq!(set.queue.sectors[1].dist, unit(10));
    assert_eq!(set.queue.sectors[1].walls, g.sectors[1].walls);
}

#[test]
fn portal_out_of_sight_is_not_traversed() {
    let g = two_rooms();
    let p = PlayerT::new(unit(5), unit(5), unit(2), 0);
    let west = Vec2T::new(-65536, 0);
    let mut screen = screen_of(640, 480);
    let set = render(&p, &g, west, 0, &mut screen);
    assert_eq!(set.queue.num_sectors, 1);
    assert_eq!(set.visits, vec![VisitT { sector: 0, depth: 0, window: WindowT { lo: 0, hi: 640 } }]);
}

#[test]
fn start_outside_the_world_renders_nothing() {
    let g = two_rooms();
    let p = PlayerT::new(unit(5), unit(5), unit(2), 0);
    let mut screen = screen_of(4, 4);
    screen.put_pixel(5, 77);
    let before = screen.screen_buffer.clone();
    let set = render(&p, &g, east(), 2, &mut screen);
    assert_eq!(set.queue.num_sectors, 0);
    assert!(set.visits.is_empty());
    assert!(set.order.is_empty());
    assert_eq!(screen.screen_buffer, before);
}

#[test]
fn traversal_stops_at_the_depth_bound() {
    let mut sectors: Vec<SectorT> = Vec::new();
    for i in 0..40 {
        let mut s = SectorT::new(4, 0, 1, 2, 3);
        s.id = i;
        if i > 0 {
            s.add_wall(create_portal(10 * i, 10, 10 * i, 0, 4, 0));
        }
        s.add_wall(create_portal(10 * (i + 1), 0, 10 * (i + 1), 10, 4, 0));
        sectors.push(s);
    }
    let mut g = GameStateT::new(640, 480, 60);
    g.sectors = sectors;
    let p = PlayerT::new(unit(5), unit(5), unit(2), 0);
    let view = view_of(&p, east(), &g);
    let visits = traverse(&g.sectors, 0, &view);
    assert_eq!(visits.len() as u32, MAX_DEPTH + 1);
    for (i, v) in visits.iter().enumerate() {
        assert_eq!(v.sector, i);
        assert_eq!(v.depth as usize, i);
    }
    let q = build_queue(&g.sectors, &visits, &view);
    assert_eq!(q.num_sectors as u32, MAX_DEPTH + 1);
}

#[test]
fn distance_is_to_the_nearest_first_corner() {
    let g = two_rooms();
    assert_eq!(sector_distance(&g.sectors[0], Vec2T::new(unit(1), unit(1))), unit(2));
    assert_eq!(sector_distance(&g.sectors[1], Vec2T::new(unit(1), unit(1))), unit(10));
    let empty = SectorT::new(1, 1, 1, 1, 1);
    assert_eq!(sector_distance(&empty, Vec2T::new(0, 0)), i64::MAX);
}

#[test]
fn tables_hold_the_rows_of_the_first_wall_in_each_column() {
    let g = two_rooms_on(8, 8);
    let p = PlayerT::new(unit(5), unit(5), unit(2), 0);
    let view = view_of(&p, east(), &g);
    let mut a = g.sectors[0].snapshot();
    fill_planes(&mut a, &view, WindowT { lo: 0, hi: 8 });
    for x in 0..8 {
        assert_eq!((a.ceilx_ylut.t[x], a.ceilx_ylut.b[x]), (0, 3));
        assert_eq!((a.floorx_ylut.t[x], a.floorx_ylut.b[x]), (6, 8));
        assert_eq!((a.portals_ceilx_ylut.t[x], a.portals_ceilx_ylut.b[x]), (3, 3));
        assert_eq!((a.portals_floorx_ylut.t[x], a.portals_floorx_ylut.b[x]), (6, 6));
    }
    assert_eq!((a.ceilx_ylut.b[8], a.floorx_ylut.b[8]), (0, 0));
    assert_eq!(a.walls, g.sectors[0].walls);
    let mut b = g.sectors[1].snapshot();
    fill_planes(&mut b, &view, WindowT { lo: 1, hi: 7 });
    let tops = [0, 3, 4, 4, 4, 4, 3, 0];
    let bottoms = [0, 5, 5, 5, 5, 5, 5, 0];
    let ends = [0, 8, 8, 8, 8, 8, 8, 0];
    for x in 0..8 {
        assert_eq!(b.ceilx_ylut.b[x], tops[x]);
        assert_eq!(b.floorx_ylut.t[x], bottoms[x]);
        assert_eq!(b.floorx_ylut.b[x], ends[x]);
        assert_eq!(b.portals_ceilx_ylut.b[x], 0);
        assert_eq!(b.portals_floorx_ylut.t[x], 0);
    }
}

#[test]
fn frame_shows_the_far_room_through_the_portal() {
    let g = two_rooms_on(8, 8);
    let p = PlayerT::new(unit(5), unit(5), unit(2), 0);
    let mut screen = screen_of(8, 8);
    let set = render(&p, &g, east(), 0, &mut screen);
    assert_eq!(set.order, vec![0, 1]);
    assert_eq!(set.visits[1].window, WindowT { lo: 0, hi: 8 });
    let expected: Vec<u32> = vec![
        2, 2, 2, 2, 2, 2, 2, 2,
        2, 2, 2, 2, 2, 2, 2, 2,
        2, 2, 2, 2, 2, 2, 2, 2,
        4, 4, 5, 5, 5, 5, 4, 4,
        4, 4, 4, 4, 4, 4, 4, 4,
        4, 6, 6, 6, 6, 6, 6, 6,
        3, 3, 3, 3, 3, 3, 3, 3,
        3, 3, 3, 3, 3, 3, 3, 3,
    ];
    assert_eq!(screen.screen_buffer, expected);
    assert_eq!(set.queue.sectors[0].ceilx_ylut.b[0], 3);
    assert_eq!(set.queue.sectors[1].ceilx_ylut.b[3], 4);
}

#[test]
fn solid_wall_ignores_portal_heights() {
    let mut g = GameStateT::new(8, 8, 60);
    let mut h = GameStateT::new(8, 8, 60);
    let mut a = SectorT::new(4, 0, 1, 2, 3);
    let mut b = SectorT::new(4, 0, 1, 2, 3);
    a.add_wall(create_wall(unit(10), 0, unit(10), unit(10), 5, 10, false));
    b.add_wall(create_wall(unit(10), 0, unit(10), unit(10), -777, 123456, false));
    g.sectors.push(a);
    h.sectors.push(b);
    let p = PlayerT::new(unit(5), unit(5), unit(2), 0);
    let mut first = screen_of(8, 8);
    let mut second = screen_of(8, 8);
    let one = render(&p, &g, east(), 0, &mut first);
    let two = render(&p, &h, east(), 0, &mut second);
    assert_eq!(first.screen_buffer, second.screen_buffer);
    assert_eq!(first.screen_buffer[3 * 8], 1);
    assert_eq!(first.screen_buffer[0], 2);
    assert_eq!(first.screen_buffer[7 * 8 + 7], 3);
    assert_eq!(one.visits, two.visits);
    assert_eq!(one.queue.sectors[0].ceilx_ylut.b, two.queue.sectors[0].ceilx_ylut.b);
    assert_eq!(one.queue.sectors[0].floorx_ylut.t, two.queue.sectors[0].floorx_ylut.t);
    assert_eq!(
        one.queue.sectors[0].portals_ceilx_ylut.b,
        two.queue.sectors[0].portals_ceilx_ylut.b
    );
}

#[test]
fn nearer_sectors_are_painted_first() {
    let mut q = SectorsQueueT::new();
    for (i, d) in [30i64, 10, 20, 10].iter().enumerate() {
        let mut s = SectorT::new(1, 0, 0, 0, 0);
        s.id = i as i32;
        s.dist = *d;
        portal_engine::renderer::add_sector_to_queue(&s, &mut q);
    }
    let order = nearest_first(&q);
    assert_eq!(order, vec![1, 3, 2, 0]);
    assert_eq!(order.len(), 4);
    let dists: Vec<i64> = order.iter().map(|i| q.sectors[*i].dist).collect();
    assert_eq!(dists, vec![10, 10, 20, 30]);
    let mut seen = order.clone();
    seen.sort();
    assert_eq!(seen, vec![0, 1, 2, 3]);
    assert!(nearest_first(&SectorsQueueT::new()).is_empty());
}

#[test]
fn painting_keeps_written_pixels_and_stays_in_the_window() {
    let view = ViewT {
        eye: Vec2T::new(0, 0),
        eye_z: 0,
        heading: east(),
        width: 3,
        height: 4,
        half_w: 1,
        half_h: 2,
        focal: 2,
    };
    let mut s = SectorT::new(1, 0, 7, 8, 9);
    for x in 0..3 {
        s.ceilx_ylut.set_column(x, 0, 1);
        s.floorx_ylut.set_column(x, 3, 4);
    }
    s.portals_ceilx_ylut.set_column(2, 1, 2);
    s.portals_floorx_ylut.set_column(2, 3, 3);
    let mut screen = screen_of(3, 5);
    let mut written = vec![false; 15];
    written[0] = true;
    paint_sector(&mut screen, &mut written, &s, WindowT { lo: 0, hi: 3 }, &view);
    assert_eq!(screen.screen_buffer, vec![0, 8, 8, 7, 7, 7, 7, 7, 0, 9, 9, 9, 0, 0, 0]);
    assert_eq!(
        written,
        vec![
            true, true, true, true, true, true, true, true, false, true, true, true, false,
            false, false
        ]
    );
    let mut other = screen_of(3, 4);
    let mut fresh = vec![false; 12];
    paint_sector(&mut other, &mut fresh, &s, WindowT { lo: 1, hi: 2 }, &view);
    assert_eq!(other.screen_buffer, vec![0, 8, 0, 0, 7, 0, 0, 7, 0, 0, 9, 0]);
}

#[test]
fn composite_paints_every_sector_through_its_window() {
    let view = ViewT {
        eye: Vec2T::new(0, 0),
        eye_z: 0,
        heading: east(),
        width: 2,
        height: 2,
        half_w: 1,
        half_h: 1,
        focal: 1,
    };
    let mut near = SectorT::new(1, 0, 10, 11, 12);
    near.dist = 5;
    near.ceilx_ylut.set_column(0, 0, 1);
    near.floorx_ylut.set_column(0, 2, 2);
    let mut far = SectorT::new(1, 0, 20, 21, 22);
    far.dist = 9;
    for x in 0..2 {
        far.ceilx_ylut.set_column(x, 0, 0);
        far.floorx_ylut.set_column(x, 1, 2);
    }
    let mut q = SectorsQueueT::new();
    portal_engine::renderer::add_sector_to_queue(&far, &mut q);
    portal_engine::renderer::add_sector_to_queue(&near, &mut q);
    let visits = vec![
        VisitT { sector: 0, depth: 0, window: WindowT { lo: 0, hi: 2 } },
        VisitT { sector: 1, depth: 1, window: WindowT { lo: 0, hi: 1 } },
    ];
    let mut screen = screen_of(2, 2);
    let order = composite(&mut screen, &q, &visits, &view);
    assert_eq!(order, vec![1, 0]);
    assert_eq!(screen.screen_buffer, vec![11, 20, 10, 22]);
}
