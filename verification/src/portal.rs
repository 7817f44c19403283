use vstd::prelude::*;
use crate::projection::{
    clip_near, project_column, project_row, spec_clip_near, spec_project_column,
    spec_project_row, spec_to_camera, to_camera, SegmentT,
};
use crate::game_state::GameStateT;
use crate::player::PlayerT;
use crate::renderer::{SectorT, WallT};
use vstd::set_lib::{lemma_int_range, lemma_len_subset, set_int_range};
use crate::typedefs::Vec2T;

verus! {

/// How many portals deep a frame looks; what lies deeper is not drawn.
pub const MAX_DEPTH: u32 = 32;

/// The most sectors one traversal visits.
pub const MAX_VISITS: usize = 1024;

/// Where the camera stands and how it maps the world to the screen.
#[derive(Clone, Copy, Debug, PartialEq, Eq, Structural)]
pub struct ViewT {
    pub eye: Vec2T,
    pub eye_z: i64,
    pub heading: Vec2T,
    pub width: i32,
    pub height: i32,
    pub half_w: i32,
    pub half_h: i32,
    pub focal: i32,
}

impl ViewT {
    /// The screen is no wider than a lookup table and not negative in
    /// either direction.
    pub open spec fn wf(&self) -> bool {
        &&& 0 <= self.width <= 1024
        &&& 0 <= self.height
    }
}

/// A run of screen columns, from `lo` up to but without `hi`.
#[derive(Clone, Copy, Debug, PartialEq, Eq, Structural)]
pub struct WindowT {
    pub lo: i32,
    pub hi: i32,
}

impl WindowT {
    /// The window holds no column.
    pub open spec fn spec_is_empty(&self) -> bool {
        self.lo >= self.hi
    }

    /// The columns of this window that also lie from `lo` up to `hi`.
    pub open spec fn spec_narrowed(&self, lo: i32, hi: i32) -> WindowT {
        WindowT {
            lo: if self.lo >= lo {
                self.lo
            } else {
                lo
            },
            hi: if self.hi <= hi {
                self.hi
            } else {
                hi
            },
        }
    }

    /// Whether the window holds no column.
    #[verifier::when_used_as_spec(spec_is_empty)]
    pub fn is_empty(&self) -> (r: bool)
        ensures
            r == self.spec_is_empty(),
    {
        self.lo >= self.hi
    }

    /// The columns of this window that also lie from `lo` up to `hi`.
    #[verifier::when_used_as_spec(spec_narrowed)]
    pub fn narrowed(&self, lo: i32, hi: i32) -> (r: WindowT)
        ensures
            r == self.spec_narrowed(lo, hi),
    {
        WindowT {
            lo: if self.lo >= lo {
                self.lo
            } else {
                lo
            },
            hi: if self.hi <= hi {
                self.hi
            } else {
                hi
            },
        }
    }
}

/// A wall face on the screen: its first column and the column after its
/// last, and the rows of its upper and lower edge at both.
#[derive(Clone, Copy, Debug, PartialEq, Eq, Structural)]
pub struct WallSpanT {
    pub x0: i32,
    pub x1: i32,
    pub top0: i32,
    pub top1: i32,
    pub bot0: i32,
    pub bot1: i32,
}

/// The face between heights `low` and `high` over the edge from `a` to
/// `b`, as the view sees it; none where the edge is in front of the near
/// plane or seen edge-on.
pub open spec fn spec_project_wall(a: Vec2T, b: Vec2T, low: i64, high: i64, view: ViewT)
    -> Option<WallSpanT> {
    let seg = SegmentT {
        a: spec_to_camera(a, view.eye, view.heading),
        b: spec_to_camera(b, view.eye, view.heading),
    };
    match spec_clip_near(seg) {
        None => None,
        Some(s) => {
            let xa = spec_project_column(s.a, view.half_w, view.focal) as i32;
            let xb = spec_project_column(s.b, view.half_w, view.focal) as i32;
            let ta = spec_project_row(high, view.eye_z, s.a.depth, view.half_h, view.focal) as i32;
            let tb = spec_project_row(high, view.eye_z, s.b.depth, view.half_h, view.focal) as i32;
            let ba = spec_project_row(low, view.eye_z, s.a.depth, view.half_h, view.focal) as i32;
            let bb = spec_project_row(low, view.eye_z, s.b.depth, view.half_h, view.focal) as i32;
            if xa == xb {
                None
            } else if xa < xb {
                Some(WallSpanT { x0: xa, x1: xb, top0: ta, top1: tb, bot0: ba, bot1: bb })
            } else {
                Some(WallSpanT { x0: xb, x1: xa, top0: tb, top1: ta, bot0: bb, bot1: ba })
            }
        },
    }
}

/// Projects the face over an edge onto the screen; see `spec_project_wall`.
pub fn project_wall(a: Vec2T, b: Vec2T, low: i64, high: i64, view: &ViewT) -> (r: Option<
    WallSpanT,
>)
    ensures
        r == spec_project_wall(a, b, low, high, *view),
        r matches Some(span) ==> span.x0 < span.x1,
{
    let seg = SegmentT {
        a: to_camera(a, view.eye, view.heading),
        b: to_camera(b, view.eye, view.heading),
    };
    match clip_near(seg) {
        None => None,
        Some(s) => {
            let xa: i32 = project_column(s.a, view.half_w, view.focal);
            let xb: i32 = project_column(s.b, view.half_w, view.focal);
            let ta: i32 = project_row(high, view.eye_z, s.a.depth, view.half_h, view.focal);
            let tb: i32 = project_row(high, view.eye_z, s.b.depth, view.half_h, view.focal);
            let ba: i32 = project_row(low, view.eye_z, s.a.depth, view.half_h, view.focal);
            let bb: i32 = project_row(low, view.eye_z, s.b.depth, view.half_h, view.focal);
            if xa == xb {
                None
            } else if xa < xb {
                Some(WallSpanT { x0: xa, x1: xb, top0: ta, top1: tb, bot0: ba, bot1: bb })
            } else {
                Some(WallSpanT { x0: xb, x1: xa, top0: tb, top1: ta, bot0: bb, bot1: ba })
            }
        },
    }
}

/// The two walls run between the same two points.
pub open spec fn shares_edge(w: WallT, v: WallT) -> bool {
    (w.a == v.a && w.b == v.b) || (w.a == v.b && w.b == v.a)
}

/// One of `walls` runs along `w`.
pub open spec fn faces(walls: Seq<WallT>, w: WallT) -> bool {
    exists|j: int| 0 <= j < walls.len() && shares_edge(w, #[trigger] walls[j])
}

/// `t` is the sector that the wall `w` of sector `s` opens onto: the first
/// sector other than `s` with a wall along `w`.
pub open spec fn is_facing(sectors: Seq<SectorT>, s: int, w: WallT, t: int) -> bool {
    &&& 0 <= t < sectors.len()
    &&& t != s
    &&& faces(sectors[t].walls@, w)
    &&& forall|u: int| 0 <= u < t && u != s ==> !faces(#[trigger] sectors[u].walls@, w)
}

/// The sector that the wall `w` of sector `s` opens onto, if there is one.
pub open spec fn spec_facing(sectors: Seq<SectorT>, s: int, w: WallT) -> Option<int> {
    if exists|t: int| is_facing(sectors, s, w, t) {
        Some(choose|t: int| is_facing(sectors, s, w, t))
    } else {
        None
    }
}

/// Whether one of the sector's walls runs along `w`.
pub fn has_edge(sector: &SectorT, w: WallT) -> (r: bool)
    ensures
        r == faces(sector.walls@, w),
{
    let mut j: usize = 0;
    while j < sector.walls.len()
        invariant
            0 <= j <= sector.walls@.len(),
            forall|i: int| 0 <= i < j ==> !shares_edge(w, #[trigger] sector.walls@[i]),
        decreases sector.walls@.len() - j,
    {
        let v = sector.walls[j];
        if (w.a == v.a && w.b == v.b) || (w.a == v.b && w.b == v.a) {
            return true;
        }
        j += 1;
    }
    false
}

/// The sector that the wall `w` of sector `s` opens onto, if there is one.
pub fn find_facing(sectors: &Vec<SectorT>, s: usize, w: WallT) -> (r: Option<usize>)
    ensures
        r matches Some(t) ==> is_facing(sectors@, s as int, w, t as int) && spec_facing(
            sectors@,
            s as int,
            w,
        ) == Some(t as int),
        r is None ==> spec_facing(sectors@, s as int, w) is None && forall|u: int|
            0 <= u < sectors@.len() && u != s ==> !faces(#[trigger] sectors@[u].walls@, w),
{
    let mut t: usize = 0;
    while t < sectors.len()
        invariant
            0 <= t <= sectors@.len(),
            forall|u: int| 0 <= u < t && u != s ==> !faces(#[trigger] sectors@[u].walls@, w),
        decreases sectors@.len() - t,
    {
        if t != s && has_edge(&sectors[t], w) {
            proof {
                assert(is_facing(sectors@, s as int, w, t as int));
                let other = choose|u: int| is_facing(sectors@, s as int, w, u);
                lemma_facing_unique(sectors@, s as int, w, t as int, other);
            }
            return Some(t);
        }
        t += 1;
    }
    proof {
        assert forall|u: int| !is_facing(sectors@, s as int, w, u) by {
            if 0 <= u < sectors@.len() && u != s {
                assert(!faces(sectors@[u].walls@, w));
            }
        }
    }
    None
}

/// One sector of a frame's traversal: which sector, how many portals from
/// the viewer, and the columns through which it is seen.
#[derive(Clone, Copy, Debug, PartialEq, Eq, Structural)]
pub struct VisitT {
    pub sector: usize,
    pub depth: u32,
    pub window: WindowT,
}

/// The columns through which wall `k` of the visited sector shows the
/// sector behind it: the wall's columns within the visit's own window.
/// None where the wall is solid, out of sight, or leaves no column.
pub open spec fn portal_window(sectors: Seq<SectorT>, parent: VisitT, k: int, view: ViewT)
    -> Option<WindowT> {
    let w = sectors[parent.sector as int].walls@[k];
    if !w.is_portal {
        None
    } else {
        match spec_project_wall(w.a, w.b, w.portal_bot_height, w.portal_top_height, view) {
            None => None,
            Some(span) => {
                let win = parent.window.spec_narrowed(span.x0, span.x1);
                if win.spec_is_empty() {
                    None
                } else {
                    Some(win)
                }
            },
        }
    }
}

/// The window that wall `k` of a visited sector opens; see `portal_window`.
pub fn window_through(sectors: &Vec<SectorT>, parent: VisitT, k: usize, view: &ViewT) -> (r:
    Option<WindowT>)
    requires
        parent.sector < sectors@.len(),
        k < sectors@[parent.sector as int].walls@.len(),
    ensures
        r == portal_window(sectors@, parent, k as int, *view),
{
    let w = sectors[parent.sector].walls[k];
    if !w.is_portal {
        None
    } else {
        match project_wall(w.a, w.b, w.portal_bot_height, w.portal_top_height, view) {
            None => None,
            Some(span) => {
                let win = parent.window.narrowed(span.x0, span.x1);
                if win.is_empty() {
                    None
                } else {
                    Some(win)
                }
            },
        }
    }
}

/// Wall `k` of the sector of `parent` leads to the sector `t`, seen
/// through `window`.
pub open spec fn leads_to(
    sectors: Seq<SectorT>,
    view: ViewT,
    parent: VisitT,
    k: int,
    t: int,
    window: WindowT,
) -> bool {
    &&& 0 <= k < sectors[parent.sector as int].walls@.len()
    &&& parent.depth < 32
    &&& portal_window(sectors, parent, k, view) == Some(window)
    &&& is_facing(sectors, parent.sector as int, sectors[parent.sector as int].walls@[k], t)
}

/// `child` was reached through a portal of `parent`.
pub open spec fn reached_from(sectors: Seq<SectorT>, view: ViewT, parent: VisitT, child: VisitT)
    -> bool {
    &&& child.depth == parent.depth + 1
    &&& exists|k: int| #[trigger] leads_to(sectors, view, parent, k, child.sector as int, child.window)
}

/// Some visit is of sector `t`.
pub open spec fn visits_sector(visits: Seq<VisitT>, t: int) -> bool {
    exists|i: int| 0 <= i < visits.len() && (#[trigger] visits[i]).sector == t
}

/// Visit `i` was reached through a portal of an earlier visit.
pub open spec fn has_parent(sectors: Seq<SectorT>, view: ViewT, visits: Seq<VisitT>, i: int)
    -> bool {
    exists|j: int| 0 <= j < i && #[trigger] reached_from(sectors, view, visits[j], visits[i])
}

/// What every traversal's list of visits satisfies, whatever the world:
/// sectors that exist, each once, none deeper than the bound, the first the
/// starting sector seen through the whole screen, and every other reached
/// through a portal of an earlier one.
pub open spec fn is_traversal(
    sectors: Seq<SectorT>,
    view: ViewT,
    start: int,
    visits: Seq<VisitT>,
) -> bool {
    &&& visits.len() <= 1024
    &&& forall|i: int|
        0 <= i < visits.len() ==> (#[trigger] visits[i]).sector < sectors.len() && visits[i].depth
            <= 32
    &&& forall|i: int, j: int|
        0 <= i < j < visits.len() ==> (#[trigger] visits[i]).sector != (#[trigger] visits[j]).sector
    &&& visits.len() > 0 ==> visits[0] == (VisitT {
        sector: start as usize,
        depth: 0,
        window: WindowT { lo: 0, hi: view.width },
    })
    &&& forall|i: int| 1 <= i < visits.len() ==> #[trigger] has_parent(sectors, view, visits, i)
}

/// Every sector that a portal of the first `done` visits leads to is
/// itself visited, unless the list is full.
pub open spec fn is_closed(sectors: Seq<SectorT>, view: ViewT, visits: Seq<VisitT>, done: int)
    -> bool {
    forall|j: int, k: int, t: int, window: WindowT|
        0 <= j < done && #[trigger] leads_to(sectors, view, visits[j], k, t, window)
            ==> visits_sector(visits, t) || visits.len() == 1024
}

/// Every sector that one of the first `upto` walls of the sector of
/// `parent` leads to is visited, unless the list is full.
pub open spec fn is_closed_at(
    sectors: Seq<SectorT>,
    view: ViewT,
    visits: Seq<VisitT>,
    parent: VisitT,
    upto: int,
) -> bool {
    forall|k: int, t: int, window: WindowT|
        k < upto && #[trigger] leads_to(sectors, view, parent, k, t, window) ==> visits_sector(
            visits,
            t,
        ) || visits.len() == 1024
}

proof fn lemma_facing_unique(sectors: Seq<SectorT>, s: int, w: WallT, t1: int, t2: int)
    requires
        is_facing(sectors, s, w, t1),
        is_facing(sectors, s, w, t2),
    ensures
        t1 == t2,
{
    if t1 < t2 {
        assert(!faces(sectors[t1].walls@, w));
    } else if t2 < t1 {
        assert(!faces(sectors[t2].walls@, w));
    }
}

/// The visits after wall `k` of visit `head` is looked through: where the
/// wall leads to a sector not yet visited and the list has room, that
/// sector is added, one portal deeper and seen through the wall's window.
pub open spec fn visit_wall(
    sectors: Seq<SectorT>,
    view: ViewT,
    visits: Seq<VisitT>,
    head: int,
    k: int,
) -> Seq<VisitT> {
    let parent = visits[head];
    let w = sectors[parent.sector as int].walls@[k];
    let through = portal_window(sectors, parent, k, view);
    let target = spec_facing(sectors, parent.sector as int, w);
    if parent.depth < 32 && through is Some && target is Some && !visits_sector(
        visits,
        target.unwrap(),
    ) && visits.len() < 1024 {
        visits.push(
            VisitT {
                sector: target.unwrap() as usize,
                depth: (parent.depth + 1) as u32,
                window: through.unwrap(),
            },
        )
    } else {
        visits
    }
}

/// The visits after the walls of visit `head` from wall `k` on are looked
/// through, in order.
pub open spec fn walls_from(
    sectors: Seq<SectorT>,
    view: ViewT,
    visits: Seq<VisitT>,
    head: int,
    k: int,
) -> Seq<VisitT>
    decreases sectors[visits[head].sector as int].walls@.len() - k,
{
    if k < 0 || k >= sectors[visits[head].sector as int].walls@.len() || !(0 <= head
        < visits.len()) {
        visits
    } else {
        let next = visit_wall(sectors, view, visits, head, k);
        // Adding a visit leaves the earlier ones as they are.
        if next[head] == visits[head] {
            walls_from(sectors, view, next, head, k + 1)
        } else {
            visits
        }
    }
}

/// The visits after every visit from `head` on, those added on the way
/// too, has had its walls looked through.
pub open spec fn traversal_from(
    sectors: Seq<SectorT>,
    view: ViewT,
    visits: Seq<VisitT>,
    head: int,
) -> Seq<VisitT>
    decreases 1024 - head,
{
    if head < 0 || head >= visits.len() || head >= 1024 {
        visits
    } else {
        traversal_from(sectors, view, walls_from(sectors, view, visits, head, 0), head + 1)
    }
}

/// The visits of one frame that starts in sector `start`.
pub open spec fn spec_traverse(sectors: Seq<SectorT>, view: ViewT, start: int) -> Seq<VisitT> {
    if 0 <= start < sectors.len() {
        traversal_from(
            sectors,
            view,
            seq![
                VisitT { sector: start as usize, depth: 0, window: WindowT { lo: 0, hi: view.width } },
            ],
            0,
        )
    } else {
        Seq::empty()
    }
}

/// The sectors of one frame, in the order in which they are reached: the
/// starting sector, then sector after sector through the portals of those
/// already listed, each portal narrowing the window of columns, down to
/// `MAX_DEPTH` portals deep. A start that names no sector gives no visits.
pub fn traverse(sectors: &Vec<SectorT>, start: usize, view: &ViewT) -> (visits: Vec<VisitT>)
    ensures
        visits@ == spec_traverse(sectors@, *view, start as int),
        is_traversal(sectors@, *view, start as int, visits@),
        (visits@.len() > 0) == (start < sectors@.len()),
        is_closed(sectors@, *view, visits@, visits@.len() as int),
{
    let n: usize = sectors.len();
    let mut visits: Vec<VisitT> = Vec::new();
    if start >= n {
        assert(visits@ =~= Seq::empty());
        return visits;
    }
    let mut visited: Vec<bool> = vec![false; n];
    visited[start] = true;
    visits.push(VisitT { sector: start, depth: 0, window: WindowT { lo: 0, hi: view.width } });
    assert forall|t: int| 0 <= t < n implies (#[trigger] visited@[t] <==> visits_sector(
        visits@,
        t,
    )) by {
        if t == start {
            assert(visits@[0].sector == t);
        }
    }
    assert(visits@ =~= seq![
        VisitT { sector: start, depth: 0, window: WindowT { lo: 0, hi: view.width } },
    ]);
    let mut head: usize = 0;
    while head < visits.len()
        invariant
            start < n,
            traversal_from(sectors@, *view, visits@, head as int) == spec_traverse(
                sectors@,
                *view,
                start as int,
            ),
            n == sectors@.len(),
            visited@.len() == n,
            0 <= head <= visits@.len(),
            visits@.len() >= 1,
            is_traversal(sectors@, *view, start as int, visits@),
            forall|t: int| 0 <= t < n ==> (#[trigger] visited@[t] <==> visits_sector(visits@, t)),
            is_closed(sectors@, *view, visits@, head as int),
        decreases 1024 - head,
    {
        let parent = visits[head];
        let walls_len: usize = sectors[parent.sector].walls.len();
        let ghost at_head = visits@;
        let mut k: usize = 0;
        while k < walls_len
            invariant
                walls_from(sectors@, *view, visits@, head as int, k as int) == walls_from(
                    sectors@,
                    *view,
                    at_head,
                    head as int,
                    0,
                ),
                n == sectors@.len(),
                visited@.len() == n,
                0 <= head < visits@.len(),
                parent == visits@[head as int],
                parent.sector < n,
                walls_len == sectors@[parent.sector as int].walls@.len(),
                0 <= k <= walls_len,
                is_traversal(sectors@, *view, start as int, visits@),
                forall|t: int|
                    0 <= t < n ==> (#[trigger] visited@[t] <==> visits_sector(visits@, t)),
                is_closed(sectors@, *view, visits@, head as int),
                is_closed_at(sectors@, *view, visits@, parent, k as int),
            decreases walls_len - k,
        {
            let ghost before = visits@;
            let ghost seen = visited@;
            let w = sectors[parent.sector].walls[k];
            let mut target: Option<usize> = None;
            let mut through: Option<WindowT> = None;
            if parent.depth < MAX_DEPTH {
                through = window_through(sectors, parent, k, view);
                if through.is_some() {
                    target = find_facing(sectors, parent.sector, w);
                }
            }
            match (through, target) {
                (Some(win), Some(t)) => {
                    if !visited[t] && visits.len() < MAX_VISITS {
                        visited[t] = true;
                        let child = VisitT { sector: t, depth: parent.depth + 1, window: win };
                        visits.push(child);
                        proof {
                            assert(child.depth == parent.depth + 1);
                            assert(leads_to(sectors@, *view, parent, k as int, child.sector as int, child.window));
                            assert(reached_from(sectors@, *view, parent, child));
                            lemma_extended(sectors@, *view, start as int, before, child, head as int);
                            assert forall|u: int| 0 <= u < n implies (#[trigger] visited@[u]
                                <==> visits_sector(visits@, u)) by {
                                lemma_visits_grow(before, child, u);
                            }
                            assert(is_closed(sectors@, *view, visits@, head as int)) by {
                                assert forall|j: int, k2: int, t2: int, window: WindowT|
                                    0 <= j < head && #[trigger] leads_to(
                                        sectors@,
                                        *view,
                                        visits@[j],
                                        k2,
                                        t2,
                                        window,
                                    ) implies visits_sector(visits@, t2) || visits@.len()
                                    == 1024 by {
                                    assert(visits@[j] == before[j]);
                                    assert(leads_to(sectors@, *view, before[j], k2, t2, window));
                                    lemma_visits_grow(before, child, t2);
                                }
                            }
                        }
                    }
                    proof {
                        assert forall|k2: int, t2: int, window: WindowT|
                            k2 < k + 1 && #[trigger] leads_to(
                                sectors@,
                                *view,
                                parent,
                                k2,
                                t2,
                                window,
                            ) implies visits_sector(visits@, t2) || visits@.len() == 1024 by {
                            if k2 == k {
                                lemma_facing_unique(sectors@, parent.sector as int, w, t as int, t2);
                                if visits@.len() != 1024 {
                                    if seen[t as int] {
                                        assert(visits_sector(before, t2));
                                    }
                                    lemma_visits_grow(before, visits@.last(), t2);
                                }
                            } else {
                                assert(visits_sector(before, t2) || before.len() == 1024);
                                if visits@.len() != before.len() {
                                    lemma_visits_grow(before, visits@.last(), t2);
                                }
                            }
                        }
                    }
                },
                _ => {
                    proof {
                        assert forall|k2: int, t2: int, window: WindowT|
                            k2 < k + 1 && #[trigger] leads_to(
                                sectors@,
                                *view,
                                parent,
                                k2,
                                t2,
                                window,
                            ) implies visits_sector(visits@, t2) || visits@.len() == 1024 by {
                            if k2 == k {
                                if through.is_some() && parent.depth < 32 {
                                    assert(faces(sectors@[t2].walls@, w));
                                }
                            }
                        }
                    }
                },
            }
            proof {
                assert(visits@ =~= visit_wall(sectors@, *view, before, head as int, k as int));
                assert(visits@[head as int] == before[head as int]);
            }
            k += 1;
        }
        proof {
            assert(walls_from(sectors@, *view, visits@, head as int, k as int) == visits@);
            assert(traversal_from(sectors@, *view, at_head, head as int) == traversal_from(
                sectors@,
                *view,
                visits@,
                head + 1,
            ));
            assert forall|j: int, k2: int, t2: int, window: WindowT|
                0 <= j < head + 1 && #[trigger] leads_to(
                    sectors@,
                    *view,
                    visits@[j],
                    k2,
                    t2,
                    window,
                ) implies visits_sector(visits@, t2) || visits@.len() == 1024 by {
                if j == head {
                    assert(leads_to(sectors@, *view, parent, k2, t2, window));
                }
            }
        }
        head += 1;
    }
    visits
}

/// A visit of sector `u` is in the longer list exactly if it was in the
/// shorter one or is the one added.
proof fn lemma_visits_grow(before: Seq<VisitT>, child: VisitT, u: int)
    ensures
        visits_sector(before.push(child), u) <==> (visits_sector(before, u) || child.sector == u),
{
    let after = before.push(child);
    if visits_sector(before, u) {
        let i = choose|i: int| 0 <= i < before.len() && (#[trigger] before[i]).sector == u;
        assert(after[i].sector == u);
    }
    if child.sector == u {
        assert(after[before.len() as int].sector == u);
    }
    if visits_sector(after, u) {
        let i = choose|i: int| 0 <= i < after.len() && (#[trigger] after[i]).sector == u;
        if i < before.len() {
            assert(before[i].sector == u);
        }
    }
}

/// A traversal stays one when a sector not yet visited is added that was
/// reached from one of its visits.
proof fn lemma_extended(
    sectors: Seq<SectorT>,
    view: ViewT,
    start: int,
    before: Seq<VisitT>,
    child: VisitT,
    from: int,
)
    requires
        is_traversal(sectors, view, start, before),
        before.len() < 1024,
        0 <= from < before.len(),
        reached_from(sectors, view, before[from], child),
        child.sector < sectors.len(),
        !visits_sector(before, child.sector as int),
    ensures
        is_traversal(sectors, view, start, before.push(child)),
{
    let after = before.push(child);
    assert forall|i: int| 0 <= i < after.len() implies (#[trigger] after[i]).sector
        < sectors.len() && after[i].depth <= 32 by {
        if i < before.len() {
            assert(after[i] == before[i]);
        } else {
            let k = choose|k: int| #[trigger]
                leads_to(sectors, view, before[from], k, child.sector as int, child.window);
        }
    }
    assert forall|i: int, j: int| 0 <= i < j < after.len() implies (#[trigger] after[i]).sector != (
    #[trigger] after[j]).sector by {
        if j < before.len() {
            assert(after[i] == before[i] && after[j] == before[j]);
        } else {
            assert(after[i] == before[i]);
        }
    }
    assert forall|i: int| 1 <= i < after.len() implies #[trigger] has_parent(
        sectors,
        view,
        after,
        i,
    ) by {
        if i < before.len() {
            assert(has_parent(sectors, view, before, i));
            let j = choose|j: int|
                0 <= j < i && #[trigger] reached_from(sectors, view, before[j], before[i]);
            assert(reached_from(sectors, view, after[j], after[i]));
        } else {
            assert(reached_from(sectors, view, after[from], after[i]));
        }
    }
}

/// A traversal visits no more sectors than the world has, however its
/// portals connect them.
pub proof fn lemma_traversal_within_world(
    sectors: Seq<SectorT>,
    view: ViewT,
    start: int,
    visits: Seq<VisitT>,
)
    requires
        is_traversal(sectors, view, start, visits),
    ensures
        visits.len() <= sectors.len(),
        visits.len() <= 1024,
{
    let ids = Seq::new(visits.len(), |i: int| visits[i].sector as int);
    assert(ids.no_duplicates()) by {
        assert forall|i: int, j: int| 0 <= i < ids.len() && 0 <= j < ids.len() && i != j implies ids[i]
            != ids[j] by {
            if i < j {
                assert(visits[i].sector != visits[j].sector);
            } else {
                assert(visits[j].sector != visits[i].sector);
            }
        }
    }
    ids.unique_seq_to_set();
    let world = set_int_range(0, sectors.len() as int);
    lemma_int_range(0, sectors.len() as int);
    assert(ids.to_set().subset_of(world)) by {
        assert forall|v: int| ids.to_set().contains(v) implies world.contains(v) by {
            let i = choose|i: int| 0 <= i < ids.len() && ids[i] == v;
            assert(visits[i].sector < sectors.len());
        }
    }
    lemma_len_subset(ids.to_set(), world);
}

/// In a world of two sectors, whether or not each opens onto the other,
/// a traversal visits at most the two, which is within one more than the
/// depth bound.
pub proof fn lemma_two_sectors_are_visited_once(
    sectors: Seq<SectorT>,
    view: ViewT,
    start: int,
    visits: Seq<VisitT>,
)
    requires
        sectors.len() == 2,
        is_traversal(sectors, view, start, visits),
    ensures
        visits.len() <= 2,
        visits.len() <= MAX_DEPTH + 1,
{
    lemma_traversal_within_world(sectors, view, start, visits);
}

/// The view of a player who looks along `heading`, the unit vector of the
/// facing angle in fixed point, on the game's screen. Of the screen's
/// width the columns that a lookup table can serve count. The focal
/// length is half the screen's height.
pub open spec fn spec_view_of(
    player: PlayerT,
    heading: Vec2T,
    scrn_w: u32,
    scrn_h: u32,
) -> ViewT {
    let width = if scrn_w > 1024 {
        1024
    } else {
        scrn_w as int
    };
    let height = if scrn_h > i32::MAX {
        i32::MAX as int
    } else {
        scrn_h as int
    };
    ViewT {
        eye: player.position,
        eye_z: player.z,
        heading,
        width: width as i32,
        height: height as i32,
        half_w: (width / 2) as i32,
        half_h: (height / 2) as i32,
        focal: (height / 2) as i32,
    }
}

/// The view of `player` on the game's screen; see `spec_view_of`.
pub fn view_of(player: &PlayerT, heading: Vec2T, game_state: &GameStateT) -> (view: ViewT)
    ensures
        view == spec_view_of(*player, heading, game_state.scrn_w, game_state.scrn_h),
        view.wf(),
{
    let width: u32 = if game_state.scrn_w > 1024 {
        1024
    } else {
        game_state.scrn_w
    };
    let height: u32 = if game_state.scrn_h > 0x7fff_ffff {
        0x7fff_ffff
    } else {
        game_state.scrn_h
    };
    ViewT {
        eye: player.position,
        eye_z: player.z,
        heading,
        width: width as i32,
        height: height as i32,
        half_w: (width / 2) as i32,
        half_h: (height / 2) as i32,
        focal: (height / 2) as i32,
    }
}

/// A solid wall leads to no sector, whatever portal heights it carries.
pub proof fn lemma_solid_wall_leads_nowhere(
    sectors: Seq<SectorT>,
    view: ViewT,
    parent: VisitT,
    k: int,
    t: int,
    window: WindowT,
)
    requires
        0 <= k < sectors[parent.sector as int].walls@.len(),
        !sectors[parent.sector as int].walls@[k].is_portal,
    ensures
        !leads_to(sectors, view, parent, k, t, window),
{
}

/// The window of a sector reached through a portal lies within the window
/// of the sector it was reached from, and is not empty.
pub proof fn lemma_windows_only_shrink(
    sectors: Seq<SectorT>,
    view: ViewT,
    parent: VisitT,
    child: VisitT,
)
    requires
        reached_from(sectors, view, parent, child),
    ensures
        parent.window.lo <= child.window.lo,
        child.window.hi <= parent.window.hi,
        child.window.lo < child.window.hi,
{
    let k = choose|k: int| #[trigger]
        leads_to(sectors, view, parent, k, child.sector as int, child.window);
    assert(portal_window(sectors, parent, k, view) == Some(child.window));
}

/// A wall whose ends both lie in front of the near plane is not seen,
/// whatever its heights.
pub proof fn lemma_wall_behind_is_not_seen(a: Vec2T, b: Vec2T, low: i64, high: i64, view: ViewT)
    requires
        spec_to_camera(a, view.eye, view.heading).depth < 4096,
        spec_to_camera(b, view.eye, view.heading).depth < 4096,
    ensures
        spec_project_wall(a, b, low, high, view) is None,
{
}

} // verus!
