use vstd::prelude::*;
use crate::game_state::GameStateT;
use crate::planes::{
    ceiling_height, column_of, fill_planes, filled_column, floor_height,
};
use crate::player::PlayerT;
use crate::portal::{
    WindowT,
    is_closed, is_traversal, lemma_traversal_within_world, spec_traverse, spec_view_of, traverse,
    view_of, ViewT,
    VisitT,
};
use crate::renderer::{add_sector_to_queue, SectorT, SectorsQueueT, WallT};
use crate::compose::{composed, composite, is_nearest_first};
use crate::screen::Screen;
use crate::typedefs::Vec2T;

verus! {

/// The distance from `eye` to `p`, along the axes.
pub open spec fn point_distance(p: Vec2T, eye: Vec2T) -> int {
    (if p.x >= eye.x {
        p.x - eye.x
    } else {
        eye.x - p.x
    }) + (if p.y >= eye.y {
        p.y - eye.y
    } else {
        eye.y - p.y
    })
}

/// The distance from `eye` to the nearest first corner of the first `upto`
/// walls, no more than a coordinate can hold; that largest value where
/// there is no wall.
pub open spec fn nearest_distance(walls: Seq<WallT>, eye: Vec2T, upto: int) -> int
    decreases upto,
{
    if upto <= 0 {
        i64::MAX as int
    } else {
        let rest = nearest_distance(walls, eye, upto - 1);
        let here = point_distance(walls[upto - 1].a, eye);
        if here < rest {
            here
        } else {
            rest
        }
    }
}

/// The distance from `eye` to the sector: to the nearest of its walls'
/// first corners.
pub fn sector_distance(sector: &SectorT, eye: Vec2T) -> (d: i64)
    ensures
        d == nearest_distance(sector.walls@, eye, sector.walls@.len() as int),
{
    let mut best: i64 = i64::MAX;
    let mut k: usize = 0;
    while k < sector.walls.len()
        invariant
            0 <= k <= sector.walls@.len(),
            best == nearest_distance(sector.walls@, eye, k as int),
        decreases sector.walls@.len() - k,
    {
        let p = sector.walls[k].a;
        let along: i128 = if p.x >= eye.x {
            p.x as i128 - eye.x as i128
        } else {
            eye.x as i128 - p.x as i128
        };
        let across: i128 = if p.y >= eye.y {
            p.y as i128 - eye.y as i128
        } else {
            eye.y as i128 - p.y as i128
        };
        let here: i128 = along + across;
        if here < best as i128 {
            best = here as i64;
        }
        k += 1;
    }
    best
}

/// `copy` is `sector` as one frame sees it through `window`: the same
/// sector, with its distance to the viewer set and its lookup tables
/// filled for the columns of the window.
pub open spec fn pictures(copy: &SectorT, sector: &SectorT, view: ViewT, window: WindowT) -> bool {
    &&& copy.id == sector.id
    &&& copy.walls@ == sector.walls@
    &&& copy.num_walls == sector.num_walls
    &&& copy.height == sector.height
    &&& copy.elevation == sector.elevation
    &&& copy.color == sector.color
    &&& copy.floor_clr == sector.floor_clr
    &&& copy.ceil_clr == sector.ceil_clr
    &&& copy.dist == nearest_distance(sector.walls@, view.eye, sector.walls@.len() as int)
    &&& forall|x: int|
        0 <= x < 1024 ==> #[trigger] column_of(copy, x) == filled_column(
            column_of(sector, x),
            sector.walls@,
            floor_height(sector) as i64,
            ceiling_height(sector) as i64,
            view,
            window.spec_narrowed(0, view.width),
            x,
            sector.walls@.len() as int,
        )
}

/// The render set of a list of visits: one snapshot for each visit, in
/// the same order, each with its distance to the viewer and its lookup
/// tables filled for the visit's window.
pub fn build_queue(sectors: &Vec<SectorT>, visits: &Vec<VisitT>, view: &ViewT) -> (queue:
    SectorsQueueT)
    requires
        view.wf(),
        visits@.len() <= 1024,
        forall|i: int| 0 <= i < visits@.len() ==> (#[trigger] visits@[i]).sector < sectors@.len(),
    ensures
        queue.wf(),
        queue.num_sectors == visits@.len(),
        forall|i: int|
            0 <= i < visits@.len() ==> pictures(
                #[trigger] &queue.sectors@[i],
                &sectors@[visits@[i].sector as int],
                *view,
                visits@[i].window,
            ),
{
    let mut queue = SectorsQueueT::new();
    let mut i: usize = 0;
    while i < visits.len()
        invariant
            0 <= i <= visits@.len(),
            view.wf(),
            visits@.len() <= 1024,
            forall|j: int|
                0 <= j < visits@.len() ==> (#[trigger] visits@[j]).sector < sectors@.len(),
            queue.wf(),
            queue.num_sectors == i,
            forall|j: int|
                0 <= j < i ==> pictures(
                    #[trigger] &queue.sectors@[j],
                    &sectors@[visits@[j].sector as int],
                    *view,
                    visits@[j].window,
                ),
        decreases visits@.len() - i,
    {
        let ghost before = queue.sectors@;
        let sector = &sectors[visits[i].sector];
        let mut copy = sector.snapshot();
        copy.dist = sector_distance(sector, view.eye);
        fill_planes(&mut copy, view, visits[i].window);
        add_sector_to_queue(&copy, &mut queue);
        proof {
            assert(queue.sectors@.drop_last() == before);
            assert forall|j: int| 0 <= j < i + 1 implies pictures(
                #[trigger] &queue.sectors@[j],
                &sectors@[visits@[j].sector as int],
                *view,
                visits@[j].window,
            ) by {
                if j < i {
                    assert(queue.sectors@[j] == queue.sectors@.drop_last()[j]);
                } else {
                    assert(queue.sectors@[j] == queue.sectors@.last());
                    assert forall|x: int| 0 <= x < 1024 implies #[trigger] column_of(
                        &queue.sectors@[j],
                        x,
                    ) == column_of(&copy, x) by {}
                }
            }
        }
        i += 1;
    }
    queue
}

/// One frame's render set, with the visits it was made from and the
/// order in which its sectors were painted.
pub struct RenderSetT {
    pub queue: SectorsQueueT,
    pub visits: Vec<VisitT>,
    pub order: Vec<usize>,
}

/// Renders one frame for a player who stands in sector `start` and looks
/// along `heading`, the unit vector of the facing angle in fixed point.
/// The sectors seen through portals are listed as `traverse` lists them;
/// each is queued as a snapshot with its distance to the viewer and its
/// lookup tables filled; the queue is painted onto the screen, nearest
/// sector first.
pub fn render(
    player: &PlayerT,
    game_state: &GameStateT,
    heading: Vec2T,
    start: usize,
    screen: &mut Screen,
) -> (set: RenderSetT)
    requires
        old(screen).wf(),
    ensures
        set.visits@ == spec_traverse(
            game_state.sectors@,
            spec_view_of(*player, heading, game_state.scrn_w, game_state.scrn_h),
            start as int,
        ),
        is_traversal(
            game_state.sectors@,
            spec_view_of(*player, heading, game_state.scrn_w, game_state.scrn_h),
            start as int,
            set.visits@,
        ),
        is_closed(
            game_state.sectors@,
            spec_view_of(*player, heading, game_state.scrn_w, game_state.scrn_h),
            set.visits@,
            set.visits@.len() as int,
        ),
        (set.visits@.len() > 0) == (start < game_state.sectors@.len()),
        set.visits@.len() <= game_state.sectors@.len(),
        set.queue.wf(),
        set.queue.num_sectors == set.visits@.len(),
        forall|i: int|
            0 <= i < set.visits@.len() ==> pictures(
                #[trigger] &set.queue.sectors@[i],
                &game_state.sectors@[set.visits@[i].sector as int],
                spec_view_of(*player, heading, game_state.scrn_w, game_state.scrn_h),
                set.visits@[i].window,
            ),
        is_nearest_first(set.order@, set.queue.sectors@),
        final(screen).wf(),
        final(screen).screen_buffer@ == composed(
            old(screen).screen_buffer@,
            Seq::new(old(screen).screen_buffer@.len(), |i: int| false),
            set.queue.sectors@,
            set.visits@,
            set.order@,
            spec_view_of(*player, heading, game_state.scrn_w, game_state.scrn_h),
            set.order@.len() as int,
        ).0,
{
    let view = view_of(player, heading, game_state);
    let visits = traverse(&game_state.sectors, start, &view);
    proof {
        lemma_traversal_within_world(game_state.sectors@, view, start as int, visits@);
    }
    let queue = build_queue(&game_state.sectors, &visits, &view);
    let order = composite(screen, &queue, &visits, &view);
    RenderSetT { queue, visits, order }
}

} // verus!
