use vstd::prelude::*;
use crate::portal::{project_wall, spec_project_wall, ViewT, WallSpanT, WindowT};
use crate::projection::{row_at, spec_row_at};
use crate::renderer::{SectorT, WallT};
use crate::typedefs::{spec_to_fixed, to_fixed};

verus! {

/// The eight rows that a sector's lookup tables hold for one column.
#[derive(Clone, Copy, Debug, PartialEq, Eq, Structural)]
pub struct ColumnT {
    pub ceil_t: i32,
    pub ceil_b: i32,
    pub floor_t: i32,
    pub floor_b: i32,
    pub portal_ceil_t: i32,
    pub portal_ceil_b: i32,
    pub portal_floor_t: i32,
    pub portal_floor_b: i32,
}

/// What the sector's tables hold for column `x`.
pub open spec fn column_of(s: &SectorT, x: int) -> ColumnT {
    ColumnT {
        ceil_t: s.ceilx_ylut.t@[x],
        ceil_b: s.ceilx_ylut.b@[x],
        floor_t: s.floorx_ylut.t@[x],
        floor_b: s.floorx_ylut.b@[x],
        portal_ceil_t: s.portals_ceilx_ylut.t@[x],
        portal_ceil_b: s.portals_ceilx_ylut.b@[x],
        portal_floor_t: s.portals_floorx_ylut.t@[x],
        portal_floor_b: s.portals_floorx_ylut.b@[x],
    }
}

/// Both sectors are the same but for their lookup tables.
pub open spec fn same_but_tables(a: &SectorT, b: &SectorT) -> bool {
    &&& a.id == b.id
    &&& a.walls@ == b.walls@
    &&& a.num_walls == b.num_walls
    &&& a.height == b.height
    &&& a.elevation == b.elevation
    &&& a.dist == b.dist
    &&& a.color == b.color
    &&& a.floor_clr == b.floor_clr
    &&& a.ceil_clr == b.ceil_clr
}

/// The height of the sector's floor, in fixed point.
pub open spec fn floor_height(s: &SectorT) -> int {
    spec_to_fixed(s.elevation)
}

/// The height of the sector's ceiling, in fixed point.
pub open spec fn ceiling_height(s: &SectorT) -> int {
    spec_to_fixed(s.elevation) + spec_to_fixed(s.height)
}

/// The wall's face between `floor` and `ceil` shows in column `x` of the
/// window.
pub open spec fn covers(w: WallT, floor: i64, ceil: i64, view: ViewT, window: WindowT, x: int)
    -> bool {
    match spec_project_wall(w.a, w.b, floor, ceil, view) {
        None => false,
        Some(face) => {
            let win = window.spec_narrowed(face.x0, face.x1);
            win.lo <= x < win.hi
        },
    }
}

/// The first of the first `upto` walls that shows in column `x`.
pub open spec fn first_cover(
    walls: Seq<WallT>,
    floor: i64,
    ceil: i64,
    view: ViewT,
    window: WindowT,
    x: int,
    upto: int,
) -> Option<int>
    decreases upto,
{
    if upto <= 0 {
        None
    } else {
        match first_cover(walls, floor, ceil, view, window, x, upto - 1) {
            Some(k) => Some(k),
            None => if covers(walls[upto - 1], floor, ceil, view, window, x) {
                Some(upto - 1)
            } else {
                None
            },
        }
    }
}

/// The rows of column `x` once the wall `w` is drawn there. Above the
/// face lies the ceiling, from the top of the screen; below it the floor,
/// to the bottom of the screen. A portal also records its lintel, from the
/// face's upper edge to the opening's, and its sill, from the opening's
/// lower edge to the face's.
pub open spec fn drawn_column(
    before: ColumnT,
    w: WallT,
    floor: i64,
    ceil: i64,
    view: ViewT,
    x: i32,
) -> ColumnT {
    let face = spec_project_wall(w.a, w.b, floor, ceil, view).unwrap();
    let top = spec_row_at(face.top0, face.top1, face.x0, face.x1, x) as i32;
    let bottom = spec_row_at(face.bot0, face.bot1, face.x0, face.x1, x) as i32;
    let opening = spec_project_wall(w.a, w.b, w.portal_bot_height, w.portal_top_height, view);
    if w.is_portal && opening is Some {
        let open = opening.unwrap();
        ColumnT {
            ceil_t: 0,
            ceil_b: top,
            floor_t: bottom,
            floor_b: view.height,
            portal_ceil_t: top,
            portal_ceil_b: spec_row_at(open.top0, open.top1, open.x0, open.x1, x) as i32,
            portal_floor_t: spec_row_at(open.bot0, open.bot1, open.x0, open.x1, x) as i32,
            portal_floor_b: bottom,
        }
    } else {
        ColumnT { ceil_t: 0, ceil_b: top, floor_t: bottom, floor_b: view.height, ..before }
    }
}

/// The rows of column `x` once the first `upto` walls are drawn: those of
/// the first wall that shows there, and the rows from before where none
/// does.
pub open spec fn filled_column(
    before: ColumnT,
    walls: Seq<WallT>,
    floor: i64,
    ceil: i64,
    view: ViewT,
    window: WindowT,
    x: int,
    upto: int,
) -> ColumnT {
    match first_cover(walls, floor, ceil, view, window, x, upto) {
        None => before,
        Some(k) => drawn_column(before, walls[k], floor, ceil, view, x as i32),
    }
}

fn write_column(sector: &mut SectorT, x: usize, col: ColumnT)
    requires
        x < 1024,
    ensures
        same_but_tables(final(sector), old(sector)),
        column_of(final(sector), x as int) == col,
        forall|c: int|
            0 <= c < 1024 && c != x ==> #[trigger] column_of(final(sector), c) == column_of(
                old(sector),
                c,
            ),
{
    sector.ceilx_ylut.set_column(x, col.ceil_t, col.ceil_b);
    sector.floorx_ylut.set_column(x, col.floor_t, col.floor_b);
    sector.portals_ceilx_ylut.set_column(x, col.portal_ceil_t, col.portal_ceil_b);
    sector.portals_floorx_ylut.set_column(x, col.portal_floor_t, col.portal_floor_b);
}

fn read_column(sector: &SectorT, x: usize) -> (col: ColumnT)
    requires
        x < 1024,
    ensures
        col == column_of(sector, x as int),
{
    ColumnT {
        ceil_t: sector.ceilx_ylut.t[x],
        ceil_b: sector.ceilx_ylut.b[x],
        floor_t: sector.floorx_ylut.t[x],
        floor_b: sector.floorx_ylut.b[x],
        portal_ceil_t: sector.portals_ceilx_ylut.t[x],
        portal_ceil_b: sector.portals_ceilx_ylut.b[x],
        portal_floor_t: sector.portals_floorx_ylut.t[x],
        portal_floor_b: sector.portals_floorx_ylut.b[x],
    }
}

fn draw_column(
    before: ColumnT,
    w: WallT,
    face: WallSpanT,
    opening: Option<WallSpanT>,
    floor: i64,
    ceil: i64,
    view: &ViewT,
    x: i32,
) -> (col: ColumnT)
    requires
        spec_project_wall(w.a, w.b, floor, ceil, *view) == Some(face),
        opening == spec_project_wall(w.a, w.b, w.portal_bot_height, w.portal_top_height, *view),
        face.x0 < face.x1,
        opening matches Some(open) ==> open.x0 < open.x1,
    ensures
        col == drawn_column(before, w, floor, ceil, *view, x),
{
    let top: i32 = row_at(face.top0, face.top1, face.x0, face.x1, x);
    let bottom: i32 = row_at(face.bot0, face.bot1, face.x0, face.x1, x);
    match opening {
        Some(open) if w.is_portal => ColumnT {
            ceil_t: 0,
            ceil_b: top,
            floor_t: bottom,
            floor_b: view.height,
            portal_ceil_t: top,
            portal_ceil_b: row_at(open.top0, open.top1, open.x0, open.x1, x),
            portal_floor_t: row_at(open.bot0, open.bot1, open.x0, open.x1, x),
            portal_floor_b: bottom,
        },
        _ => ColumnT {
            ceil_t: 0,
            ceil_b: top,
            floor_t: bottom,
            floor_b: view.height,
            portal_ceil_t: before.portal_ceil_t,
            portal_ceil_b: before.portal_ceil_b,
            portal_floor_t: before.portal_floor_t,
            portal_floor_b: before.portal_floor_b,
        },
    }
}

/// Column `x` is as it should be once the first `upto` walls are drawn:
/// it is marked exactly if one of them shows there, and holds the rows of
/// the first that does.
pub open spec fn column_done(
    marked: bool,
    now: ColumnT,
    before: ColumnT,
    walls: Seq<WallT>,
    floor: i64,
    ceil: i64,
    view: ViewT,
    window: WindowT,
    x: int,
    upto: int,
) -> bool {
    &&& marked == (first_cover(walls, floor, ceil, view, window, x, upto) is Some)
    &&& now == filled_column(before, walls, floor, ceil, view, window, x, upto)
}

/// How many walls are drawn in column `c` while wall `k` is being drawn
/// from column `lo` and has come to column `x`.
pub open spec fn walls_drawn(c: int, lo: int, x: int, k: int) -> int {
    if lo <= c < x {
        k + 1
    } else {
        k
    }
}

/// Fills the sector's lookup tables for the columns of `window` that are
/// on the screen: each column gets the rows of the first wall of the sector
/// that shows in it, and is written once; a column in which no wall shows
/// keeps its rows.
pub fn fill_planes(sector: &mut SectorT, view: &ViewT, window: WindowT)
    requires
        view.wf(),
    ensures
        same_but_tables(final(sector), old(sector)),
        forall|x: int|
            0 <= x < 1024 ==> #[trigger] column_of(final(sector), x) == filled_column(
                column_of(old(sector), x),
                old(sector).walls@,
                floor_height(old(sector)) as i64,
                ceiling_height(old(sector)) as i64,
                *view,
                window.spec_narrowed(0, view.width),
                x,
                old(sector).walls@.len() as int,
            ),
{
    let floor: i64 = to_fixed(sector.elevation);
    let ceil: i64 = floor + to_fixed(sector.height);
    let screen = window.narrowed(0, view.width);
    let mut covered: [bool; 1024] = [false; 1024];
    let n: usize = sector.walls.len();
    let ghost walls = sector.walls@;
    let ghost orig = *sector;
    let mut k: usize = 0;
    while k < n
        invariant
            0 <= k <= n,
            n == walls.len(),
            walls == orig.walls@,
            orig == *old(sector),
            view.wf(),
            floor == floor_height(&orig),
            ceil == ceiling_height(&orig),
            screen == window.spec_narrowed(0, view.width),
            same_but_tables(sector, &orig),
            forall|c: int|
                0 <= c < 1024 ==> #[trigger] column_done(
                    covered@[c],
                    column_of(sector, c),
                    column_of(&orig, c),
                    walls,
                    floor,
                    ceil,
                    *view,
                    screen,
                    c,
                    k as int,
                ),
        decreases n - k,
    {
        let w = sector.walls[k];
        let ghost held0 = *sector;
        let ghost flags0 = covered@;
        match project_wall(w.a, w.b, floor, ceil, view) {
            None => {
                proof {
                    assert forall|c: int| 0 <= c < 1024 implies #[trigger] column_done(
                        covered@[c],
                        column_of(sector, c),
                        column_of(&orig, c),
                        walls,
                        floor,
                        ceil,
                        *view,
                        screen,
                        c,
                        k + 1,
                    ) by {
                        assert(column_done(
                            flags0[c],
                            column_of(&held0, c),
                            column_of(&orig, c),
                            walls,
                            floor,
                            ceil,
                            *view,
                            screen,
                            c,
                            k as int,
                        ));
                        assert(!covers(w, floor, ceil, *view, screen, c));
                    }
                }
            },
            Some(face) => {
                let win = screen.narrowed(face.x0, face.x1);
                let opening = project_wall(
                    w.a,
                    w.b,
                    w.portal_bot_height,
                    w.portal_top_height,
                    view,
                );
                let mut x: i32 = win.lo;
                proof {
                    assert forall|c: int| 0 <= c < 1024 implies #[trigger] column_done(
                        covered@[c],
                        column_of(sector, c),
                        column_of(&orig, c),
                        walls,
                        floor,
                        ceil,
                        *view,
                        screen,
                        c,
                        walls_drawn(c, win.lo as int, x as int, k as int),
                    ) by {
                        assert(column_done(
                            flags0[c],
                            column_of(&held0, c),
                            column_of(&orig, c),
                            walls,
                            floor,
                            ceil,
                            *view,
                            screen,
                            c,
                            k as int,
                        ));
                    }
                }
                while x < win.hi
                    invariant
                        0 <= k < n,
                        n == walls.len(),
                        walls == orig.walls@,
                        view.wf(),
                        w == walls[k as int],
                        spec_project_wall(w.a, w.b, floor, ceil, *view) == Some(face),
                        opening == spec_project_wall(
                            w.a,
                            w.b,
                            w.portal_bot_height,
                            w.portal_top_height,
                            *view,
                        ),
                        face.x0 < face.x1,
                        opening matches Some(open) ==> open.x0 < open.x1,
                        win == screen.spec_narrowed(face.x0, face.x1),
                        screen == window.spec_narrowed(0, view.width),
                        0 <= win.lo <= x,
                        win.hi <= 1024,
                        same_but_tables(sector, &orig),
                        forall|c: int|
                            0 <= c < 1024 ==> #[trigger] column_done(
                                covered@[c],
                                column_of(sector, c),
                                column_of(&orig, c),
                                walls,
                                floor,
                                ceil,
                                *view,
                                screen,
                                c,
                                walls_drawn(c, win.lo as int, x as int, k as int),
                            ),
                    decreases win.hi - x,
                {
                    let ghost held = *sector;
                    let ghost flags = covered@;
                    proof {
                        assert(column_done(
                            flags[x as int],
                            column_of(&held, x as int),
                            column_of(&orig, x as int),
                            walls,
                            floor,
                            ceil,
                            *view,
                            screen,
                            x as int,
                            walls_drawn(x as int, win.lo as int, x as int, k as int),
                        ));
                        assert(covers(w, floor, ceil, *view, screen, x as int));
                    }
                    if !covered[x as usize] {
                        let before = read_column(sector, x as usize);
                        let col = draw_column(before, w, face, opening, floor, ceil, view, x);
                        write_column(sector, x as usize, col);
                        covered[x as usize] = true;
                    }
                    proof {
                        assert forall|c: int| 0 <= c < 1024 implies #[trigger] column_done(
                            covered@[c],
                            column_of(sector, c),
                            column_of(&orig, c),
                            walls,
                            floor,
                            ceil,
                            *view,
                            screen,
                            c,
                            walls_drawn(c, win.lo as int, x + 1, k as int),
                        ) by {
                            assert(column_done(
                                flags[c],
                                column_of(&held, c),
                                column_of(&orig, c),
                                walls,
                                floor,
                                ceil,
                                *view,
                                screen,
                                c,
                                walls_drawn(c, win.lo as int, x as int, k as int),
                            ));
                            if c != x {
                                assert(column_of(sector, c) == column_of(&held, c));
                            }
                        }
                    }
                    x += 1;
                }
                proof {
                    let ghost held1 = *sector;
                    let ghost flags1 = covered@;
                    assert forall|c: int| 0 <= c < 1024 implies #[trigger] column_done(
                        covered@[c],
                        column_of(sector, c),
                        column_of(&orig, c),
                        walls,
                        floor,
                        ceil,
                        *view,
                        screen,
                        c,
                        k + 1,
                    ) by {
                        assert(column_done(
                            flags1[c],
                            column_of(&held1, c),
                            column_of(&orig, c),
                            walls,
                            floor,
                            ceil,
                            *view,
                            screen,
                            c,
                            walls_drawn(c, win.lo as int, x as int, k as int),
                        ));
                        if !(win.lo <= c < x) {
                            assert(!covers(w, floor, ceil, *view, screen, c));
                        }
                    }
                }
            },
        }
        k += 1;
    }
    proof {
        assert forall|x: int| 0 <= x < 1024 implies #[trigger] column_of(sector, x)
            == filled_column(
            column_of(&orig, x),
            walls,
            floor,
            ceil,
            *view,
            screen,
            x,
            walls.len() as int,
        ) by {
            assert(column_done(
                covered@[x],
                column_of(sector, x),
                column_of(&orig, x),
                walls,
                floor,
                ceil,
                *view,
                screen,
                x,
                k as int,
            ));
        }
    }
}

/// What a solid wall draws, and where, does not depend on the portal
/// heights that it carries.
pub proof fn lemma_solid_wall_ignores_portal_heights(
    before: ColumnT,
    w: WallT,
    v: WallT,
    floor: i64,
    ceil: i64,
    view: ViewT,
    window: WindowT,
    x: i32,
)
    requires
        !w.is_portal,
        !v.is_portal,
        w.a == v.a,
        w.b == v.b,
    ensures
        covers(w, floor, ceil, view, window, x as int) == covers(
            v,
            floor,
            ceil,
            view,
            window,
            x as int,
        ),
        drawn_column(before, w, floor, ceil, view, x) == drawn_column(
            before,
            v,
            floor,
            ceil,
            view,
            x,
        ),
{
}

} // verus!
