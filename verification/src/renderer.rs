use vstd::prelude::*;
use crate::game_state::GameStateT;
use crate::typedefs::{to_fixed, spec_to_fixed, Vec2T};

verus! {

/// The widest screen, in columns, that a lookup table can serve.
pub const MAX_SCREEN_WIDTH: usize = 1024;

/// The most walls one sector can hold.
pub const MAX_WALLS: i32 = 10;

/// The most sectors one frame's render set can hold.
pub const MAX_QUEUE: i32 = 1024;

/// Per-column top and bottom screen rows.
#[derive(Clone, Copy)]
pub struct RPlaneT {
    pub t: [i32; 1024],
    pub b: [i32; 1024],
}

impl RPlaneT {
    /// A table whose every entry is row 0.
    pub fn new() -> (r: RPlaneT)
        ensures
            forall|i: int| 0 <= i < 1024 ==> r.t@[i] == 0 && r.b@[i] == 0,
    {
        RPlaneT { t: [0i32; 1024], b: [0i32; 1024] }
    }

    /// Records the rows of one column; a column past the table is ignored.
    pub fn set_column(&mut self, x: usize, top: i32, bottom: i32) -> (written: bool)
        ensures
            written == (x < 1024),
            written ==> final(self).t@ == old(self).t@.update(x as int, top)
                && final(self).b@ == old(self).b@.update(x as int, bottom),
            !written ==> *final(self) == *old(self),
    {
        if x < MAX_SCREEN_WIDTH {
            self.t[x] = top;
            self.b[x] = bottom;
            true
        } else {
            false
        }
    }
}

/// A boundary edge of a sector, solid or an opening onto a neighbour.
#[derive(Clone, Copy, Debug, PartialEq, Eq, Structural)]
pub struct WallT {
    pub a: Vec2T,
    pub b: Vec2T,
    pub portal_top_height: i64,
    pub portal_bot_height: i64,
    pub is_portal: bool,
}

impl WallT {
    /// A wall from `(x1, y1)` to `(x2, y2)`; the portal heights count only
    /// where `is_portal` is set.
    pub fn new(
        x1: i64,
        y1: i64,
        x2: i64,
        y2: i64,
        portal_top_height: i64,
        portal_bot_height: i64,
        is_portal: bool,
    ) -> (r: WallT)
        ensures
            r == (WallT {
                a: Vec2T { x: x1, y: y1 },
                b: Vec2T { x: x2, y: y2 },
                portal_top_height,
                portal_bot_height,
                is_portal,
            }),
    {
        WallT {
            a: Vec2T::new(x1, y1),
            b: Vec2T::new(x2, y2),
            portal_top_height,
            portal_bot_height,
            is_portal,
        }
    }
}

/// A convex area of the world with its walls, colours and lookup tables.
#[derive(Clone)]
pub struct SectorT {
    pub id: i32,
    pub walls: Vec<WallT>,
    pub num_walls: i32,
    pub height: i32,
    pub elevation: i32,
    pub dist: i64,
    pub color: u32,
    pub floor_clr: u32,
    pub ceil_clr: u32,
    pub portals_floorx_ylut: RPlaneT,
    pub portals_ceilx_ylut: RPlaneT,
    pub floorx_ylut: RPlaneT,
    pub ceilx_ylut: RPlaneT,
}

impl SectorT {
    /// The wall count matches the walls held and stays within capacity.
    pub open spec fn wf(&self) -> bool {
        &&& self.num_walls as int == self.walls@.len()
        &&& 0 <= self.num_walls <= 10
    }

    /// Everything but the walls is the same in both sectors.
    pub open spec fn same_frame(&self, other: &SectorT) -> bool {
        &&& self.id == other.id
        &&& self.height == other.height
        &&& self.elevation == other.elevation
        &&& self.dist == other.dist
        &&& self.color == other.color
        &&& self.floor_clr == other.floor_clr
        &&& self.ceil_clr == other.ceil_clr
        &&& self.portals_floorx_ylut == other.portals_floorx_ylut
        &&& self.portals_ceilx_ylut == other.portals_ceilx_ylut
        &&& self.floorx_ylut == other.floorx_ylut
        &&& self.ceilx_ylut == other.ceilx_ylut
    }

    /// Both sectors hold the same walls and the same everything else.
    pub open spec fn same_as(&self, other: &SectorT) -> bool {
        &&& self.same_frame(other)
        &&& self.num_walls == other.num_walls
        &&& self.walls@ == other.walls@
    }

    /// A sector without walls, `height` world units high above a floor at
    /// `elevation`, with zeroed lookup tables.
    pub fn new(height: i32, elevation: i32, color: u32, ceil_clr: u32, floor_clr: u32) -> (r:
        SectorT)
        ensures
            r.wf(),
            r.id == 0,
            r.walls@.len() == 0,
            r.num_walls == 0,
            r.height == height,
            r.elevation == elevation,
            r.dist == 0,
            r.color == color,
            r.floor_clr == floor_clr,
            r.ceil_clr == ceil_clr,
            forall|i: int|
                0 <= i < 1024 ==> r.floorx_ylut.t@[i] == 0 && r.floorx_ylut.b@[i] == 0
                    && r.ceilx_ylut.t@[i] == 0 && r.ceilx_ylut.b@[i] == 0
                    && r.portals_floorx_ylut.t@[i] == 0 && r.portals_floorx_ylut.b@[i] == 0
                    && r.portals_ceilx_ylut.t@[i] == 0 && r.portals_ceilx_ylut.b@[i] == 0,
    {
        SectorT {
            id: 0,
            walls: Vec::new(),
            num_walls: 0,
            height,
            elevation,
            dist: 0,
            color,
            floor_clr,
            ceil_clr,
            portals_floorx_ylut: RPlaneT::new(),
            portals_ceilx_ylut: RPlaneT::new(),
            floorx_ylut: RPlaneT::new(),
            ceilx_ylut: RPlaneT::new(),
        }
    }

    /// Appends `wall` while the sector has room; a full sector stays as it
    /// was and the overflow is reported by `false`.
    pub fn add_wall(&mut self, wall: WallT) -> (added: bool)
        requires
            old(self).wf(),
        ensures
            final(self).wf(),
            final(self).same_frame(old(self)),
            added == (old(self).num_walls < 10),
            added ==> final(self).walls@ == old(self).walls@.push(wall)
                && final(self).num_walls == old(self).num_walls + 1,
            !added ==> final(self).walls@ == old(self).walls@
                && final(self).num_walls == old(self).num_walls,
    {
        if self.num_walls < MAX_WALLS {
            self.walls.push(wall);
            self.num_walls += 1;
            true
        } else {
            false
        }
    }

    /// An independent copy of the sector as it stands.
    pub fn snapshot(&self) -> (r: SectorT)
        ensures
            r.same_as(self),
    {
        SectorT {
            id: self.id,
            walls: self.walls.clone(),
            num_walls: self.num_walls,
            height: self.height,
            elevation: self.elevation,
            dist: self.dist,
            color: self.color,
            floor_clr: self.floor_clr,
            ceil_clr: self.ceil_clr,
            portals_floorx_ylut: self.portals_floorx_ylut,
            portals_ceilx_ylut: self.portals_ceilx_ylut,
            floorx_ylut: self.floorx_ylut,
            ceilx_ylut: self.ceilx_ylut,
        }
    }
}

/// The bounded, ordered set of sectors selected for one frame.
pub struct SectorsQueueT {
    pub sectors: Vec<SectorT>,
    pub num_sectors: i32,
}

impl SectorsQueueT {
    /// The sector count matches the sectors held and stays within capacity.
    pub open spec fn wf(&self) -> bool {
        &&& self.num_sectors as int == self.sectors@.len()
        &&& 0 <= self.num_sectors <= 1024
    }

    /// An empty render set.
    pub fn new() -> (r: SectorsQueueT)
        ensures
            r.wf(),
            r.num_sectors == 0,
    {
        SectorsQueueT { sectors: Vec::new(), num_sectors: 0 }
    }
}

/// Appends `wall` to `sector`; see `SectorT::add_wall`.
pub fn sector_add_wall(sector: &mut SectorT, wall: WallT) -> (added: bool)
    requires
        old(sector).wf(),
    ensures
        final(sector).wf(),
        final(sector).same_frame(old(sector)),
        added == (old(sector).num_walls < 10),
        added ==> final(sector).walls@ == old(sector).walls@.push(wall)
            && final(sector).num_walls == old(sector).num_walls + 1,
        !added ==> final(sector).walls@ == old(sector).walls@
            && final(sector).num_walls == old(sector).num_walls,
{
    sector.add_wall(wall)
}

/// Appends a snapshot of `sector` to the render set while it has room; a
/// full set stays as it was and the overflow is reported by `false`.
pub fn add_sector_to_queue(sector: &SectorT, sectors_queue: &mut SectorsQueueT) -> (added: bool)
    requires
        old(sectors_queue).wf(),
    ensures
        final(sectors_queue).wf(),
        added == (old(sectors_queue).num_sectors < 1024),
        added ==> final(sectors_queue).num_sectors == old(sectors_queue).num_sectors + 1
            && final(sectors_queue).sectors@.len() == old(sectors_queue).sectors@.len() + 1
            && final(sectors_queue).sectors@.last().same_as(sector)
            && final(sectors_queue).sectors@.drop_last() == old(sectors_queue).sectors@,
        !added ==> final(sectors_queue).num_sectors == old(sectors_queue).num_sectors
            && final(sectors_queue).sectors@ == old(sectors_queue).sectors@,
{
    if sectors_queue.num_sectors < MAX_QUEUE {
        let copy = sector.snapshot();
        sectors_queue.sectors.push(copy);
        sectors_queue.num_sectors += 1;
        proof {
            assert(sectors_queue.sectors@.drop_last() =~= old(sectors_queue).sectors@);
        }
        true
    } else {
        false
    }
}

/// A wall between two points, solid or portal as `is_portal` says.
pub fn create_wall(
    ax: i64,
    ay: i64,
    bx: i64,
    by: i64,
    portal_top_height: i64,
    portal_bot_height: i64,
    is_portal: bool,
) -> (r: WallT)
    ensures
        r == (WallT {
            a: Vec2T { x: ax, y: ay },
            b: Vec2T { x: bx, y: by },
            portal_top_height,
            portal_bot_height,
            is_portal,
        }),
{
    WallT::new(ax, ay, bx, by, portal_top_height, portal_bot_height, is_portal)
}

/// A portal between two points given in whole world units.
pub fn create_portal(ax: i32, ay: i32, bx: i32, by: i32, top_height: i32, bot_height: i32) -> (r:
    WallT)
    ensures
        r.is_portal,
        r.a.x == spec_to_fixed(ax),
        r.a.y == spec_to_fixed(ay),
        r.b.x == spec_to_fixed(bx),
        r.b.y == spec_to_fixed(by),
        r.portal_top_height == spec_to_fixed(top_height),
        r.portal_bot_height == spec_to_fixed(bot_height),
{
    WallT::new(
        to_fixed(ax),
        to_fixed(ay),
        to_fixed(bx),
        to_fixed(by),
        to_fixed(top_height),
        to_fixed(bot_height),
        true,
    )
}

/// A line on the overhead map, from `(x1, y1)` to `(x2, y2)`.
#[derive(Clone, Copy, Debug, PartialEq, Eq, Structural)]
pub struct LineT {
    pub x1: i32,
    pub y1: i32,
    pub x2: i32,
    pub y2: i32,
}

/// The whole world units of a fixed-point coordinate, rounded towards
/// zero and kept within what a map coordinate can hold.
pub open spec fn whole_units(v: i64) -> int {
    let q = if v >= 0 {
        v / 65536
    } else {
        -((-v) / 65536)
    };
    if q < i32::MIN {
        i32::MIN as int
    } else if q > i32::MAX {
        i32::MAX as int
    } else {
        q
    }
}

/// The map line of a wall: from its first corner to its second, in whole
/// world units.
pub open spec fn line_of(w: WallT) -> LineT {
    LineT {
        x1: whole_units(w.a.x) as i32,
        y1: whole_units(w.a.y) as i32,
        x2: whole_units(w.b.x) as i32,
        y2: whole_units(w.b.y) as i32,
    }
}

/// The map lines of a sector's walls, in the walls' order.
pub open spec fn sector_lines(walls: Seq<WallT>, upto: int) -> Seq<LineT> {
    Seq::new(upto as nat, |j: int| line_of(walls[j]))
}

/// The map lines of the first `upto` sectors, sector after sector.
pub open spec fn lines_of(sectors: Seq<SectorT>, upto: int) -> Seq<LineT>
    decreases upto,
{
    if upto <= 0 {
        Seq::empty()
    } else {
        lines_of(sectors, upto - 1) + sector_lines(
            sectors[upto - 1].walls@,
            sectors[upto - 1].walls@.len() as int,
        )
    }
}

fn to_whole_units(v: i64) -> (r: i32)
    ensures
        r == whole_units(v),
{
    let q: i128 = if v >= 0 {
        (v as i128) / 65536
    } else {
        -((-(v as i128)) / 65536)
    };
    if q < i32::MIN as i128 {
        i32::MIN
    } else if q > i32::MAX as i128 {
        i32::MAX
    } else {
        q as i32
    }
}

/// The lines of the overhead map: one for every wall of every sector of
/// the game, in order. A world without sectors gives none.
pub fn draw_walls(game_state: &GameStateT) -> (lines: Vec<LineT>)
    ensures
        lines@ == lines_of(game_state.sectors@, game_state.sectors@.len() as int),
{
    let mut lines: Vec<LineT> = Vec::new();
    let mut i: usize = 0;
    assert(lines@ =~= lines_of(game_state.sectors@, 0));
    while i < game_state.sectors.len()
        invariant
            0 <= i <= game_state.sectors@.len(),
            lines@ == lines_of(game_state.sectors@, i as int),
        decreases game_state.sectors@.len() - i,
    {
        let sector = &game_state.sectors[i];
        let mut j: usize = 0;
        assert(lines@ =~= lines_of(game_state.sectors@, i as int) + sector_lines(sector.walls@, 0));
        while j < sector.walls.len()
            invariant
                0 <= j <= sector.walls@.len(),
                lines@ == lines_of(game_state.sectors@, i as int) + sector_lines(
                    sector.walls@,
                    j as int,
                ),
            decreases sector.walls@.len() - j,
        {
            let w = sector.walls[j];
            let line = LineT {
                x1: to_whole_units(w.a.x),
                y1: to_whole_units(w.a.y),
                x2: to_whole_units(w.b.x),
                y2: to_whole_units(w.b.y),
            };
            lines.push(line);
            assert(lines@ =~= lines_of(game_state.sectors@, i as int) + sector_lines(
                sector.walls@,
                j + 1,
            ));
            j += 1;
        }
        i += 1;
    }
    lines
}

} // verus!
