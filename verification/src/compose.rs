use vstd::prelude::*;
use vstd::arithmetic::div_mod::lemma_fundamental_div_mod_converse;
use crate::planes::{column_of, ColumnT};
use crate::portal::{ViewT, VisitT, WindowT};
use crate::renderer::{SectorT, SectorsQueueT};
use crate::screen::Screen;

verus! {

/// The colour of row `r` of a drawn column: the ceiling's above the wall,
/// the floor's from the wall's lower edge down, the wall's between; none
/// inside a portal's opening, which is left to the sector behind it.
pub open spec fn colour_at(col: ColumnT, wall: u32, floor: u32, ceil: u32, r: int) -> Option<u32> {
    if r < col.ceil_b {
        Some(ceil)
    } else if r >= col.floor_t {
        Some(floor)
    } else if col.portal_ceil_b <= r < col.portal_floor_t {
        None
    } else {
        Some(wall)
    }
}

/// What the sector writes to pixel `idx` of a screen `width` columns wide:
/// nothing where the pixel is already written, where its column is outside
/// the window or holds no wall of the sector, and inside an opening.
pub open spec fn painted_pixel(
    written: bool,
    sector: &SectorT,
    window: WindowT,
    width: int,
    idx: int,
) -> Option<u32> {
    let x = idx % width;
    let col = column_of(sector, x);
    if written || !(window.lo <= x < window.hi) || col.floor_b <= 0 {
        None
    } else {
        colour_at(col, sector.color, sector.floor_clr, sector.ceil_clr, idx / width)
    }
}

/// The pixels after the sector is painted on the first `limit` of them.
pub open spec fn pass_pixels(
    pixels: Seq<u32>,
    written: Seq<bool>,
    sector: &SectorT,
    window: WindowT,
    width: int,
    limit: int,
) -> Seq<u32> {
    Seq::new(
        pixels.len(),
        |i: int|
            if i < limit {
                match painted_pixel(written[i], sector, window, width, i) {
                    Some(c) => c,
                    None => pixels[i],
                }
            } else {
                pixels[i]
            },
    )
}

/// Which pixels are written after the sector is painted on the first
/// `limit` of them.
pub open spec fn pass_written(
    written: Seq<bool>,
    sector: &SectorT,
    window: WindowT,
    width: int,
    limit: int,
) -> Seq<bool> {
    Seq::new(
        written.len(),
        |i: int| written[i] || (i < limit && painted_pixel(written[i], sector, window, width, i) is Some),
    )
}

/// How many pixels of a buffer of `len` pixels the view shows.
pub open spec fn paint_limit(view: ViewT, len: int) -> int {
    if len < view.width * view.height {
        len
    } else {
        view.width * view.height
    }
}

/// Paints one sector through its window onto the pixels not yet written,
/// row after row, each pixel from its column's rows in the sector's
/// lookup tables.
pub fn paint_sector(
    screen: &mut Screen,
    written: &mut Vec<bool>,
    sector: &SectorT,
    window: WindowT,
    view: &ViewT,
)
    requires
        view.wf(),
        old(screen).wf(),
        old(written)@.len() == old(screen).screen_buffer@.len(),
    ensures
        final(screen).wf(),
        final(screen).screen_buffer@ == pass_pixels(
            old(screen).screen_buffer@,
            old(written)@,
            sector,
            window.spec_narrowed(0, view.width),
            view.width as int,
            paint_limit(*view, old(screen).screen_buffer@.len() as int),
        ),
        final(written)@ == pass_written(
            old(written)@,
            sector,
            window.spec_narrowed(0, view.width),
            view.width as int,
            paint_limit(*view, old(screen).screen_buffer@.len() as int),
        ),
{
    let win = window.narrowed(0, view.width);
    let len: usize = screen.screen_buffer.len();
    let w: usize = view.width as usize;
    assert(view.width * view.height <= 1024 * 0x7fff_ffff) by (nonlinear_arith)
        requires
            0 <= view.width <= 1024,
            0 <= view.height <= 0x7fff_ffff,
    ;
    assert(0 <= view.width * view.height) by (nonlinear_arith)
        requires
            0 <= view.width,
            0 <= view.height,
    ;
    assert(view.width == 0 ==> view.width * view.height == 0) by (nonlinear_arith);
    let total: u64 = (view.width as u64) * (view.height as u64);
    let limit: usize = if (len as u64) < total {
        len
    } else {
        total as usize
    };
    let ghost pixels0 = screen.screen_buffer@;
    let ghost written0 = written@;
    let mut idx: usize = 0;
    let mut x: usize = 0;
    let mut r: usize = 0;
    assert(screen.screen_buffer@ =~= pass_pixels(pixels0, written0, sector, win, w as int, 0));
    assert(written@ =~= pass_written(written0, sector, win, w as int, 0));
    while idx < limit
        invariant
            view.wf(),
            w == view.width,
            len == pixels0.len(),
            len == written0.len(),
            limit == paint_limit(*view, len as int),
            limit <= len,
            win == window.spec_narrowed(0, view.width),
            0 <= idx <= limit,
            idx == r * w + x,
            idx < limit ==> x < w,
            r <= idx,
            screen.wf(),
            screen.screen_buffer@ == pass_pixels(pixels0, written0, sector, win, w as int, idx as int),
            written@ == pass_written(written0, sector, win, w as int, idx as int),
        decreases limit - idx,
    {
        proof {
            lemma_fundamental_div_mod_converse(idx as int, w as int, r as int, x as int);
        }
        let ghost pixels1 = screen.screen_buffer@;
        let ghost written1 = written@;
        if !written[idx] && win.lo as i64 <= x as i64 && (x as i64) < win.hi as i64 {
            if sector.floorx_ylut.b[x] > 0 {
                let row: i128 = r as i128;
                if row < sector.ceilx_ylut.b[x] as i128 {
                    screen.screen_buffer[idx] = sector.ceil_clr;
                    written[idx] = true;
                } else if row >= sector.floorx_ylut.t[x] as i128 {
                    screen.screen_buffer[idx] = sector.floor_clr;
                    written[idx] = true;
                } else if sector.portals_ceilx_ylut.b[x] as i128 <= row && row
                    < sector.portals_floorx_ylut.t[x] as i128 {
                } else {
                    screen.screen_buffer[idx] = sector.color;
                    written[idx] = true;
                }
            }
        }
        proof {
            assert(written1[idx as int] == written0[idx as int]);
            assert(pixels1[idx as int] == pixels0[idx as int]);
            assert(screen.screen_buffer@ =~= pass_pixels(
                pixels0,
                written0,
                sector,
                win,
                w as int,
                idx + 1,
            ));
            assert(written@ =~= pass_written(written0, sector, win, w as int, idx + 1));
            assert((r + 1) * w == r * w + w) by (nonlinear_arith);
        }
        x += 1;
        if x == w {
            x = 0;
            r += 1;
        }
        idx += 1;
    }
}

/// Sector `a` is painted before sector `b`: it is nearer, or as near and
/// earlier in the render set.
pub open spec fn comes_before(sectors: Seq<SectorT>, a: usize, b: usize) -> bool {
    sectors[a as int].dist < sectors[b as int].dist || (sectors[a as int].dist
        == sectors[b as int].dist && a < b)
}

/// `order` lists every sector of the render set once, nearest first, and
/// of two that are as near the one that is earlier in the set.
pub open spec fn is_nearest_first(order: Seq<usize>, sectors: Seq<SectorT>) -> bool {
    &&& order.len() == sectors.len()
    &&& forall|i: int| 0 <= i < order.len() ==> (#[trigger] order[i]) < sectors.len()
    &&& forall|i: int, j: int|
        0 <= i < j < order.len() ==> comes_before(sectors, #[trigger] order[i], #[trigger] order[j])
}

/// The order in which the render set is painted.
pub fn nearest_first(queue: &SectorsQueueT) -> (order: Vec<usize>)
    ensures
        is_nearest_first(order@, queue.sectors@),
{
    let n: usize = queue.sectors.len();
    let mut remaining: Vec<usize> = Vec::new();
    let mut t: usize = 0;
    while t < n
        invariant
            0 <= t <= n,
            remaining@.len() == t,
            forall|i: int| 0 <= i < t ==> #[trigger] remaining@[i] == i,
        decreases n - t,
    {
        remaining.push(t);
        t += 1;
    }
    let mut order: Vec<usize> = Vec::new();
    while remaining.len() > 0
        invariant
            n == queue.sectors@.len(),
            order@.len() + remaining@.len() == n,
            forall|i: int| 0 <= i < remaining@.len() ==> (#[trigger] remaining@[i]) < n,
            forall|i: int| 0 <= i < order@.len() ==> (#[trigger] order@[i]) < n,
            forall|i: int, j: int|
                0 <= i < j < remaining@.len() ==> (#[trigger] remaining@[i]) != (
                #[trigger] remaining@[j]),
            forall|i: int, j: int|
                0 <= i < j < order@.len() ==> comes_before(
                    queue.sectors@,
                    #[trigger] order@[i],
                    #[trigger] order@[j],
                ),
            forall|i: int, j: int|
                0 <= i < order@.len() && 0 <= j < remaining@.len() ==> comes_before(
                    queue.sectors@,
                    #[trigger] order@[i],
                    #[trigger] remaining@[j],
                ),
        decreases remaining@.len(),
    {
        let mut best: usize = 0;
        let mut p: usize = 1;
        while p < remaining.len()
            invariant
                n == queue.sectors@.len(),
                0 <= best < p,
                1 <= p <= remaining@.len(),
                forall|i: int| 0 <= i < remaining@.len() ==> (#[trigger] remaining@[i]) < n,
                forall|i: int, j: int|
                    0 <= i < j < remaining@.len() ==> (#[trigger] remaining@[i]) != (
                    #[trigger] remaining@[j]),
                forall|q: int|
                    0 <= q < p && q != best ==> comes_before(
                        queue.sectors@,
                        remaining@[best as int],
                        #[trigger] remaining@[q],
                    ),
            decreases remaining@.len() - p,
        {
            let here: i64 = queue.sectors[remaining[p]].dist;
            let least: i64 = queue.sectors[remaining[best]].dist;
            if here < least || (here == least && remaining[p] < remaining[best]) {
                best = p;
            }
            p += 1;
        }
        let ghost held = remaining@;
        let ghost listed = order@;
        let chosen: usize = remaining[best];
        let last: usize = remaining[remaining.len() - 1];
        remaining[best] = last;
        remaining.pop();
        order.push(chosen);
        proof {
            assert forall|i: int| 0 <= i < remaining@.len() implies (#[trigger] remaining@[i]) < n
                && comes_before(queue.sectors@, chosen, remaining@[i]) by {
                if i == best {
                    assert(remaining@[i] == held[held.len() - 1]);
                } else {
                    assert(remaining@[i] == held[i]);
                }
            }
            assert forall|i: int, j: int| 0 <= i < j < remaining@.len() implies (
            #[trigger] remaining@[i]) != (#[trigger] remaining@[j]) by {
                let a = if i == best {
                    held.len() - 1
                } else {
                    i
                };
                let b = if j == best {
                    held.len() - 1
                } else {
                    j
                };
                assert(remaining@[i] == held[a]);
                assert(remaining@[j] == held[b]);
            }
            assert forall|i: int, j: int| 0 <= i < j < order@.len() implies comes_before(
                queue.sectors@,
                #[trigger] order@[i],
                #[trigger] order@[j],
            ) by {
                assert(order@[i] == listed[i]);
                if j < listed.len() {
                    assert(order@[j] == listed[j]);
                } else {
                    assert(order@[j] == held[best as int]);
                }
            }
            assert forall|i: int, j: int|
                0 <= i < order@.len() && 0 <= j < remaining@.len() implies comes_before(
                queue.sectors@,
                #[trigger] order@[i],
                #[trigger] remaining@[j],
            ) by {
                let b = if j == best {
                    held.len() - 1
                } else {
                    j
                };
                assert(remaining@[j] == held[b]);
                if i < listed.len() {
                    assert(order@[i] == listed[i]);
                } else {
                    assert(order@[i] == chosen);
                }
            }
        }
    }
    order
}

/// The pixels, and which of them are written, after the first `upto`
/// sectors of `order` are painted, each through the window of its visit.
pub open spec fn composed(
    pixels: Seq<u32>,
    written: Seq<bool>,
    sectors: Seq<SectorT>,
    visits: Seq<VisitT>,
    order: Seq<usize>,
    view: ViewT,
    upto: int,
) -> (Seq<u32>, Seq<bool>)
    decreases upto,
{
    if upto <= 0 {
        (pixels, written)
    } else {
        let prev = composed(pixels, written, sectors, visits, order, view, upto - 1);
        let i = order[upto - 1] as int;
        let win = visits[i].window.spec_narrowed(0, view.width);
        let limit = paint_limit(view, pixels.len() as int);
        (
            pass_pixels(prev.0, prev.1, &sectors[i], win, view.width as int, limit),
            pass_written(prev.1, &sectors[i], win, view.width as int, limit),
        )
    }
}

/// Paints the render set onto the screen, nearest sector first, so that
/// no sector writes a pixel that a nearer one has written, nor outside its
/// own window. Returns the order in which the sectors were painted.
pub fn composite(
    screen: &mut Screen,
    queue: &SectorsQueueT,
    visits: &Vec<VisitT>,
    view: &ViewT,
) -> (order: Vec<usize>)
    requires
        view.wf(),
        old(screen).wf(),
        visits@.len() == queue.sectors@.len(),
    ensures
        final(screen).wf(),
        is_nearest_first(order@, queue.sectors@),
        final(screen).screen_buffer@ == composed(
            old(screen).screen_buffer@,
            Seq::new(old(screen).screen_buffer@.len(), |i: int| false),
            queue.sectors@,
            visits@,
            order@,
            *view,
            order@.len() as int,
        ).0,
{
    let order = nearest_first(queue);
    let len: usize = screen.screen_buffer.len();
    let mut written: Vec<bool> = vec![false; len];
    let ghost pixels0 = screen.screen_buffer@;
    let ghost blank = Seq::new(len as nat, |i: int| false);
    assert(written@ =~= blank);
    let mut s: usize = 0;
    while s < order.len()
        invariant
            view.wf(),
            screen.wf(),
            0 <= s <= order@.len(),
            is_nearest_first(order@, queue.sectors@),
            visits@.len() == queue.sectors@.len(),
            len == pixels0.len(),
            screen.screen_buffer@.len() == len,
            written@.len() == len,
            (screen.screen_buffer@, written@) == composed(
                pixels0,
                blank,
                queue.sectors@,
                visits@,
                order@,
                *view,
                s as int,
            ),
        decreases order@.len() - s,
    {
        let i: usize = order[s];
        paint_sector(screen, &mut written, &queue.sectors[i], visits[i].window, view);
        s += 1;
    }
    order
}

/// Painting a sector changes no pixel that is already written, none whose
/// column is outside the sector's window, and none beyond the limit.
pub proof fn lemma_painting_keeps_what_is_not_its_own(
    pixels: Seq<u32>,
    written: Seq<bool>,
    sector: &SectorT,
    window: WindowT,
    width: int,
    limit: int,
    i: int,
)
    requires
        pixels.len() == written.len(),
        0 <= i < pixels.len(),
        written[i] || !(window.lo <= i % width < window.hi) || i >= limit,
    ensures
        pass_pixels(pixels, written, sector, window, width, limit)[i] == pixels[i],
        pass_written(written, sector, window, width, limit)[i] == written[i],
{
}

} // verus!
