use vstd::prelude::*;
use vstd::arithmetic::div_mod::{lemma_fundamental_div_mod, lemma_fundamental_div_mod_converse};
use crate::typedefs::Vec2T;

verus! {

/// The depth, in fixed-point units, in front of which nothing is drawn.
pub const NEAR_PLANE: i64 = 4096;

/// The largest camera-space coordinate; what lies beyond is drawn there.
pub const VIEW_LIMIT: i64 = 0x100_0000_0000;

/// `v` kept between `lo` and `hi`.
pub open spec fn clamp(v: int, lo: int, hi: int) -> int {
    if v < lo {
        lo
    } else if v > hi {
        hi
    } else {
        v
    }
}

/// A point as the camera sees it: how far ahead, and how far to the right.
#[derive(Clone, Copy, Debug, PartialEq, Eq, Structural)]
pub struct CameraPointT {
    pub depth: i64,
    pub side: i64,
}

impl CameraPointT {
    /// Both coordinates are within the view limit.
    pub open spec fn wf(&self) -> bool {
        &&& -0x100_0000_0000 <= self.depth <= 0x100_0000_0000
        &&& -0x100_0000_0000 <= self.side <= 0x100_0000_0000
    }
}

/// A wall's two ends in camera space.
#[derive(Clone, Copy, Debug, PartialEq, Eq, Structural)]
pub struct SegmentT {
    pub a: CameraPointT,
    pub b: CameraPointT,
}

fn mul_wide(a: i128, b: i128) -> (r: i128)
    requires
        -0x2_0000_0000_0000_0000 <= a <= 0x2_0000_0000_0000_0000,
        -0x200_0000_0000 <= b <= 0x200_0000_0000,
    ensures
        r == a * b,
        -0x400_0000_0000_0000_0000_0000_0000 <= r <= 0x400_0000_0000_0000_0000_0000_0000,
{
    assert(-0x400_0000_0000_0000_0000_0000_0000 <= a * b <= 0x400_0000_0000_0000_0000_0000_0000)
        by (nonlinear_arith)
        requires
            -0x2_0000_0000_0000_0000 <= a <= 0x2_0000_0000_0000_0000,
            -0x200_0000_0000 <= b <= 0x200_0000_0000,
    ;
    a * b
}

fn floor_div(n: i128, d: i128) -> (q: i128)
    requires
        d > 0,
        -0x1000_0000_0000_0000_0000_0000_0000 <= n <= 0x1000_0000_0000_0000_0000_0000_0000,
        d <= 0x1000_0000_0000_0000_0000_0000_0000,
    ensures
        q == n / d,
{
    if n >= 0 {
        let q: u128 = (n as u128) / (d as u128);
        proof {
            lemma_fundamental_div_mod(n as int, d as int);
            assert(d * (n / d) >= n / d) by (nonlinear_arith)
                requires
                    d >= 1,
                    n / d >= 0,
            ;
        }
        q as i128
    } else {
        let m: u128 = (-n) as u128;
        let s: u128 = m + (d as u128) - 1;
        let q: u128 = s / (d as u128);
        proof {
            let di = d as int;
            let si = s as int;
            lemma_fundamental_div_mod(si, di);
            assert(di * (si / di) >= si / di) by (nonlinear_arith)
                requires
                    di >= 1,
                    si / di >= 0,
            ;
            let r = di - 1 - si % di;
            assert((-(si / di)) * di == -(di * (si / di))) by (nonlinear_arith);
            lemma_fundamental_div_mod_converse(n as int, di, -(si / di), r);
        }
        -(q as i128)
    }
}

fn clamp_wide(v: i128, lo: i64, hi: i64) -> (r: i64)
    requires
        lo <= hi,
    ensures
        r == clamp(v as int, lo as int, hi as int),
{
    if v < lo as i128 {
        lo
    } else if v > hi as i128 {
        hi
    } else {
        v as i64
    }
}

/// Where `p` lies for a camera at `eye` that looks along `heading`, the
/// unit vector of the facing angle in fixed point (components beyond one
/// unit count as one unit): the world is moved by `-eye` and turned by the
/// facing angle's opposite.
pub open spec fn spec_to_camera(p: Vec2T, eye: Vec2T, heading: Vec2T) -> CameraPointT {
    let dx = p.x - eye.x;
    let dy = p.y - eye.y;
    let c = clamp(heading.x as int, -65536, 65536);
    let s = clamp(heading.y as int, -65536, 65536);
    CameraPointT {
        depth: clamp((dx * c + dy * s) / 65536, -0x100_0000_0000, 0x100_0000_0000) as i64,
        side: clamp((dx * s - dy * c) / 65536, -0x100_0000_0000, 0x100_0000_0000) as i64,
    }
}

/// Moves a world point into camera space; see `spec_to_camera`.
pub fn to_camera(p: Vec2T, eye: Vec2T, heading: Vec2T) -> (r: CameraPointT)
    ensures
        r == spec_to_camera(p, eye, heading),
        r.wf(),
{
    let dx: i128 = p.x as i128 - eye.x as i128;
    let dy: i128 = p.y as i128 - eye.y as i128;
    let c: i128 = clamp_wide(heading.x as i128, -65536, 65536) as i128;
    let s: i128 = clamp_wide(heading.y as i128, -65536, 65536) as i128;
    let ahead: i128 = mul_wide(dx, c) + mul_wide(dy, s);
    let right: i128 = mul_wide(dx, s) - mul_wide(dy, c);
    CameraPointT {
        depth: clamp_wide(floor_div(ahead, 65536), -VIEW_LIMIT, VIEW_LIMIT),
        side: clamp_wide(floor_div(right, 65536), -VIEW_LIMIT, VIEW_LIMIT),
    }
}

/// The side at which the segment from `behind` to `ahead` crosses the near
/// plane.
pub open spec fn spec_crossing(behind: CameraPointT, ahead: CameraPointT) -> int {
    clamp(
        behind.side + ((ahead.side - behind.side) * (4096 - behind.depth)) / (ahead.depth
            - behind.depth),
        -0x100_0000_0000,
        0x100_0000_0000,
    )
}

/// The part of the segment at or beyond the near plane; none where both
/// ends are in front of it.
pub open spec fn spec_clip_near(seg: SegmentT) -> Option<SegmentT> {
    if seg.a.depth < 4096 && seg.b.depth < 4096 {
        None
    } else if seg.a.depth < 4096 {
        Some(
            SegmentT {
                a: CameraPointT { depth: 4096, side: spec_crossing(seg.a, seg.b) as i64 },
                b: seg.b,
            },
        )
    } else if seg.b.depth < 4096 {
        Some(
            SegmentT {
                a: seg.a,
                b: CameraPointT { depth: 4096, side: spec_crossing(seg.b, seg.a) as i64 },
            },
        )
    } else {
        Some(seg)
    }
}

fn crossing(behind: CameraPointT, ahead: CameraPointT) -> (r: i64)
    requires
        behind.wf(),
        ahead.wf(),
        behind.depth < 4096 <= ahead.depth,
    ensures
        r == spec_crossing(behind, ahead),
        -0x100_0000_0000 <= r <= 0x100_0000_0000,
{
    let run: i128 = ahead.side as i128 - behind.side as i128;
    let need: i128 = NEAR_PLANE as i128 - behind.depth as i128;
    let span: i128 = ahead.depth as i128 - behind.depth as i128;
    let offset: i128 = floor_div(mul_wide(run, need), span);
    proof {
        let n = run as int * need as int;
        lemma_fundamental_div_mod(n, span as int);
        assert(-0x400_0000_0000_0000_0000_0000_0000 - 1 <= n / (span as int)
            <= 0x400_0000_0000_0000_0000_0000_0000) by (nonlinear_arith)
            requires
                span >= 1,
                -0x400_0000_0000_0000_0000_0000_0000 <= n <= 0x400_0000_0000_0000_0000_0000_0000,
                n == span * (n / (span as int)) + n % (span as int),
                0 <= n % (span as int) < span,
        ;
    }
    clamp_wide(behind.side as i128 + offset, -VIEW_LIMIT, VIEW_LIMIT)
}

/// Cuts a segment at the near plane; see `spec_clip_near`.
pub fn clip_near(seg: SegmentT) -> (r: Option<SegmentT>)
    requires
        seg.a.wf(),
        seg.b.wf(),
    ensures
        r == spec_clip_near(seg),
        r matches Some(s) ==> s.a.wf() && s.b.wf() && s.a.depth >= 4096 && s.b.depth >= 4096,
{
    if seg.a.depth < NEAR_PLANE && seg.b.depth < NEAR_PLANE {
        None
    } else if seg.a.depth < NEAR_PLANE {
        Some(
            SegmentT { a: CameraPointT { depth: NEAR_PLANE, side: crossing(seg.a, seg.b) }, b: seg.b },
        )
    } else if seg.b.depth < NEAR_PLANE {
        Some(
            SegmentT { a: seg.a, b: CameraPointT { depth: NEAR_PLANE, side: crossing(seg.b, seg.a) } },
        )
    } else {
        Some(seg)
    }
}

/// The screen column of a point ahead of the camera: the screen's middle
/// column plus the side over the depth, scaled by the focal length.
pub open spec fn spec_project_column(p: CameraPointT, half_w: i32, focal: i32) -> int {
    clamp(half_w + (p.side * focal) / (p.depth as int), i32::MIN as int, i32::MAX as int)
}

/// The screen column of a camera-space point; see `spec_project_column`.
pub fn project_column(p: CameraPointT, half_w: i32, focal: i32) -> (r: i32)
    requires
        p.wf(),
        p.depth > 0,
    ensures
        r == spec_project_column(p, half_w, focal),
{
    let n: i128 = mul_wide(p.side as i128, focal as i128);
    let q: i128 = floor_div(n, p.depth as i128);
    proof {
        lemma_quotient_bound(n as int, p.depth as int);
    }
    clamp_wide(half_w as i128 + q, i32::MIN as i64, i32::MAX as i64) as i32
}

/// The screen row of the height `height` seen at depth `depth` by an eye
/// at height `eye_z`: the screen's middle row minus the height above the
/// eye over the depth, scaled by the focal length. Rows grow downwards.
pub open spec fn spec_project_row(height: i64, eye_z: i64, depth: i64, half_h: i32, focal: i32)
    -> int {
    clamp(
        half_h - ((height - eye_z) * focal) / (depth as int),
        i32::MIN as int,
        i32::MAX as int,
    )
}

/// The screen row of a height at a depth; see `spec_project_row`.
pub fn project_row(height: i64, eye_z: i64, depth: i64, half_h: i32, focal: i32) -> (r: i32)
    requires
        0 < depth <= 0x100_0000_0000,
    ensures
        r == spec_project_row(height, eye_z, depth, half_h, focal),
{
    let n: i128 = mul_wide(height as i128 - eye_z as i128, focal as i128);
    let q: i128 = floor_div(n, depth as i128);
    proof {
        lemma_quotient_bound(n as int, depth as int);
    }
    clamp_wide(half_h as i128 - q, i32::MIN as i64, i32::MAX as i64) as i32
}

/// The row at column `x` of the line that runs from row `y0` at column
/// `x0` to row `y1` at column `x1`.
pub open spec fn spec_row_at(y0: i32, y1: i32, x0: i32, x1: i32, x: i32) -> int {
    clamp(y0 + ((y1 - y0) * (x - x0)) / (x1 - x0), i32::MIN as int, i32::MAX as int)
}

/// The row of a screen line at column `x`; see `spec_row_at`.
pub fn row_at(y0: i32, y1: i32, x0: i32, x1: i32, x: i32) -> (r: i32)
    requires
        x0 < x1,
    ensures
        r == spec_row_at(y0, y1, x0, x1, x),
{
    let n: i128 = mul_wide(y1 as i128 - y0 as i128, x as i128 - x0 as i128);
    let d: i128 = x1 as i128 - x0 as i128;
    let q: i128 = floor_div(n, d);
    proof {
        lemma_quotient_bound(n as int, d as int);
    }
    clamp_wide(y0 as i128 + q, i32::MIN as i64, i32::MAX as i64) as i32
}

proof fn lemma_quotient_bound(n: int, d: int)
    requires
        d >= 1,
        -0x400_0000_0000_0000_0000_0000_0000 <= n <= 0x400_0000_0000_0000_0000_0000_0000,
    ensures
        -0x400_0000_0000_0000_0000_0000_0000 - 1 <= n / d <= 0x400_0000_0000_0000_0000_0000_0000,
{
    lemma_fundamental_div_mod(n, d);
    assert(-0x400_0000_0000_0000_0000_0000_0000 - 1 <= n / d <= 0x400_0000_0000_0000_0000_0000_0000)
        by (nonlinear_arith)
        requires
            d >= 1,
            -0x400_0000_0000_0000_0000_0000_0000 <= n <= 0x400_0000_0000_0000_0000_0000_0000,
            n == d * (n / d) + n % d,
            0 <= n % d < d,
    ;
}

} // verus!
