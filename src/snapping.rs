use vstd::prelude::*;
use crate::canvas::{AlignmentGuide, AlignmentType};
use crate::geometry::{abs_spec, half_floor, Point, Rect, COORD_LIMIT, SIZE_LIMIT};

verus! {

/// Distance under which a guide shows and the dragged widget snaps.
pub const SNAP_THRESHOLD: i64 = 8;

/// How far a widget-to-widget guide reaches past the two widgets.
pub const GUIDE_OVERHANG: i64 = 20;

/// Distance from a viewport side under which a floating container counts as
/// attached to that side.
pub const EDGE_SNAP_DISTANCE: i64 = 50;

/// A side of the viewport a floating container may attach to.
#[derive(Clone, Copy, Debug, PartialEq, Eq, Structural)]
pub enum CanvasEdge {
    Left,
    Right,
}

/// Start of `r` along the horizontal axis (`horiz`) or the vertical one.
pub open spec fn lo(r: Rect, horiz: bool) -> int {
    if horiz {
        r.x as int
    } else {
        r.y as int
    }
}

/// Extent of `r` along the horizontal axis (`horiz`) or the vertical one.
pub open spec fn ext(r: Rect, horiz: bool) -> int {
    if horiz {
        r.w as int
    } else {
        r.h as int
    }
}

/// Half of `v2`, where a half pixel is rounded towards `p`: the start of a
/// span that centers it on `v2 / 2` while moving it as little as possible.
pub open spec fn half_toward(p: int, v2: int) -> int {
    if v2 % 2 == 0 {
        v2 / 2
    } else if 2 * p > v2 {
        v2 / 2 + 1
    } else {
        v2 / 2
    }
}

/// Where a span starting at `p` of length `s` goes for target `t`, given
/// `cur` from the targets before: aligned centers, then start edges, then
/// end edges, each one overriding the ones before when within the threshold.
pub open spec fn snap_target(p: int, s: int, t: Rect, horiz: bool, cur: int) -> int {
    let tc2 = 2 * lo(t, horiz) + ext(t, horiz);
    let a = if abs_spec((2 * p + s) - tc2) < 2 * SNAP_THRESHOLD {
        half_toward(p, tc2 - s)
    } else {
        cur
    };
    let b = if abs_spec(p - lo(t, horiz)) < SNAP_THRESHOLD {
        lo(t, horiz)
    } else {
        a
    };
    if abs_spec((p + s) - (lo(t, horiz) + ext(t, horiz))) < SNAP_THRESHOLD {
        lo(t, horiz) + ext(t, horiz) - s
    } else {
        b
    }
}

/// Snapping against `ts` in order, each later target overriding the earlier.
pub open spec fn snap_over(p: int, s: int, ts: Seq<Rect>, horiz: bool, init: int) -> int
    decreases ts.len(),
{
    if ts.len() == 0 {
        init
    } else {
        snap_target(p, s, ts.last(), horiz, snap_over(p, s, ts.drop_last(), horiz, init))
    }
}

/// The snapped start of a span at `p` of length `s`: first against the
/// viewport's center, then against each target in order.
pub open spec fn snapped(p: int, s: int, vp: Rect, ts: Seq<Rect>, horiz: bool) -> int {
    let vc2 = 2 * lo(vp, horiz) + ext(vp, horiz);
    let init = if abs_spec((2 * p + s) - vc2) < 2 * SNAP_THRESHOLD {
        half_toward(p, vc2 - s)
    } else {
        p
    };
    snap_over(p, s, ts, horiz, init)
}

/// Rectangles that stay within a wide band around the coordinate range.
pub open spec fn targets_ok(ts: Seq<Rect>) -> bool {
    forall|k: int| 0 <= k < ts.len() ==> (#[trigger] ts[k]).wf()
}

/// Half of `v2`, a half pixel rounded towards `p`.
fn half_toward_exec(p: i64, v2: i64) -> (r: i64)
    requires
        -4 * COORD_LIMIT <= p <= 4 * COORD_LIMIT,
        -8 * COORD_LIMIT <= v2 <= 8 * COORD_LIMIT,
    ensures
        r == half_toward(p as int, v2 as int),
{
    let h = half_floor(v2);
    if 2 * h == v2 {
        h
    } else if 2 * p > v2 {
        h + 1
    } else {
        h
    }
}

/// The snapped start of a span at `p` of length `s` along one axis; it
/// moves the span by less than the snap threshold.
pub fn snap_axis(p: i64, s: i64, vp: Rect, targets: &Vec<Rect>, horiz: bool) -> (r: i64)
    requires
        -COORD_LIMIT <= p <= COORD_LIMIT,
        0 <= s <= SIZE_LIMIT,
        vp.wf(),
        targets_ok(targets@),
    ensures
        r == snapped(p as int, s as int, vp, targets@, horiz),
        abs_spec(r - p) < SNAP_THRESHOLD,
        -2 * COORD_LIMIT <= r <= 2 * COORD_LIMIT,
{
    let (vlo, vext) = if horiz {
        (vp.x, vp.w)
    } else {
        (vp.y, vp.h)
    };
    let vc2 = 2 * vlo + vext;
    let d = 2 * p + s - vc2;
    let mut cur: i64 = if -2 * SNAP_THRESHOLD < d && d < 2 * SNAP_THRESHOLD {
        half_toward_exec(p, vc2 - s)
    } else {
        p
    };
    let ghost init = cur as int;
    let mut k: usize = 0;
    while k < targets.len()
        invariant
            -COORD_LIMIT <= p <= COORD_LIMIT,
            0 <= s <= SIZE_LIMIT,
            targets_ok(targets@),
            k <= targets@.len(),
            cur == snap_over(p as int, s as int, targets@.subrange(0, k as int), horiz, init),
            abs_spec(cur - p) < SNAP_THRESHOLD,
        decreases targets@.len() - k,
    {
        let t = targets[k];
        assert(targets@.subrange(0, k + 1).drop_last() == targets@.subrange(0, k as int));
        assert(targets@.subrange(0, k + 1).last() == t);
        let (tlo, text) = if horiz {
            (t.x, t.w)
        } else {
            (t.y, t.h)
        };
        let tc2 = 2 * tlo + text;
        let dc = 2 * p + s - tc2;
        if -2 * SNAP_THRESHOLD < dc && dc < 2 * SNAP_THRESHOLD {
            cur = half_toward_exec(p, tc2 - s);
        }
        if -SNAP_THRESHOLD < p - tlo && p - tlo < SNAP_THRESHOLD {
            cur = tlo;
        }
        let de = (p + s) - (tlo + text);
        if -SNAP_THRESHOLD < de && de < SNAP_THRESHOLD {
            cur = tlo + text - s;
        }
        k = k + 1;
    }
    assert(targets@.subrange(0, targets@.len() as int) == targets@);
    cur
}

/// Center snapping wins on an axis where the dragged span's center lies
/// within the threshold of target `j`'s center, their lengths have the same
/// parity, neither edge of target `j` is within the threshold, and no later
/// target is within the threshold in any way: the snapped span is then
/// centered exactly on target `j`.
pub proof fn lemma_center_snap_exact(
    p: int,
    s: int,
    vp: Rect,
    ts: Seq<Rect>,
    horiz: bool,
    j: int,
)
    requires
        0 <= j < ts.len(),
        abs_spec((2 * p + s) - (2 * lo(ts[j], horiz) + ext(ts[j], horiz))) < 2 * SNAP_THRESHOLD,
        (s - ext(ts[j], horiz)) % 2 == 0,
        abs_spec(p - lo(ts[j], horiz)) >= SNAP_THRESHOLD,
        abs_spec((p + s) - (lo(ts[j], horiz) + ext(ts[j], horiz))) >= SNAP_THRESHOLD,
        forall|k: int|
            j < k < ts.len() ==> abs_spec(
                (2 * p + s) - (2 * lo(#[trigger] ts[k], horiz) + ext(ts[k], horiz)),
            ) >= 2 * SNAP_THRESHOLD && abs_spec(p - lo(ts[k], horiz)) >= SNAP_THRESHOLD
                && abs_spec((p + s) - (lo(ts[k], horiz) + ext(ts[k], horiz))) >= SNAP_THRESHOLD,
    ensures
        2 * snapped(p, s, vp, ts, horiz) + s == 2 * lo(ts[j], horiz) + ext(ts[j], horiz),
{
    let vc2 = 2 * lo(vp, horiz) + ext(vp, horiz);
    let init = if abs_spec((2 * p + s) - vc2) < 2 * SNAP_THRESHOLD {
        half_toward(p, vc2 - s)
    } else {
        p
    };
    lemma_snap_over_center(p, s, ts, horiz, init, j);
}

proof fn lemma_snap_over_center(p: int, s: int, ts: Seq<Rect>, horiz: bool, init: int, j: int)
    requires
        0 <= j < ts.len(),
        abs_spec((2 * p + s) - (2 * lo(ts[j], horiz) + ext(ts[j], horiz))) < 2 * SNAP_THRESHOLD,
        (s - ext(ts[j], horiz)) % 2 == 0,
        abs_spec(p - lo(ts[j], horiz)) >= SNAP_THRESHOLD,
        abs_spec((p + s) - (lo(ts[j], horiz) + ext(ts[j], horiz))) >= SNAP_THRESHOLD,
        forall|k: int|
            j < k < ts.len() ==> abs_spec(
                (2 * p + s) - (2 * lo(#[trigger] ts[k], horiz) + ext(ts[k], horiz)),
            ) >= 2 * SNAP_THRESHOLD && abs_spec(p - lo(ts[k], horiz)) >= SNAP_THRESHOLD
                && abs_spec((p + s) - (lo(ts[k], horiz) + ext(ts[k], horiz))) >= SNAP_THRESHOLD,
    ensures
        2 * snap_over(p, s, ts, horiz, init) + s == 2 * lo(ts[j], horiz) + ext(ts[j], horiz),
    decreases ts.len(),
{
    let rest = ts.drop_last();
    if j == ts.len() - 1 {
        let tc2 = 2 * lo(ts[j], horiz) + ext(ts[j], horiz);
        assert(ts.last() == ts[j]);
        assert((tc2 - s) % 2 == 0);
        assert(2 * ((tc2 - s) / 2) == tc2 - s);
        assert(half_toward(p, tc2 - s) == (tc2 - s) / 2);
    } else {
        assert(rest[j] == ts[j]);
        assert forall|k: int| j < k < rest.len() implies abs_spec(
            (2 * p + s) - (2 * lo(#[trigger] rest[k], horiz) + ext(rest[k], horiz)),
        ) >= 2 * SNAP_THRESHOLD && abs_spec(p - lo(rest[k], horiz)) >= SNAP_THRESHOLD && abs_spec(
            (p + s) - (lo(rest[k], horiz) + ext(rest[k], horiz)),
        ) >= SNAP_THRESHOLD by {
            assert(rest[k] == ts[k]);
        }
        lemma_snap_over_center(p, s, rest, horiz, init, j);
        assert(ts.last() == ts[ts.len() - 1]);
    }
}

/// Which side of the viewport a floating container whose left edge is at
/// `x` and whose width is `w` attaches to: the nearer of the left and right
/// sides when nearer than the edge-snap distance (the left side on a tie).
pub open spec fn edge_for(x: int, w: int, vp: Rect) -> Option<CanvasEdge> {
    let dl = abs_spec(x - vp.x);
    let dr = abs_spec(vp.right() - (x + w));
    if dl <= dr {
        if dl < EDGE_SNAP_DISTANCE {
            Some(CanvasEdge::Left)
        } else {
            None
        }
    } else {
        if dr < EDGE_SNAP_DISTANCE {
            Some(CanvasEdge::Right)
        } else {
            None
        }
    }
}

/// The viewport side a floating container at `pos` of width `w` attaches to.
pub fn snapped_edge(pos: Point, w: i64, vp: Rect) -> (r: Option<CanvasEdge>)
    requires
        pos.wf(),
        0 <= w <= SIZE_LIMIT,
        vp.wf(),
    ensures
        r == edge_for(pos.x as int, w as int, vp),
{
    let a = pos.x - vp.x;
    let dl = if a < 0 {
        -a
    } else {
        a
    };
    let b = vp.x + vp.w - (pos.x + w);
    let dr = if b < 0 {
        -b
    } else {
        b
    };
    if dl <= dr {
        if dl < EDGE_SNAP_DISTANCE {
            Some(CanvasEdge::Left)
        } else {
            None
        }
    } else {
        if dr < EDGE_SNAP_DISTANCE {
            Some(CanvasEdge::Right)
        } else {
            None
        }
    }
}

pub open spec fn min_spec(a: int, b: int) -> int {
    if a <= b {
        a
    } else {
        b
    }
}

pub open spec fn max_spec(a: int, b: int) -> int {
    if a >= b {
        a
    } else {
        b
    }
}

/// A vertical guide line at `x` spanning `c` and `t` plus the overhang.
pub open spec fn vertical_guide(x: int, c: Rect, t: Rect) -> AlignmentGuide {
    AlignmentGuide {
        start: Point { x: x as i64, y: (min_spec(t.y as int, c.y as int) - GUIDE_OVERHANG) as i64 },
        end: Point { x: x as i64, y: (max_spec(t.bottom(), c.bottom()) + GUIDE_OVERHANG) as i64 },
        guide_type: AlignmentType::WidgetAlignHorizontal,
    }
}

/// A horizontal guide line at `y` spanning `c` and `t` plus the overhang.
pub open spec fn horizontal_guide(y: int, c: Rect, t: Rect) -> AlignmentGuide {
    AlignmentGuide {
        start: Point { x: (min_spec(t.x as int, c.x as int) - GUIDE_OVERHANG) as i64, y: y as i64 },
        end: Point { x: (max_spec(t.right(), c.right()) + GUIDE_OVERHANG) as i64, y: y as i64 },
        guide_type: AlignmentType::WidgetAlignVertical,
    }
}

pub open spec fn push_if(s: Seq<AlignmentGuide>, b: bool, g: AlignmentGuide) -> Seq<AlignmentGuide> {
    if b {
        s.push(g)
    } else {
        s
    }
}

/// Guides for the dragged rectangle `c` against another widget `t`: centers,
/// then left, right, top and bottom edges, each within the threshold.
pub open spec fn target_guides(c: Rect, t: Rect) -> Seq<AlignmentGuide> {
    let g0 = Seq::<AlignmentGuide>::empty();
    let g1 = push_if(
        g0,
        abs_spec(c.center_x2() - t.center_x2()) < 2 * SNAP_THRESHOLD,
        vertical_guide(t.center_x2() / 2, c, t),
    );
    let g2 = push_if(
        g1,
        abs_spec(c.center_y2() - t.center_y2()) < 2 * SNAP_THRESHOLD,
        horizontal_guide(t.center_y2() / 2, c, t),
    );
    let g3 = push_if(g2, abs_spec(c.x - t.x) < SNAP_THRESHOLD, vertical_guide(t.x as int, c, t));
    let g4 = push_if(
        g3,
        abs_spec(c.right() - t.right()) < SNAP_THRESHOLD,
        vertical_guide(t.right(), c, t),
    );
    let g5 = push_if(g4, abs_spec(c.y - t.y) < SNAP_THRESHOLD, horizontal_guide(t.y as int, c, t));
    push_if(
        g5,
        abs_spec(c.bottom() - t.bottom()) < SNAP_THRESHOLD,
        horizontal_guide(t.bottom(), c, t),
    )
}

pub open spec fn guides_over(c: Rect, ts: Seq<Rect>) -> Seq<AlignmentGuide>
    decreases ts.len(),
{
    if ts.len() == 0 {
        Seq::empty()
    } else {
        guides_over(c, ts.drop_last()) + target_guides(c, ts.last())
    }
}

/// All guides for the dragged rectangle `c`: the viewport's center lines
/// first, then the guides against each target in order.
pub open spec fn guides_for(c: Rect, vp: Rect, ts: Seq<Rect>) -> Seq<AlignmentGuide> {
    let g1 = push_if(
        Seq::empty(),
        abs_spec(c.center_x2() - vp.center_x2()) < 2 * SNAP_THRESHOLD,
        AlignmentGuide {
            start: Point { x: (vp.center_x2() / 2) as i64, y: vp.y },
            end: Point { x: (vp.center_x2() / 2) as i64, y: vp.bottom() as i64 },
            guide_type: AlignmentType::CenterHorizontal,
        },
    );
    let g2 = push_if(
        g1,
        abs_spec(c.center_y2() - vp.center_y2()) < 2 * SNAP_THRESHOLD,
        AlignmentGuide {
            start: Point { x: vp.x, y: (vp.center_y2() / 2) as i64 },
            end: Point { x: vp.right() as i64, y: (vp.center_y2() / 2) as i64 },
            guide_type: AlignmentType::CenterVertical,
        },
    );
    g2 + guides_over(c, ts)
}

fn vertical_guide_exec(x: i64, c: Rect, t: Rect) -> (g: AlignmentGuide)
    requires
        c.wf(),
        t.wf(),
    ensures
        g == vertical_guide(x as int, c, t),
{
    let top = if t.y <= c.y {
        t.y
    } else {
        c.y
    };
    let bottom = if t.y + t.h >= c.y + c.h {
        t.y + t.h
    } else {
        c.y + c.h
    };
    AlignmentGuide {
        start: Point { x, y: top - GUIDE_OVERHANG },
        end: Point { x, y: bottom + GUIDE_OVERHANG },
        guide_type: AlignmentType::WidgetAlignHorizontal,
    }
}

fn horizontal_guide_exec(y: i64, c: Rect, t: Rect) -> (g: AlignmentGuide)
    requires
        c.wf(),
        t.wf(),
    ensures
        g == horizontal_guide(y as int, c, t),
{
    let left = if t.x <= c.x {
        t.x
    } else {
        c.x
    };
    let right = if t.x + t.w >= c.x + c.w {
        t.x + t.w
    } else {
        c.x + c.w
    };
    AlignmentGuide {
        start: Point { x: left - GUIDE_OVERHANG, y },
        end: Point { x: right + GUIDE_OVERHANG, y },
        guide_type: AlignmentType::WidgetAlignVertical,
    }
}

fn abs_i64(v: i64) -> (r: i64)
    requires
        v > i64::MIN,
    ensures
        r == abs_spec(v as int),
{
    if v < 0 {
        -v
    } else {
        v
    }
}

/// Appends the guides for the dragged rectangle `c` against `t`.
fn push_target_guides(r: &mut Vec<AlignmentGuide>, c: Rect, t: Rect)
    requires
        c.wf(),
        t.wf(),
    ensures
        final(r)@ == old(r)@ + target_guides(c, t),
{
    let ghost before = r@;
    if abs_i64((2 * c.x + c.w) - (2 * t.x + t.w)) < 2 * SNAP_THRESHOLD {
        r.push(vertical_guide_exec(half_floor(2 * t.x + t.w), c, t));
    }
    if abs_i64((2 * c.y + c.h) - (2 * t.y + t.h)) < 2 * SNAP_THRESHOLD {
        r.push(horizontal_guide_exec(half_floor(2 * t.y + t.h), c, t));
    }
    if abs_i64(c.x - t.x) < SNAP_THRESHOLD {
        r.push(vertical_guide_exec(t.x, c, t));
    }
    if abs_i64((c.x + c.w) - (t.x + t.w)) < SNAP_THRESHOLD {
        r.push(vertical_guide_exec(t.x + t.w, c, t));
    }
    if abs_i64(c.y - t.y) < SNAP_THRESHOLD {
        r.push(horizontal_guide_exec(t.y, c, t));
    }
    if abs_i64((c.y + c.h) - (t.y + t.h)) < SNAP_THRESHOLD {
        r.push(horizontal_guide_exec(t.y + t.h, c, t));
    }
    assert(r@ == before + target_guides(c, t));
}

/// The alignment guides for the dragged rectangle `c` in viewport `vp`
/// against the rectangles of the other widgets.
pub fn alignment_guides(c: Rect, vp: Rect, targets: &Vec<Rect>) -> (r: Vec<AlignmentGuide>)
    requires
        c.wf(),
        vp.wf(),
        targets_ok(targets@),
    ensures
        r@ == guides_for(c, vp, targets@),
{
    let mut r: Vec<AlignmentGuide> = Vec::new();
    let cx2 = 2 * c.x + c.w;
    let cy2 = 2 * c.y + c.h;
    let vx2 = 2 * vp.x + vp.w;
    let vy2 = 2 * vp.y + vp.h;
    if abs_i64(cx2 - vx2) < 2 * SNAP_THRESHOLD {
        let x = half_floor(vx2);
        r.push(
            AlignmentGuide {
                start: Point { x, y: vp.y },
                end: Point { x, y: vp.y + vp.h },
                guide_type: AlignmentType::CenterHorizontal,
            },
        );
    }
    if abs_i64(cy2 - vy2) < 2 * SNAP_THRESHOLD {
        let y = half_floor(vy2);
        r.push(
            AlignmentGuide {
                start: Point { x: vp.x, y },
                end: Point { x: vp.x + vp.w, y },
                guide_type: AlignmentType::CenterVertical,
            },
        );
    }
    let ghost head = r@;
    assert(head + guides_over(c, Seq::<Rect>::empty()) == head);
    let mut k: usize = 0;
    while k < targets.len()
        invariant
            c.wf(),
            targets_ok(targets@),
            k <= targets@.len(),
            r@ == head + guides_over(c, targets@.subrange(0, k as int)),
            head == guides_for(c, vp, targets@.subrange(0, 0)),
        decreases targets@.len() - k,
    {
        let t = targets[k];
        assert(targets@.subrange(0, k + 1).drop_last() == targets@.subrange(0, k as int));
        assert(targets@.subrange(0, k + 1).last() == t);
        let ghost before = r@;
        push_target_guides(&mut r, c, t);
        assert(r@ == before + target_guides(c, t));
        assert(guides_over(c, targets@.subrange(0, k + 1)) == guides_over(
            c,
            targets@.subrange(0, k as int),
        ) + target_guides(c, t));
        assert(head + guides_over(c, targets@.subrange(0, k + 1)) == before + target_guides(c, t));
        k = k + 1;
    }
    assert(targets@.subrange(0, targets@.len() as int) == targets@);
    r
}

} // verus!
