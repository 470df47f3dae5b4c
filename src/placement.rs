use vstd::prelude::*;
use crate::geometry::{Point, Rect, clamp, clamp_spec, COORD_LIMIT, SEAM_PADDING, SIZE_LIMIT};
use crate::widget::TITLE_BAR_HEIGHT;

verus! {

/// Gap between neighbouring slots of the placement grid: wide enough that
/// two neighbours, each grown by the seam padding, stay apart.
pub const GRID_SPACING: i64 = 3;

/// Left coordinate of column `c` of the grid over `area` for width `w`:
/// columns run from the right edge towards the left.
pub open spec fn slot_x(area: Rect, w: int, c: int) -> int {
    area.right() - w - c * (w + GRID_SPACING)
}

/// Top coordinate of row `r` of the grid over `area` for height `h`.
pub open spec fn slot_y(area: Rect, h: int, r: int) -> int {
    area.y + r * (h + GRID_SPACING)
}

/// The slot at row `r`, column `c` lies inside `area`.
pub open spec fn slot_valid(area: Rect, w: int, h: int, r: int, c: int) -> bool {
    r >= 0 && c >= 0 && slot_x(area, w, c) >= area.x && slot_y(area, h, r) + h <= area.bottom()
}

/// The rectangle at `(x, y)` of size `w` by `h` keeps clear of `o`, both
/// grown by the seam padding on every side.
pub open spec fn clear_of(x: int, y: int, w: int, h: int, o: Rect) -> bool {
    !(x - SEAM_PADDING <= o.right() + SEAM_PADDING && o.x - SEAM_PADDING <= x + w + SEAM_PADDING
        && y - SEAM_PADDING <= o.bottom() + SEAM_PADDING && o.y - SEAM_PADDING <= y + h
        + SEAM_PADDING)
}

/// The rectangle at `(x, y)` of size `w` by `h` keeps clear of every obstacle.
pub open spec fn free_at(x: int, y: int, w: int, h: int, obs: Seq<Rect>) -> bool {
    forall|k: int| 0 <= k < obs.len() ==> clear_of(x, y, w, h, #[trigger] obs[k])
}

pub open spec fn slot_free(area: Rect, w: int, h: int, r: int, c: int, obs: Seq<Rect>) -> bool {
    free_at(slot_x(area, w, c), slot_y(area, h, r), w, h, obs)
}

/// Row-major order, rows top to bottom.
pub open spec fn lex_before(r2: int, c2: int, r: int, c: int) -> bool {
    r2 < r || (r2 == r && c2 < c)
}

/// `p` is the first free slot of the grid, scanning each row from the right
/// and the rows from the top.
pub open spec fn first_fit(area: Rect, w: int, h: int, obs: Seq<Rect>, p: Point) -> bool {
    exists|r: int, c: int|
        #![trigger slot_valid(area, w, h, r, c)]
        slot_valid(area, w, h, r, c) && p.x == slot_x(area, w, c) && p.y == slot_y(area, h, r)
            && slot_free(area, w, h, r, c, obs) && forall|r2: int, c2: int|
            #![trigger slot_valid(area, w, h, r2, c2)]
            slot_valid(area, w, h, r2, c2) && lex_before(r2, c2, r, c) ==> !slot_free(
                area,
                w,
                h,
                r2,
                c2,
                obs,
            )
}

/// No slot of the grid is free.
pub open spec fn no_fit(area: Rect, w: int, h: int, obs: Seq<Rect>) -> bool {
    forall|r: int, c: int|
        #![trigger slot_valid(area, w, h, r, c)]
        slot_valid(area, w, h, r, c) ==> !slot_free(area, w, h, r, c, obs)
}

/// An area whose grid arithmetic stays far from overflow.
pub open spec fn area_ok(a: Rect) -> bool {
    -2 * COORD_LIMIT <= a.x <= 2 * COORD_LIMIT && -2 * COORD_LIMIT <= a.y <= 2 * COORD_LIMIT && -2
        * COORD_LIMIT <= a.w <= 2 * COORD_LIMIT && -2 * COORD_LIMIT <= a.h <= 2 * COORD_LIMIT
}

proof fn lemma_mul_mono(a: int, b: int, k: int)
    requires
        a <= b,
        0 <= k,
    ensures
        a * k <= b * k,
{
    assert(a * k <= b * k) by (nonlinear_arith)
        requires
            a <= b,
            0 <= k,
    ;
}

proof fn lemma_mul_succ(a: int, k: int)
    ensures
        (a + 1) * k == a * k + k,
{
    assert((a + 1) * k == a * k + k) by (nonlinear_arith);
}

/// Whether the rectangle at `(x, y)` of size `w` by `h` keeps clear of every
/// obstacle.
pub fn is_free(x: i64, y: i64, w: i64, h: i64, obstacles: &Vec<Rect>) -> (r: bool)
    requires
        -4 * COORD_LIMIT <= x <= 4 * COORD_LIMIT,
        -4 * COORD_LIMIT <= y <= 4 * COORD_LIMIT,
        0 <= w <= SIZE_LIMIT,
        0 <= h <= SIZE_LIMIT,
        forall|k: int| 0 <= k < obstacles@.len() ==> (#[trigger] obstacles@[k]).wf(),
    ensures
        r == free_at(x as int, y as int, w as int, h as int, obstacles@),
{
    let mut k: usize = 0;
    while k < obstacles.len()
        invariant
            -4 * COORD_LIMIT <= x <= 4 * COORD_LIMIT,
            -4 * COORD_LIMIT <= y <= 4 * COORD_LIMIT,
            0 <= w <= SIZE_LIMIT,
            0 <= h <= SIZE_LIMIT,
            k <= obstacles@.len(),
            forall|j: int|
                0 <= j < k ==> clear_of(x as int, y as int, w as int, h as int, #[trigger] obstacles@[j]),
            forall|k: int| 0 <= k < obstacles@.len() ==> (#[trigger] obstacles@[k]).wf(),
        decreases obstacles@.len() - k,
    {
        let o = obstacles[k];
        if x - SEAM_PADDING <= o.x + o.w + SEAM_PADDING && o.x - SEAM_PADDING <= x + w
            + SEAM_PADDING && y - SEAM_PADDING <= o.y + o.h + SEAM_PADDING && o.y - SEAM_PADDING
            <= y + h + SEAM_PADDING {
            assert(!clear_of(x as int, y as int, w as int, h as int, obstacles@[k as int]));
            return false;
        }
        k = k + 1;
    }
    true
}

/// The first slot of the placement grid over `area` where a `w` by `h`
/// rectangle keeps clear of every obstacle; the grid is scanned row by row
/// from the top, each row from the right edge leftwards, stepping by the
/// size plus the grid spacing.
pub fn first_free_slot(area: Rect, w: i64, h: i64, obstacles: &Vec<Rect>) -> (r: Option<Point>)
    requires
        area_ok(area),
        0 <= w <= SIZE_LIMIT,
        0 <= h <= SIZE_LIMIT,
        forall|k: int| 0 <= k < obstacles@.len() ==> (#[trigger] obstacles@[k]).wf(),
    ensures
        match r {
            Some(p) => first_fit(area, w as int, h as int, obstacles@, p),
            None => no_fit(area, w as int, h as int, obstacles@),
        },
        r matches Some(p) ==> area.x <= p.x && p.x + w <= area.right() && area.y <= p.y && p.y
            + h <= area.bottom(),
{
    let ghost wi = w as int;
    let ghost hi = h as int;
    let ghost obs = obstacles@;
    let mut y: i64 = area.y;
    let ghost mut row: int = 0;
    assert(row * (hi + GRID_SPACING) == 0);
    while y + h <= area.y + area.h
        invariant
            area_ok(area),
            0 <= w <= SIZE_LIMIT,
            0 <= h <= SIZE_LIMIT,
            forall|k: int| 0 <= k < obstacles@.len() ==> (#[trigger] obstacles@[k]).wf(),
            obs == obstacles@,
            wi == w as int,
            hi == h as int,
            row >= 0,
            y == slot_y(area, hi, row),
            area.y <= y <= area.y + 2 * COORD_LIMIT + SIZE_LIMIT + GRID_SPACING,
            forall|r2: int, c2: int|
                #![trigger slot_valid(area, wi, hi, r2, c2)]
                slot_valid(area, wi, hi, r2, c2) && r2 < row ==> !slot_free(
                    area,
                    wi,
                    hi,
                    r2,
                    c2,
                    obs,
                ),
        decreases area.y + area.h - y + GRID_SPACING,
    {
        let mut x: i64 = area.x + area.w - w;
        let ghost mut col: int = 0;
        assert(col * (wi + GRID_SPACING) == 0);
        while x >= area.x
            invariant
                area_ok(area),
                0 <= w <= SIZE_LIMIT,
                0 <= h <= SIZE_LIMIT,
                forall|k: int| 0 <= k < obstacles@.len() ==> (#[trigger] obstacles@[k]).wf(),
                obs == obstacles@,
                wi == w as int,
                hi == h as int,
                row >= 0,
                col >= 0,
                y == slot_y(area, hi, row),
                y + h <= area.y + area.h,
                area.y <= y,
                x == slot_x(area, wi, col),
                x <= area.x + area.w - w,
                forall|r2: int, c2: int|
                    #![trigger slot_valid(area, wi, hi, r2, c2)]
                    slot_valid(area, wi, hi, r2, c2) && r2 < row ==> !slot_free(
                        area,
                        wi,
                        hi,
                        r2,
                        c2,
                        obs,
                    ),
                forall|c2: int|
                    #![trigger slot_valid(area, wi, hi, row, c2)]
                    slot_valid(area, wi, hi, row, c2) && c2 < col ==> !slot_free(
                        area,
                        wi,
                        hi,
                        row,
                        c2,
                        obs,
                    ),
            decreases x - area.x + w + GRID_SPACING,
        {
            if is_free(x, y, w, h, obstacles) {
                proof {
                    assert(slot_valid(area, wi, hi, row, col));
                    assert(slot_free(area, wi, hi, row, col, obs));
                    assert forall|r2: int, c2: int|
                        slot_valid(area, wi, hi, r2, c2) && lex_before(
                            r2,
                            c2,
                            row,
                            col,
                        ) implies !slot_free(area, wi, hi, r2, c2, obs) by {
                        if r2 < row {
                        } else {
                            assert(slot_valid(area, wi, hi, row, c2));
                        }
                    }
                }
                return Some(Point { x, y });
            }
            proof {
                lemma_mul_succ(col, wi + GRID_SPACING);
            }
            x = x - (w + GRID_SPACING);
            proof {
                col = col + 1;
            }
        }
        proof {
            assert forall|c2: int|
                #![trigger slot_valid(area, wi, hi, row, c2)]
                slot_valid(area, wi, hi, row, c2) implies !slot_free(
                    area,
                    wi,
                    hi,
                    row,
                    c2,
                    obs,
                ) by {
                if c2 >= col {
                    lemma_mul_mono(col, c2, wi + GRID_SPACING);
                }
            }
            lemma_mul_succ(row, hi + GRID_SPACING);
        }
        y = y + h + GRID_SPACING;
        proof {
            row = row + 1;
        }
    }
    proof {
        assert forall|r2: int, c2: int|
            #![trigger slot_valid(area, wi, hi, r2, c2)]
            slot_valid(area, wi, hi, r2, c2) implies !slot_free(area, wi, hi, r2, c2, obs) by {
            if r2 >= row {
                lemma_mul_mono(row, r2, hi + GRID_SPACING);
            }
        }
    }
    None
}

} // verus!

verus! {

/// Margin kept free along each edge of the viewport when placing widgets.
pub const CANVAS_MARGIN: i64 = 20;

/// Inset of a container's content area from its left, right and bottom edges.
pub const CONTENT_PADDING: i64 = 1;

/// The area of the viewport that canvas placement searches.
pub open spec fn canvas_area_of(vp: Rect) -> Rect {
    Rect {
        x: (vp.x + CANVAS_MARGIN) as i64,
        y: (vp.y + CANVAS_MARGIN) as i64,
        w: (vp.w - 2 * CANVAS_MARGIN) as i64,
        h: (vp.h - 2 * CANVAS_MARGIN) as i64,
    }
}

/// The content area of a container covering `r`: below the title bar and
/// inside the padding.
pub open spec fn content_area_of(r: Rect) -> Rect {
    Rect {
        x: (r.x + CONTENT_PADDING) as i64,
        y: (r.y + TITLE_BAR_HEIGHT) as i64,
        w: (r.w - 2 * CONTENT_PADDING) as i64,
        h: (r.h - TITLE_BAR_HEIGHT - CONTENT_PADDING) as i64,
    }
}

/// Where the scan falls back to when no slot is free: the area's top-right
/// corner.
pub open spec fn corner_of(area: Rect, w: int) -> Point {
    Point { x: (area.right() - w) as i64, y: area.y }
}

/// `seed` moved into `area` as far as a `w` by `h` rectangle allows.
pub open spec fn seed_in(area: Rect, w: int, h: int, seed: Point) -> Point {
    Point {
        x: clamp_spec(
            seed.x as int,
            area.x as int,
            if area.right() - w < area.x {
                area.x as int
            } else {
                area.right() - w
            },
        ) as i64,
        y: clamp_spec(
            seed.y as int,
            area.y as int,
            if area.bottom() - h < area.y {
                area.y as int
            } else {
                area.bottom() - h
            },
        ) as i64,
    }
}

/// The outcome of seeded placement: the seed moved into the area where that
/// spot is free, else the first free slot of the grid, else nothing.
pub open spec fn seeded_fit(
    area: Rect,
    w: int,
    h: int,
    obs: Seq<Rect>,
    seed: Point,
    r: Option<Point>,
) -> bool {
    let s = seed_in(area, w, h, seed);
    if free_at(s.x as int, s.y as int, w, h, obs) {
        r == Some(s)
    } else {
        match r {
            Some(p) => first_fit(area, w, h, obs, p),
            None => no_fit(area, w, h, obs),
        }
    }
}

/// Seeded placement: `seed` moved into `area`, if a `w` by `h` rectangle there
/// keeps clear of the obstacles; else the first free grid slot.
pub fn seeded_slot(area: Rect, w: i64, h: i64, obstacles: &Vec<Rect>, seed: Point) -> (r: Option<
    Point,
>)
    requires
        area_ok(area),
        seed.wf(),
        0 <= w <= SIZE_LIMIT,
        0 <= h <= SIZE_LIMIT,
        forall|k: int| 0 <= k < obstacles@.len() ==> (#[trigger] obstacles@[k]).wf(),
    ensures
        seeded_fit(area, w as int, h as int, obstacles@, seed, r),
        r matches Some(p) ==> area.x <= p.x && (p.x <= area.x || p.x <= area.right() - w) && area.y
            <= p.y && (p.y <= area.y || p.y <= area.bottom() - h),
{
    let max_x = if area.x + area.w - w < area.x {
        area.x
    } else {
        area.x + area.w - w
    };
    let max_y = if area.y + area.h - h < area.y {
        area.y
    } else {
        area.y + area.h - h
    };
    let s = Point { x: clamp(seed.x, area.x, max_x), y: clamp(seed.y, area.y, max_y) };
    assert(s == seed_in(area, w as int, h as int, seed));
    if is_free(s.x, s.y, w, h, obstacles) {
        Some(s)
    } else {
        first_free_slot(area, w, h, obstacles)
    }
}

/// `p` moved into `area` as far as a `w` by `h` rectangle allows.
pub fn clamp_into(area: Rect, w: i64, h: i64, p: Point) -> (r: Point)
    requires
        area_ok(area),
        0 <= w <= SIZE_LIMIT,
        0 <= h <= SIZE_LIMIT,
    ensures
        r == seed_in(area, w as int, h as int, p),
{
    let max_x = if area.x + area.w - w < area.x {
        area.x
    } else {
        area.x + area.w - w
    };
    let max_y = if area.y + area.h - h < area.y {
        area.y
    } else {
        area.y + area.h - h
    };
    Point { x: clamp(p.x, area.x, max_x), y: clamp(p.y, area.y, max_y) }
}

} // verus!
