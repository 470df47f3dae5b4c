use vstd::prelude::*;
use crate::canvas::{has_id, DragDropCanvas, Interaction, DEPTH_LIMIT};
use crate::geometry::{Point, Rect, COORD_LIMIT};
use crate::widget::{clicked, click_kind, Widget, DIAL_CENTER_OFFSET, TITLE_BAR_HEIGHT};

verus! {

/// Side of the square resize handle in a panel's or status bar's
/// bottom-right corner.
pub const HANDLE_SIZE: i64 = 12;

/// Radius of a knob's dial.
pub const DIAL_RADIUS: i64 = 32;

/// Width of the strip at the left of a panel's title bar that folds the
/// panel when pressed.
pub const FOLD_TOGGLE_WIDTH: i64 = 30;

/// Pointer travel (in pixels) under which a press and release count as a
/// click rather than a drag.
pub const CLICK_SLOP: i64 = 5;

/// One tick's pointer input.
#[derive(Clone, Copy, Debug, PartialEq, Eq, Structural)]
pub struct PointerEvent {
    /// Pointer position, if the pointer is over the canvas.
    pub pos: Option<Point>,
    /// The primary button went down this tick.
    pub pressed: bool,
    /// The primary button went up this tick.
    pub released: bool,
    /// The primary button is down.
    pub held: bool,
    /// The secondary button went down this tick.
    pub secondary_pressed: bool,
}

impl PointerEvent {
    pub open spec fn wf(self) -> bool {
        self.pos matches Some(p) ==> p.wf()
    }
}

/// `p` lies in the resize handle of a widget covering `r`.
pub open spec fn in_resize_handle(r: Rect, p: Point) -> bool {
    r.right() - HANDLE_SIZE <= p.x <= r.right() && r.bottom() - HANDLE_SIZE <= p.y <= r.bottom()
}

/// `p` lies on the dial of a knob covering `r` (doubled coordinates keep the
/// dial's center whole).
pub open spec fn in_dial(r: Rect, p: Point) -> bool {
    let dx = 2 * p.x - r.center_x2();
    let dy = 2 * (p.y - r.y - DIAL_CENTER_OFFSET);
    dx * dx + dy * dy <= (2 * DIAL_RADIUS) * (2 * DIAL_RADIUS)
}

/// `p` lies on the fold toggle at the left of the title bar of a panel
/// covering `r`.
pub open spec fn in_fold_toggle(r: Rect, p: Point) -> bool {
    r.x <= p.x <= r.right() && r.y <= p.y <= r.y + TITLE_BAR_HEIGHT && p.x < r.x
        + FOLD_TOGGLE_WIDTH
}

/// The squared distance between `a` and `b`.
pub open spec fn dist2(a: Point, b: Point) -> int {
    (a.x - b.x) * (a.x - b.x) + (a.y - b.y) * (a.y - b.y)
}

/// A press at `press` followed by a release at `p` counts as a click.
pub open spec fn is_click(press: Point, p: Point) -> bool {
    dist2(press, p) < CLICK_SLOP * CLICK_SLOP
}

/// `a` and `b` belong to one session: the same kind of session on the same
/// widget (or the same pending kind from the palette).
pub open spec fn same_session(a: Interaction, b: Interaction) -> bool {
    match (a, b) {
        (Interaction::Idle, Interaction::Idle) => true,
        (Interaction::Dragging { id: x, .. }, Interaction::Dragging { id: y, .. }) => x == y,
        (Interaction::Resizing { id: x, .. }, Interaction::Resizing { id: y, .. }) => x == y,
        (
            Interaction::AdjustingValue { id: x, .. },
            Interaction::AdjustingValue { id: y, .. },
        ) => x == y,
        (
            Interaction::PaletteDragging { kind: x, .. },
            Interaction::PaletteDragging { kind: y, .. },
        ) => x == y,
        _ => false,
    }
}

pub fn is_in_resize_handle(r: Rect, p: Point) -> (b: bool)
    requires
        r.wf(),
        p.wf(),
    ensures
        b == in_resize_handle(r, p),
{
    r.x + r.w - HANDLE_SIZE <= p.x && p.x <= r.x + r.w && r.y + r.h - HANDLE_SIZE <= p.y && p.y
        <= r.y + r.h
}

pub fn is_in_dial(r: Rect, p: Point) -> (b: bool)
    requires
        r.wf(),
        p.wf(),
    ensures
        b == in_dial(r, p),
{
    let dx = 2 * p.x - (2 * r.x + r.w);
    let dy = 2 * (p.y - r.y - DIAL_CENTER_OFFSET);
    assert(dx * dx <= 10 * COORD_LIMIT * 10 * COORD_LIMIT) by (nonlinear_arith)
        requires
            -10 * COORD_LIMIT <= dx <= 10 * COORD_LIMIT,
    ;
    assert(dy * dy <= 10 * COORD_LIMIT * 10 * COORD_LIMIT) by (nonlinear_arith)
        requires
            -10 * COORD_LIMIT <= dy <= 10 * COORD_LIMIT,
    ;
    assert(0 <= dx * dx && 0 <= dy * dy) by (nonlinear_arith);
    dx * dx + dy * dy <= (2 * DIAL_RADIUS) * (2 * DIAL_RADIUS)
}

pub fn is_in_fold_toggle(r: Rect, p: Point) -> (b: bool)
    requires
        r.wf(),
        p.wf(),
    ensures
        b == in_fold_toggle(r, p),
{
    r.x <= p.x && p.x <= r.x + r.w && r.y <= p.y && p.y <= r.y + TITLE_BAR_HEIGHT && p.x < r.x
        + FOLD_TOGGLE_WIDTH
}

pub fn is_click_distance(press: Point, p: Point) -> (b: bool)
    requires
        press.wf(),
        p.wf(),
    ensures
        b == is_click(press, p),
{
    let dx = press.x - p.x;
    let dy = press.y - p.y;
    assert(0 <= dx * dx <= 4 * COORD_LIMIT * COORD_LIMIT) by (nonlinear_arith)
        requires
            -2 * COORD_LIMIT <= dx <= 2 * COORD_LIMIT,
    ;
    assert(0 <= dy * dy <= 4 * COORD_LIMIT * COORD_LIMIT) by (nonlinear_arith)
        requires
            -2 * COORD_LIMIT <= dy <= 2 * COORD_LIMIT,
    ;
    dx * dx + dy * dy < CLICK_SLOP * CLICK_SLOP
}

impl DragDropCanvas {
    /// Widget `i` is visible, covers `p`, is a container that takes new
    /// children where `containers` asks for one, and is not `skip`.
    pub open spec fn candidate(&self, i: int, p: Point, containers: bool, skip: Option<u64>) -> bool {
        &&& self.visible(i)
        &&& self.widgets@[i].bounds().holds(p)
        &&& (containers ==> self.widgets@[i].kind.accepting())
        &&& skip != Some(self.widgets@[i].id)
    }

    /// `r` is the last candidate in rendering order (the one drawn on top).
    pub open spec fn is_topmost(
        &self,
        p: Point,
        containers: bool,
        skip: Option<u64>,
        r: Option<usize>,
    ) -> bool {
        match r {
            Some(i) => i < self.widgets@.len() && self.candidate(i as int, p, containers, skip)
                && forall|j: int|
                i < j < self.widgets@.len() ==> !#[trigger] self.candidate(j, p, containers, skip),
            None => forall|j: int|
                0 <= j < self.widgets@.len() ==> !#[trigger] self.candidate(j, p, containers, skip),
        }
    }

    /// `r` is the container a drop at `p` lands in: among the candidate
    /// containers the deepest, and of equally deep ones the last drawn.
    pub open spec fn is_drop_target(&self, p: Point, skip: Option<u64>, r: Option<usize>) -> bool {
        match r {
            Some(i) => i < self.widgets@.len() && self.candidate(i as int, p, true, skip) && forall|
                j: int,
            |
                0 <= j < self.widgets@.len() && #[trigger] self.candidate(j, p, true, skip) ==> (
                self.depth(self.widgets@[j].id, DEPTH_LIMIT as nat) < self.depth(
                    self.widgets@[i as int].id,
                    DEPTH_LIMIT as nat,
                ) || (self.depth(self.widgets@[j].id, DEPTH_LIMIT as nat) == self.depth(
                    self.widgets@[i as int].id,
                    DEPTH_LIMIT as nat,
                ) && j <= i)),
            None => forall|j: int|
                0 <= j < self.widgets@.len() ==> !#[trigger] self.candidate(j, p, true, skip),
        }
    }

    /// At most one index is topmost.
    pub proof fn lemma_topmost_unique(
        &self,
        p: Point,
        containers: bool,
        skip: Option<u64>,
        a: Option<usize>,
        b: Option<usize>,
    )
        requires
            self.is_topmost(p, containers, skip, a),
            self.is_topmost(p, containers, skip, b),
        ensures
            a == b,
    {
        match (a, b) {
            (Some(x), Some(y)) => {
                if x < y {
                    assert(!self.candidate(y as int, p, containers, skip));
                } else if y < x {
                    assert(!self.candidate(x as int, p, containers, skip));
                }
            },
            (Some(x), None) => {
                assert(!self.candidate(x as int, p, containers, skip));
            },
            (None, Some(y)) => {
                assert(!self.candidate(y as int, p, containers, skip));
            },
            _ => {},
        }
    }

    fn is_candidate(&self, i: usize, p: Point, containers: bool, skip: Option<u64>) -> (b: bool)
        requires
            self.wf(),
            i < self.widgets@.len(),
        ensures
            b == self.candidate(i as int, p, containers, skip),
    {
        let w = self.widgets[i];
        proof {
            w.lemma_bounds_wf();
        }
        if skip == Some(w.id) {
            return false;
        }
        if containers && !w.kind.is_accepting_widgets() {
            return false;
        }
        if !w.rect().contains(p) {
            return false;
        }
        !self.is_hidden(w.id)
    }

    /// The topmost visible widget under `p` (only containers that take new
    /// children where `containers` is set), leaving out `skip`.
    pub fn topmost_at(&self, p: Point, containers: bool, skip: Option<u64>) -> (r: Option<usize>)
        requires
            self.wf(),
        ensures
            self.is_topmost(p, containers, skip, r),
    {
        let mut i: usize = self.widgets.len();
        while i > 0
            invariant
                self.wf(),
                i <= self.widgets@.len(),
                forall|j: int|
                    i <= j < self.widgets@.len() ==> !#[trigger] self.candidate(
                        j,
                        p,
                        containers,
                        skip,
                    ),
            decreases i,
        {
            i = i - 1;
            if self.is_candidate(i, p, containers, skip) {
                return Some(i);
            }
        }
        None
    }

    /// The container a drop at `p` lands in: the deepest visible container
    /// under `p` that takes new children, the last drawn among equally deep
    /// ones, leaving out `skip`.
    pub fn drop_target(&self, p: Point, skip: Option<u64>) -> (r: Option<usize>)
        requires
            self.wf(),
        ensures
            self.is_drop_target(p, skip, r),
    {
        let mut best: Option<usize> = None;
        let mut best_depth: usize = 0;
        let mut i: usize = 0;
        while i < self.widgets.len()
            invariant
                self.wf(),
                i <= self.widgets@.len(),
                match best {
                    Some(b) => b < i && self.candidate(b as int, p, true, skip) && best_depth
                        == self.depth(self.widgets@[b as int].id, DEPTH_LIMIT as nat) && forall|
                        j: int,
                    |
                        0 <= j < i && #[trigger] self.candidate(j, p, true, skip) ==> (self.depth(
                            self.widgets@[j].id,
                            DEPTH_LIMIT as nat,
                        ) < best_depth || (self.depth(self.widgets@[j].id, DEPTH_LIMIT as nat)
                            == best_depth && j <= b)),
                    None => forall|j: int|
                        0 <= j < i ==> !#[trigger] self.candidate(j, p, true, skip),
                },
            decreases self.widgets@.len() - i,
        {
            if self.is_candidate(i, p, true, skip) {
                let d = self.layer_of(self.widgets[i].id);
                let better = match best {
                    None => true,
                    Some(_) => d >= best_depth,
                };
                if better {
                    best = Some(i);
                    best_depth = d;
                }
            }
            i = i + 1;
        }
        best
    }

    /// Replaces widget `i` by `w`, which keeps its id.
    pub(crate) fn set_widget(&mut self, i: usize, w: Widget)
        requires
            old(self).wf(),
            i < old(self).widgets@.len(),
            w.id == old(self).widgets@[i as int].id,
            w.wf(),
        ensures
            final(self).wf(),
            final(self).widgets@ == old(self).widgets@.update(i as int, w),
            final(self).links@ == old(self).links@,
            final(self).next_id == old(self).next_id,
            final(self).viewport == old(self).viewport,
            final(self).interaction == old(self).interaction,
            final(self).selected_panel == old(self).selected_panel,
    {
        let ghost ws = self.widgets@;
        self.widgets.set(i, w);
        proof {
            let nws = self.widgets@;
            assert forall|x: u64| #[trigger] has_id(ws, x) implies has_id(nws, x) by {
                let m = choose|m: int| 0 <= m < ws.len() && ws[m].id == x;
                assert(nws[m].id == x);
            }
            let links = self.links@;
            assert forall|k: int| 0 <= k < links.len() implies has_id(
                nws,
                #[trigger] links[k].container,
            ) && has_id(nws, links[k].child) && links[k].container != links[k].child by {
                assert(has_id(ws, links[k].container));
                assert(has_id(ws, links[k].child));
            }
            assert forall|a: int| 0 <= a < nws.len() implies (#[trigger] nws[a]).wf() && nws[a].id
                < self.next_id by {
                if a != i {
                    assert(nws[a] == ws[a]);
                }
            }
            assert forall|a: int, b: int|
                0 <= a < nws.len() && 0 <= b < nws.len() && a != b implies nws[a].id
                != nws[b].id by {
                assert(nws[a].id == ws[a].id && nws[b].id == ws[b].id);
            }
        }
    }

    /// The click behavior of widget `i` for a click at `p`: switches and
    /// buttons flip, containers fold or unfold, a slider hit on its track
    /// takes the value under the pointer. Position and containment stay.
    pub fn click_widget(&mut self, i: usize, p: Point)
        requires
            old(self).wf(),
            i < old(self).widgets@.len(),
            p.wf(),
        ensures
            final(self).wf(),
            final(self).widgets@ == old(self).widgets@.update(
                i as int,
                Widget {
                    kind: clicked(
                        old(self).widgets@[i as int].kind,
                        old(self).widgets@[i as int].bounds(),
                        p,
                    ),
                    ..old(self).widgets@[i as int]
                },
            ),
            final(self).links@ == old(self).links@,
            final(self).next_id == old(self).next_id,
            final(self).viewport == old(self).viewport,
            final(self).interaction == old(self).interaction,
            final(self).selected_panel == old(self).selected_panel,
    {
        let w = self.widgets[i];
        proof {
            w.lemma_bounds_wf();
        }
        let k = click_kind(w.kind, w.rect(), p);
        self.set_widget(i, Widget { kind: k, ..w });
    }
}

} // verus!
