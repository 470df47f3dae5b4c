use vstd::prelude::*;
use crate::geometry::{Point, Rect, COORD_LIMIT};
use crate::widget::{Widget, WidgetKind};

verus! {

/// Largest magnitude of a viewport coordinate or extent, so that every
/// position derived from the viewport stays a valid coordinate.
pub const VIEWPORT_LIMIT: i64 = 500_000;

/// How many containers up a widget's chain the containment walks look at.
pub const DEPTH_LIMIT: usize = 64;

/// `child` is held by the container `container`. The links of a canvas, in
/// order, give each container's contained ids in insertion order.
#[derive(Clone, Copy, Debug, PartialEq, Eq, Structural)]
pub struct ContainmentLink {
    pub container: u64,
    pub child: u64,
}

/// The one interaction session in progress.
#[derive(Clone, Copy, Debug, PartialEq, Eq, Structural)]
pub enum Interaction {
    Idle,
    /// Moving widget `id`: `grab` is the press point minus the widget's
    /// position, `press` the press point, `start` the position at the press.
    Dragging { id: u64, grab: Point, press: Point, start: Point },
    /// Resizing widget `id` from its corner handle; `last` is the pointer
    /// at the previous tick.
    Resizing { id: u64, last: Point },
    /// Turning knob `id`; `last` is the pointer at the previous tick.
    AdjustingValue { id: u64, last: Point },
    /// A widget of `kind` dragged from the palette, not yet placed.
    PaletteDragging { kind: WidgetKind, pointer: Option<Point> },
}

/// Whether an alignment guide marks the canvas center or another widget.
#[derive(Clone, Copy, Debug, PartialEq, Eq, Structural)]
pub enum AlignmentType {
    CenterHorizontal,
    CenterVertical,
    WidgetAlignHorizontal,
    WidgetAlignVertical,
}

/// A line segment drawn as a rendering hint while dragging.
#[derive(Clone, Copy, Debug, PartialEq, Eq, Structural)]
pub struct AlignmentGuide {
    pub start: Point,
    pub end: Point,
    pub guide_type: AlignmentType,
}

/// The canvas: its widgets in rendering order, the containment links, the
/// id counter, the viewport and the interaction state.
pub struct DragDropCanvas {
    pub widgets: Vec<Widget>,
    pub links: Vec<ContainmentLink>,
    pub next_id: u64,
    pub viewport: Rect,
    pub selected_panel: Option<u64>,
    pub interaction: Interaction,
    pub alignment_guides: Vec<AlignmentGuide>,
    pub drag_hover_panel: Option<u64>,
    pub editing_widget: Option<u64>,
}

pub open spec fn viewport_ok(r: Rect) -> bool {
    -VIEWPORT_LIMIT <= r.x <= VIEWPORT_LIMIT && -VIEWPORT_LIMIT <= r.y <= VIEWPORT_LIMIT && 0
        <= r.w <= VIEWPORT_LIMIT && 0 <= r.h <= VIEWPORT_LIMIT
}

/// Ids of the children of `c` in `links`, in insertion order.
pub open spec fn children_in(links: Seq<ContainmentLink>, c: u64) -> Seq<u64>
    decreases links.len(),
{
    if links.len() == 0 {
        Seq::empty()
    } else {
        let rest = children_in(links.drop_last(), c);
        if links.last().container == c {
            rest.push(links.last().child)
        } else {
            rest
        }
    }
}

/// `links` without those that name `id` as child and, where `held_too`, as
/// container; in the same order.
pub open spec fn links_sans(links: Seq<ContainmentLink>, id: u64, held_too: bool) -> Seq<
    ContainmentLink,
>
    decreases links.len(),
{
    if links.len() == 0 {
        Seq::empty()
    } else {
        let rest = links_sans(links.drop_last(), id, held_too);
        if links.last().child == id || (held_too && links.last().container == id) {
            rest
        } else {
            rest.push(links.last())
        }
    }
}

/// `links` without those whose child is `id`, in the same order.
pub open spec fn links_without(links: Seq<ContainmentLink>, id: u64) -> Seq<ContainmentLink> {
    links_sans(links, id, false)
}

pub open spec fn has_id(ws: Seq<Widget>, id: u64) -> bool {
    exists|i: int| 0 <= i < ws.len() && ws[i].id == id
}

pub open spec fn ids_unique(ws: Seq<Widget>) -> bool {
    forall|i: int, j: int| 0 <= i < ws.len() && 0 <= j < ws.len() && i != j ==> ws[i].id != ws[j].id
}

pub open spec fn links_ok(ws: Seq<Widget>, links: Seq<ContainmentLink>) -> bool {
    &&& forall|k: int|
        0 <= k < links.len() ==> has_id(ws, #[trigger] links[k].container) && has_id(
            ws,
            links[k].child,
        ) && links[k].container != links[k].child
    &&& forall|k: int, l: int|
        #![trigger links[k].child, links[l].child]
        0 <= k < links.len() && 0 <= l < links.len() && k != l ==> links[k].child
            != links[l].child
}

/// The points a session keeps are valid coordinates, and a pending palette
/// kind is a valid widget.
pub open spec fn session_ok(s: Interaction) -> bool {
    match s {
        Interaction::Idle => true,
        Interaction::Dragging { grab, press, start, .. } => press.wf() && start.wf()
            && -2 * COORD_LIMIT <= grab.x <= 2 * COORD_LIMIT && -2 * COORD_LIMIT <= grab.y <= 2
            * COORD_LIMIT,
        Interaction::Resizing { last, .. } => last.wf(),
        Interaction::AdjustingValue { last, .. } => last.wf(),
        Interaction::PaletteDragging { kind, pointer } => kind.wf() && (pointer matches Some(
            q,
        ) ==> q.wf()),
    }
}

impl DragDropCanvas {
    /// The canvas invariant.
    pub open spec fn wf(&self) -> bool {
        &&& viewport_ok(self.viewport)
        &&& forall|i: int| 0 <= i < self.widgets@.len() ==> (#[trigger] self.widgets@[i]).wf()
        &&& ids_unique(self.widgets@)
        &&& forall|i: int|
            0 <= i < self.widgets@.len() ==> (#[trigger] self.widgets@[i]).id < self.next_id
        &&& links_ok(self.widgets@, self.links@)
        &&& session_ok(self.interaction)
    }

    /// The container that holds `id`, if any.
    pub open spec fn container_spec(&self, id: u64) -> Option<u64> {
        if exists|k: int| 0 <= k < self.links@.len() && self.links@[k].child == id {
            let k = choose|k: int| 0 <= k < self.links@.len() && self.links@[k].child == id;
            Some(self.links@[k].container)
        } else {
            None
        }
    }

    /// Some widget with id `id` is a folded container.
    pub open spec fn folded_id(&self, id: u64) -> bool {
        exists|i: int|
            0 <= i < self.widgets@.len() && self.widgets@[i].id == id
                && self.widgets@[i].kind.folded()
    }

    /// Some widget with id `id` is a container that takes new children.
    pub open spec fn accepting_id(&self, id: u64) -> bool {
        exists|i: int|
            0 <= i < self.widgets@.len() && self.widgets@[i].id == id
                && self.widgets@[i].kind.accepting()
    }

    /// `id` sits, within `fuel` steps up its chain of containers, inside a
    /// folded container.
    pub open spec fn hidden(&self, id: u64, fuel: nat) -> bool
        decreases fuel,
    {
        match self.container_spec(id) {
            None => false,
            Some(c) => fuel > 0 && (self.folded_id(c) || self.hidden(c, (fuel - 1) as nat)),
        }
    }

    /// `a` is among the first `fuel` containers up the chain of `id`.
    pub open spec fn ancestor(&self, a: u64, id: u64, fuel: nat) -> bool
        decreases fuel,
    {
        match self.container_spec(id) {
            None => false,
            Some(c) => fuel > 0 && (c == a || self.ancestor(a, c, (fuel - 1) as nat)),
        }
    }

    /// The number of containers up the chain of `id`, counting at most `fuel`.
    pub open spec fn depth(&self, id: u64, fuel: nat) -> nat
        decreases fuel,
    {
        match self.container_spec(id) {
            None => 0,
            Some(c) => if fuel == 0 {
                0
            } else {
                1 + self.depth(c, (fuel - 1) as nat)
            },
        }
    }

    /// The widget at index `i` is drawn: no folded container holds it,
    /// directly or through other containers.
    pub open spec fn visible(&self, i: int) -> bool {
        !self.hidden(self.widgets@[i].id, DEPTH_LIMIT as nat)
    }

    /// Index of the widget with id `id`, if any.
    pub open spec fn index_spec(&self, id: u64) -> Option<int> {
        if has_id(self.widgets@, id) {
            Some(choose|i: int| 0 <= i < self.widgets@.len() && self.widgets@[i].id == id)
        } else {
            None
        }
    }

    pub proof fn lemma_index_spec_some(&self, id: u64, i: int)
        requires
            self.wf(),
            0 <= i < self.widgets@.len(),
            self.widgets@[i].id == id,
        ensures
            self.index_spec(id) == Some(i),
    {
        let j = choose|j: int| 0 <= j < self.widgets@.len() && self.widgets@[j].id == id;
        assert(ids_unique(self.widgets@));
        assert(i == j);
    }

    pub proof fn lemma_index_spec_none(&self, id: u64)
        requires
            !has_id(self.widgets@, id),
        ensures
            self.index_spec(id) is None,
    {
    }

    /// An empty canvas over a viewport of 800 by 600 pixels at the origin.
    pub fn new() -> (r: Self)
        ensures
            r.wf(),
            r.widgets@.len() == 0,
            r.links@.len() == 0,
            r.next_id == 0,
            r.viewport == (Rect { x: 0, y: 0, w: 800, h: 600 }),
            r.interaction == Interaction::Idle,
            r.selected_panel is None,
            r.editing_widget is None,
            r.drag_hover_panel is None,
            r.alignment_guides@.len() == 0,
    {
        DragDropCanvas {
            widgets: Vec::new(),
            links: Vec::new(),
            next_id: 0,
            viewport: Rect::new(0, 0, 800, 600),
            selected_panel: None,
            interaction: Interaction::Idle,
            alignment_guides: Vec::new(),
            drag_hover_panel: None,
            editing_widget: None,
        }
    }

    /// Index of the widget with id `id`.
    pub fn find_index(&self, id: u64) -> (r: Option<usize>)
        ensures
            match r {
                Some(i) => i < self.widgets@.len() && self.widgets@[i as int].id == id,
                None => !has_id(self.widgets@, id),
            },
    {
        let mut i: usize = 0;
        while i < self.widgets.len()
            invariant
                i <= self.widgets@.len(),
                forall|j: int| 0 <= j < i ==> self.widgets@[j].id != id,
            decreases self.widgets@.len() - i,
        {
            if self.widgets[i].id == id {
                return Some(i);
            }
            i = i + 1;
        }
        None
    }

    /// The widget with id `id`.
    pub fn get_widget(&self, id: u64) -> (r: Option<Widget>)
        ensures
            match r {
                Some(w) => w.id == id && self.widgets@.contains(w),
                None => !has_id(self.widgets@, id),
            },
    {
        match self.find_index(id) {
            Some(i) => Some(self.widgets[i]),
            None => None,
        }
    }

    /// The widgets in rendering order.
    pub fn list_widgets(&self) -> (r: &Vec<Widget>)
        ensures
            r@ == self.widgets@,
    {
        &self.widgets
    }

    /// The container whose contained ids include `id`.
    pub fn container_of(&self, id: u64) -> (r: Option<u64>)
        requires
            self.wf(),
        ensures
            r == self.container_spec(id),
    {
        let mut k: usize = 0;
        while k < self.links.len()
            invariant
                self.wf(),
                k <= self.links@.len(),
                forall|j: int| 0 <= j < k ==> self.links@[j].child != id,
            decreases self.links@.len() - k,
        {
            if self.links[k].child == id {
                proof {
                    assert(self.links@[k as int].child == id);
                    let j = choose|j: int| 0 <= j < self.links@.len() && self.links@[j].child == id;
                    if j != k as int {
                        assert(self.links@[j].child != self.links@[k as int].child);
                    }
                    assert(j == k as int);
                }
                return Some(self.links[k].container);
            }
            k = k + 1;
        }
        None
    }
}

} // verus!
