use vstd::prelude::*;
use crate::canvas::{has_id, ids_unique, links_without, ContainmentLink, DragDropCanvas, DEPTH_LIMIT};
use crate::containment::{links_dropping, lemma_links_sans};
use crate::geometry::{Point, Rect, COORD_LIMIT, SIZE_LIMIT};
use crate::canvas::VIEWPORT_LIMIT;
use crate::placement::{
    canvas_area_of, content_area_of, corner_of, first_fit, first_free_slot, no_fit, seeded_fit,
    seeded_slot, area_ok, CANVAS_MARGIN, CONTENT_PADDING,
};
use crate::widget::{Widget, WidgetKind, TITLE_BAR_HEIGHT};

verus! {

pub proof fn lemma_has_id_push(ws: Seq<Widget>, w: Widget, id: u64)
    requires
        has_id(ws, id),
    ensures
        has_id(ws.push(w), id),
{
    let i = choose|i: int| 0 <= i < ws.len() && ws[i].id == id;
    assert(ws.push(w)[i] == ws[i]);
}

pub proof fn lemma_links_without_absent(links: Seq<ContainmentLink>, id: u64)
    requires
        forall|k: int| 0 <= k < links.len() ==> (#[trigger] links[k]).child != id,
    ensures
        links_without(links, id) == links,
    decreases links.len(),
{
    if links.len() > 0 {
        let rest = links.drop_last();
        assert forall|k: int| 0 <= k < rest.len() implies (#[trigger] rest[k]).child != id by {
            assert(rest[k] == links[k]);
        }
        lemma_links_without_absent(rest, id);
        assert(links.last() == links[links.len() - 1]);
        assert(rest.push(links.last()) == links);
    }
}

/// A new widget of `kind` was appended to `old` under the next id, giving
/// `new`.
pub open spec fn appended(old: DragDropCanvas, kind: WidgetKind, new: DragDropCanvas) -> bool {
    &&& new.next_id == old.next_id + 1
    &&& new.widgets@.len() == old.widgets@.len() + 1
    &&& new.widgets@.drop_last() == old.widgets@
    &&& new.widgets@.last().id == old.next_id
    &&& new.widgets@.last().kind == kind
}

/// `new` is `old` with a widget of `kind` placed on the canvas by the grid
/// scan.
pub open spec fn spawned_on_canvas(old: DragDropCanvas, kind: WidgetKind, new: DragDropCanvas) -> bool {
    &&& appended(old, kind, new)
    &&& new.links@ == old.links@
    &&& old.canvas_spot(kind.size_of().0, kind.size_of().1, new.widgets@.last().pos)
}

/// `new` is `old` with a widget of `kind` placed on the canvas at `at`,
/// moved into the viewport and, where that spot is taken, by the grid scan.
pub open spec fn dropped_on_canvas(
    old: DragDropCanvas,
    kind: WidgetKind,
    at: Point,
    new: DragDropCanvas,
) -> bool {
    &&& appended(old, kind, new)
    &&& new.links@ == old.links@
    &&& old.canvas_seeded_spot(kind.size_of().0, kind.size_of().1, at, new.widgets@.last().pos)
}

/// `new` is `old` with a widget of `kind` placed inside container `c` (at
/// `seed` moved into its content area where that spot is free, else by the
/// grid scan), or, where `c` takes no new children or has no room, on the
/// canvas by the grid scan.
pub open spec fn spawned_in(
    old: DragDropCanvas,
    c: u64,
    kind: WidgetKind,
    seed: Option<Point>,
    new: DragDropCanvas,
) -> bool {
    let joined = new.links@.len() == old.links@.len() + 1;
    &&& appended(old, kind, new)
    &&& joined ==> new.links@ == old.links@.push(ContainmentLink { container: c, child: old.next_id })
    &&& joined ==> new.widgets@.last().bounds().within(content_area_of(old.widget_with(c).bounds()))
    &&& !joined ==> new.links@ == old.links@ && old.canvas_spot(
        kind.size_of().0,
        kind.size_of().1,
        new.widgets@.last().pos,
    )
    &&& old.accepting_id(c) ==> exists|p: Option<Point>|
        old.container_slot(c, kind.size_of().0, kind.size_of().1, seed, p) && (joined <==> (p matches Some(q) && q.wf())) && (joined ==> p == Some(new.widgets@.last().pos))
    &&& !old.accepting_id(c) ==> new.links@ == old.links@
}

impl DragDropCanvas {
    /// No container up the chain of any widget is `a` when no link names `a`
    /// as a container.
    pub proof fn lemma_not_ancestor(&self, a: u64, id: u64, fuel: nat)
        requires
            self.wf(),
            forall|k: int| 0 <= k < self.links@.len() ==> (#[trigger] self.links@[k]).container != a,
        ensures
            !self.ancestor(a, id, fuel),
        decreases fuel,
    {
        if let Some(c) = self.container_spec(id) {
            let k = choose|k: int| 0 <= k < self.links@.len() && self.links@[k].child == id;
            assert(self.links@[k].container != a);
            if fuel > 0 {
                self.lemma_not_ancestor(a, c, (fuel - 1) as nat);
            }
        }
    }

    /// Widget `i` is in the way when placing inside `within` (or on the canvas
    /// itself for `None`): it is visible, and it is neither that container nor
    /// one of the enclosing containers a new child of it would have.
    pub open spec fn obstacle(&self, i: int, within: Option<u64>) -> bool {
        self.visible(i) && match within {
            None => true,
            Some(c) => self.widgets@[i].id != c && !self.ancestor(
                self.widgets@[i].id,
                c,
                (DEPTH_LIMIT - 1) as nat,
            ),
        }
    }

    pub open spec fn obstacles_upto(&self, within: Option<u64>, n: nat) -> Seq<Rect>
        decreases n,
    {
        if n == 0 {
            Seq::empty()
        } else {
            let rest = self.obstacles_upto(within, (n - 1) as nat);
            if self.obstacle(n - 1, within) {
                rest.push(self.widgets@[n - 1].bounds())
            } else {
                rest
            }
        }
    }

    /// The rectangles that placement inside `within` keeps clear of, in
    /// rendering order.
    pub open spec fn obstacle_rects(&self, within: Option<u64>) -> Seq<Rect> {
        self.obstacles_upto(within, self.widgets@.len())
    }

    /// The widget with id `id` (meaningful where one exists).
    pub open spec fn widget_with(&self, id: u64) -> Widget {
        let i = choose|i: int| 0 <= i < self.widgets@.len() && self.widgets@[i].id == id;
        self.widgets@[i]
    }

    /// The position canvas placement gives a `w` by `h` widget: the first
    /// free grid slot, or the corner when none is free.
    pub open spec fn canvas_spot(&self, w: int, h: int, p: Point) -> bool {
        let area = canvas_area_of(self.viewport);
        let obs = self.obstacle_rects(None);
        first_fit(area, w, h, obs, p) || (no_fit(area, w, h, obs) && p == corner_of(area, w))
    }

    pub proof fn lemma_widget_with(&self, id: u64, i: int)
        requires
            self.wf(),
            0 <= i < self.widgets@.len(),
            self.widgets@[i].id == id,
        ensures
            self.widget_with(id) == self.widgets@[i],
    {
        let j = choose|j: int| 0 <= j < self.widgets@.len() && self.widgets@[j].id == id;
        assert(ids_unique(self.widgets@));
        assert(i == j);
    }

    /// The rectangles that placement inside `within` keeps clear of.
    pub fn placement_obstacles(&self, within: Option<u64>) -> (r: Vec<Rect>)
        requires
            self.wf(),
        ensures
            r@ == self.obstacle_rects(within),
            forall|k: int| 0 <= k < r@.len() ==> (#[trigger] r@[k]).wf(),
    {
        let mut r: Vec<Rect> = Vec::new();
        let mut i: usize = 0;
        while i < self.widgets.len()
            invariant
                self.wf(),
                i <= self.widgets@.len(),
                r@ == self.obstacles_upto(within, i as nat),
                forall|k: int| 0 <= k < r@.len() ==> (#[trigger] r@[k]).wf(),
            decreases self.widgets@.len() - i,
        {
            let w = self.widgets[i];
            let mut keep = !self.is_hidden(w.id);
            if keep {
                if let Some(c) = within {
                    keep = w.id != c && !self.is_ancestor_within(w.id, c, DEPTH_LIMIT - 1);
                }
            }
            if keep {
                proof {
                    w.lemma_bounds_wf();
                }
                r.push(w.rect());
            }
            i = i + 1;
        }
        r
    }

    /// The position canvas placement gives a `w` by `h` widget: the first
    /// free slot of the grid over the viewport less its margin, scanning
    /// right to left and top to bottom; the top-right corner of that area
    /// when no slot is free.
    pub fn find_next_canvas_position(&self, w: i64, h: i64) -> (r: Point)
        requires
            self.wf(),
            0 <= w <= SIZE_LIMIT,
            0 <= h <= SIZE_LIMIT,
        ensures
            self.canvas_spot(w as int, h as int, r),
            w <= VIEWPORT_LIMIT - CANVAS_MARGIN ==> r.wf(),
    {
        let vp = self.viewport;
        let area = Rect::new(
            vp.x + CANVAS_MARGIN,
            vp.y + CANVAS_MARGIN,
            vp.w - 2 * CANVAS_MARGIN,
            vp.h - 2 * CANVAS_MARGIN,
        );
        assert(area == canvas_area_of(vp));
        let obstacles = self.placement_obstacles(None);
        match first_free_slot(area, w, h, &obstacles) {
            Some(p) => p,
            None => Point { x: area.x + area.w - w, y: area.y },
        }
    }

    /// The content area of the container with id `c`, if it exists and
    /// takes new children.
    pub fn content_area(&self, c: u64) -> (r: Option<Rect>)
        requires
            self.wf(),
        ensures
            r is Some <==> self.accepting_id(c),
            r matches Some(a) ==> a == content_area_of(self.widget_with(c).bounds()) && area_ok(a),
    {
        match self.find_index(c) {
            Some(i) => {
                let w = self.widgets[i];
                proof {
                    self.lemma_widget_with(c, i as int);
                    w.lemma_bounds_wf();
                }
                if w.kind.is_accepting_widgets() {
                    let b = w.rect();
                    Some(
                        Rect::new(
                            b.x + CONTENT_PADDING,
                            b.y + TITLE_BAR_HEIGHT,
                            b.w - 2 * CONTENT_PADDING,
                            b.h - TITLE_BAR_HEIGHT - CONTENT_PADDING,
                        ),
                    )
                } else {
                    None
                }
            },
            None => None,
        }
    }

    /// Appends a widget of `kind` at `pos` under a fresh id, which it returns.
    fn push_widget(&mut self, kind: WidgetKind, pos: Point) -> (r: u64)
        requires
            old(self).wf(),
            kind.wf(),
            pos.wf(),
            old(self).next_id < u64::MAX,
        ensures
            final(self).wf(),
            r == old(self).next_id,
            final(self).next_id == old(self).next_id + 1,
            final(self).widgets@ == old(self).widgets@.push(Widget { id: r, kind, pos }),
            final(self).links@ == old(self).links@,
            final(self).viewport == old(self).viewport,
            final(self).interaction == old(self).interaction,
            final(self).selected_panel == old(self).selected_panel,
    {
        let id = self.next_id;
        let ghost ws = self.widgets@;
        let w = Widget { id, kind, pos };
        self.widgets.push(w);
        self.next_id = id + 1;
        proof {
            assert forall|k: int| 0 <= k < self.links@.len() implies has_id(
                self.widgets@,
                #[trigger] self.links@[k].container,
            ) && has_id(self.widgets@, self.links@[k].child) && self.links@[k].container
                != self.links@[k].child by {
                lemma_has_id_push(ws, w, self.links@[k].container);
                lemma_has_id_push(ws, w, self.links@[k].child);
            }
            assert forall|i: int| 0 <= i < self.widgets@.len() implies (
            #[trigger] self.widgets@[i]).wf() by {
                if i < ws.len() {
                    assert(self.widgets@[i] == ws[i]);
                }
            }
            assert forall|i: int| 0 <= i < self.widgets@.len() implies (
            #[trigger] self.widgets@[i]).id < self.next_id by {
                if i < ws.len() {
                    assert(self.widgets@[i] == ws[i]);
                }
            }
            assert forall|i: int, j: int|
                0 <= i < self.widgets@.len() && 0 <= j < self.widgets@.len() && i
                    != j implies self.widgets@[i].id != self.widgets@[j].id by {
                if i < ws.len() {
                    assert(self.widgets@[i] == ws[i]);
                }
                if j < ws.len() {
                    assert(self.widgets@[j] == ws[j]);
                }
            }
        }
        id
    }

    /// Places a new widget of `kind` on the canvas by the grid scan and
    /// returns its fresh id.
    pub fn spawn_on_canvas(&mut self, kind: WidgetKind) -> (r: u64)
        requires
            old(self).wf(),
            kind.wf(),
            old(self).next_id < u64::MAX,
        ensures
            final(self).wf(),
            r == old(self).next_id,
            spawned_on_canvas(*old(self), kind, *final(self)),
            final(self).viewport == old(self).viewport,
            final(self).interaction == old(self).interaction,
            final(self).selected_panel == old(self).selected_panel,
    {
        let (w, h) = kind.size();
        let pos = self.find_next_canvas_position(w, h);
        let r = self.push_widget(kind, pos);
        assert(self.widgets@.drop_last() == old(self).widgets@);
        r
    }

    /// The choice of spot inside container `c` for a `w` by `h` widget: none
    /// where it does not fit the content area; else the seed moved into the
    /// area where that spot is free, else the first free grid slot.
    pub open spec fn container_slot(
        &self,
        c: u64,
        w: int,
        h: int,
        seed: Option<Point>,
        p: Option<Point>,
    ) -> bool {
        let area = content_area_of(self.widget_with(c).bounds());
        let obs = self.obstacle_rects(Some(c));
        if w > area.w || h > area.h {
            p is None
        } else {
            match seed {
                Some(s) => seeded_fit(area, w, h, obs, s, p),
                None => match p {
                    Some(q) => first_fit(area, w, h, obs, q),
                    None => no_fit(area, w, h, obs),
                },
            }
        }
    }

    /// Places a new widget of `kind` inside container `c`, at `seed` moved
    /// into the content area if that spot is free (or by the grid scan when
    /// there is no seed, or the spot is taken), and returns its fresh id.
    /// Where `c` takes no new children, or has no room, the widget goes on
    /// the canvas by the grid scan; a selection of a container that takes no
    /// new children is cleared.
    pub fn spawn_in_container(&mut self, c: u64, kind: WidgetKind, seed: Option<Point>) -> (r: u64)
        requires
            old(self).wf(),
            kind.wf(),
            old(self).next_id < u64::MAX,
            seed matches Some(s) ==> s.wf(),
        ensures
            final(self).wf(),
            r == old(self).next_id,
            spawned_in(*old(self), c, kind, seed, *final(self)),
            final(self).selected_panel == if !old(self).accepting_id(c) && old(self).selected_panel
                == Some(c) {
                None
            } else {
                old(self).selected_panel
            },
            final(self).viewport == old(self).viewport,
            final(self).interaction == old(self).interaction,
    {
        let (w, h) = kind.size();
        match self.content_area(c) {
            Some(area) => {
                let obstacles = self.placement_obstacles(Some(c));
                let spot = if w > area.w || h > area.h {
                    None
                } else {
                    match seed {
                        Some(s) => seeded_slot(area, w, h, &obstacles, s),
                        None => first_free_slot(area, w, h, &obstacles),
                    }
                };
                assert(self.container_slot(c, w as int, h as int, seed, spot));
                match spot {
                    Some(p) => {
                        if -COORD_LIMIT <= p.x && p.x <= COORD_LIMIT && -COORD_LIMIT <= p.y && p.y
                            <= COORD_LIMIT {
                            let ghost before = *self;
                            let id = self.push_widget(kind, p);
                            proof {
                                let i = choose|i: int|
                                    0 <= i < before.widgets@.len() && before.widgets@[i].id == c
                                        && before.widgets@[i].kind.accepting();
                                assert(self.widgets@[i] == before.widgets@[i]);
                                assert forall|k: int| 0 <= k < self.links@.len() implies (
                                #[trigger] self.links@[k]).container != id by {
                                    let j = choose|j: int|
                                        0 <= j < self.widgets@.len() && self.widgets@[j].id
                                            == self.links@[k].container;
                                    assert(has_id(self.widgets@, self.links@[k].container));
                                    if j == self.widgets@.len() - 1 {
                                        assert(has_id(before.widgets@, self.links@[k].container));
                                        let m = choose|m: int|
                                            0 <= m < before.widgets@.len() && before.widgets@[m].id
                                                == self.links@[k].container;
                                        assert(before.widgets@[m].id < before.next_id);
                                    }
                                }
                                self.lemma_not_ancestor(id, c, DEPTH_LIMIT as nat);
                                assert(self.widgets@[self.widgets@.len() - 1].id == id);
                                assert forall|k: int| 0 <= k < self.links@.len() implies (
                                #[trigger] self.links@[k]).child != id by {
                                    assert(has_id(before.widgets@, self.links@[k].child));
                                    let m = choose|m: int|
                                        0 <= m < before.widgets@.len() && before.widgets@[m].id
                                            == self.links@[k].child;
                                    assert(before.widgets@[m].id < before.next_id);
                                }
                                lemma_links_without_absent(self.links@, id);
                            }
                            let added = self.add_child(c, id);
                            assert(added);
                            proof {
                                let i = choose|i: int|
                                    0 <= i < before.widgets@.len() && before.widgets@[i].id == c
                                        && before.widgets@[i].kind.accepting();
                                before.lemma_widget_with(c, i);
                                assert(self.widgets@.drop_last() == before.widgets@);
                            }
                            id
                        } else {
                            self.spawn_on_canvas(kind)
                        }
                    },
                    None => self.spawn_on_canvas(kind),
                }
            },
            None => {
                let id = self.spawn_on_canvas(kind);
                if self.selected_panel == Some(c) {
                    self.selected_panel = None;
                }
                id
            },
        }
    }

    /// The position drop-point placement on the canvas gives a `w` by `h`
    /// widget dropped at `at`.
    pub open spec fn canvas_seeded_spot(&self, w: int, h: int, at: Point, p: Point) -> bool {
        let area = canvas_area_of(self.viewport);
        exists|o: Option<Point>|
            seeded_fit(area, w, h, self.obstacle_rects(None), at, o) && p == match o {
                Some(q) => q,
                None => corner_of(area, w),
            }
    }

    /// Places a new widget of `kind` on the canvas at `at`, moved into the
    /// viewport less its margin; where that spot is taken, by the grid scan.
    /// Returns the fresh id.
    pub fn add_widget(&mut self, kind: WidgetKind, at: Point) -> (r: u64)
        requires
            old(self).wf(),
            kind.wf(),
            at.wf(),
            old(self).next_id < u64::MAX,
        ensures
            final(self).wf(),
            r == old(self).next_id,
            dropped_on_canvas(*old(self), kind, at, *final(self)),
            final(self).viewport == old(self).viewport,
            final(self).interaction == old(self).interaction,
            final(self).selected_panel == old(self).selected_panel,
    {
        let (w, h) = kind.size();
        let vp = self.viewport;
        let area = Rect::new(
            vp.x + CANVAS_MARGIN,
            vp.y + CANVAS_MARGIN,
            vp.w - 2 * CANVAS_MARGIN,
            vp.h - 2 * CANVAS_MARGIN,
        );
        assert(area == canvas_area_of(vp));
        let obstacles = self.placement_obstacles(None);
        let o = seeded_slot(area, w, h, &obstacles, at);
        let pos = match o {
            Some(q) => q,
            None => Point { x: area.x + area.w - w, y: area.y },
        };
        let r = self.push_widget(kind, pos);
        assert(self.widgets@.drop_last() == old(self).widgets@);
        r
    }

    /// Places a new widget of `kind` by the grid scan: inside the selected
    /// container when there is one (see `spawn_in_container`), else on the
    /// canvas. Returns the fresh id.
    pub fn spawn_widget_directly(&mut self, kind: WidgetKind) -> (r: u64)
        requires
            old(self).wf(),
            kind.wf(),
            old(self).next_id < u64::MAX,
        ensures
            final(self).wf(),
            r == old(self).next_id,
            match old(self).selected_panel {
                Some(c) => spawned_in(*old(self), c, kind, None, *final(self)),
                None => spawned_on_canvas(*old(self), kind, *final(self)),
            },
            final(self).selected_panel == match old(self).selected_panel {
                Some(c) => if old(self).accepting_id(c) {
                    Some(c)
                } else {
                    None
                },
                None => None,
            },
            final(self).viewport == old(self).viewport,
            final(self).interaction == old(self).interaction,
    {
        match self.selected_panel {
            Some(c) => self.spawn_in_container(c, kind, None),
            None => self.spawn_on_canvas(kind),
        }
    }

    /// Makes `id` the selected container (or clears the selection).
    pub fn select_container(&mut self, id: Option<u64>)
        requires
            old(self).wf(),
        ensures
            final(self).wf(),
            final(self).selected_panel == id,
            final(self).widgets@ == old(self).widgets@,
            final(self).links@ == old(self).links@,
            final(self).next_id == old(self).next_id,
            final(self).interaction == old(self).interaction,
    {
        self.selected_panel = id;
    }

    /// The selected container, if any.
    pub fn selected_container(&self) -> (r: Option<u64>)
        ensures
            r == self.selected_panel,
    {
        self.selected_panel
    }

    /// Removes every widget and every containment link; nothing else
    /// changes. The id counter keeps its value, so no id comes back. A
    /// session on a widget that is gone ends at its next tick.
    pub fn clear_canvas(&mut self)
        requires
            old(self).wf(),
        ensures
            final(self).wf(),
            final(self).widgets@.len() == 0,
            final(self).links@.len() == 0,
            final(self).next_id == old(self).next_id,
            final(self).viewport == old(self).viewport,
            final(self).interaction == old(self).interaction,
            final(self).selected_panel == old(self).selected_panel,
            final(self).editing_widget == old(self).editing_widget,
            final(self).drag_hover_panel == old(self).drag_hover_panel,
            final(self).alignment_guides@ == old(self).alignment_guides@,
    {
        self.widgets.clear();
        self.links.clear();
    }

    /// Deletes the widget with id `id`, if there is one: it leaves the
    /// widget list and every container's contained ids, and the widgets it
    /// held go back to the canvas. The id counter keeps its value, so the id
    /// is never given out again. Returns whether a widget was deleted.
    pub fn delete_widget(&mut self, id: u64) -> (r: bool)
        requires
            old(self).wf(),
        ensures
            final(self).wf(),
            r == has_id(old(self).widgets@, id),
            r ==> exists|i: int|
                0 <= i < old(self).widgets@.len() && old(self).widgets@[i].id == id
                    && final(self).widgets@ == old(self).widgets@.remove(i),
            r ==> final(self).links@ == links_dropping(old(self).links@, id),
            !r ==> final(self).widgets@ == old(self).widgets@ && final(self).links@ == old(
                self).links@,
            !has_id(final(self).widgets@, id),
            final(self).next_id == old(self).next_id,
            final(self).viewport == old(self).viewport,
            final(self).interaction == old(self).interaction,
            final(self).selected_panel == if old(self).selected_panel == Some(id) {
                None
            } else {
                old(self).selected_panel
            },
            final(self).editing_widget == if old(self).editing_widget == Some(id) {
                None
            } else {
                old(self).editing_widget
            },
            final(self).drag_hover_panel == if old(self).drag_hover_panel == Some(id) {
                None
            } else {
                old(self).drag_hover_panel
            },
    {
        if self.selected_panel == Some(id) {
            self.selected_panel = None;
        }
        if self.drag_hover_panel == Some(id) {
            self.drag_hover_panel = None;
        }
        if self.editing_widget == Some(id) {
            self.editing_widget = None;
        }
        match self.find_index(id) {
            None => false,
            Some(i) => {
                let ghost ws = self.widgets@;
                let mut out: Vec<ContainmentLink> = Vec::new();
                let mut k: usize = 0;
                while k < self.links.len()
                    invariant
                        k <= self.links@.len(),
                        out@ == links_dropping(self.links@.subrange(0, k as int), id),
                    decreases self.links@.len() - k,
                {
                    assert(self.links@.subrange(0, k + 1).drop_last() == self.links@.subrange(
                        0,
                        k as int,
                    ));
                    let l = self.links[k];
                    if l.child != id && l.container != id {
                        out.push(l);
                    }
                    k = k + 1;
                }
                assert(self.links@.subrange(0, self.links@.len() as int) == self.links@);
                proof {
                    lemma_links_sans(self.links@, id, true);
                }
                self.links = out;
                self.widgets.remove(i);
                proof {
                    let nws = self.widgets@;
                    assert(nws == ws.remove(i as int));
                    assert forall|a: int| 0 <= a < nws.len() implies #[trigger] nws[a] == (if a
                        < i {
                        ws[a]
                    } else {
                        ws[a + 1]
                    }) by {}
                    assert forall|x: u64| #[trigger] has_id(ws, x) && x != id implies has_id(
                        nws,
                        x,
                    ) by {
                        let m = choose|m: int| 0 <= m < ws.len() && ws[m].id == x;
                        if m < i {
                            assert(nws[m] == ws[m]);
                        } else {
                            assert(m != i);
                            assert(nws[m - 1] == ws[m]);
                        }
                    }
                    let links = self.links@;
                    assert forall|j: int| 0 <= j < links.len() implies has_id(
                        nws,
                        #[trigger] links[j].container,
                    ) && has_id(nws, links[j].child) && links[j].container != links[j].child by {
                        assert(old(self).links@.contains(links[j]));
                        let m = choose|m: int|
                            0 <= m < old(self).links@.len() && old(self).links@[m] == links[j];
                        assert(has_id(ws, old(self).links@[m].container));
                        assert(has_id(ws, old(self).links@[m].child));
                    }
                    assert forall|a: int, b: int|
                        0 <= a < nws.len() && 0 <= b < nws.len() && a != b implies nws[a].id
                        != nws[b].id by {
                        let a2 = if a < i { a } else { a + 1 };
                        let b2 = if b < i { b } else { b + 1 };
                        assert(nws[a] == ws[a2] && nws[b] == ws[b2]);
                    }
                    assert forall|a: int| 0 <= a < nws.len() implies (#[trigger] nws[a]).wf()
                        && nws[a].id < self.next_id by {
                        let a2 = if a < i { a } else { a + 1 };
                        assert(nws[a] == ws[a2]);
                    }
                    if has_id(nws, id) {
                        let m = choose|m: int| 0 <= m < nws.len() && nws[m].id == id;
                        let m2 = if m < i { m } else { m + 1 };
                        assert(nws[m] == ws[m2]);
                    }
                }
                true
            },
        }
    }
}

} // verus!
