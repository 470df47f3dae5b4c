use vstd::prelude::*;
use crate::canvas::{has_id, links_without, ContainmentLink, DragDropCanvas, Interaction, DEPTH_LIMIT};
use crate::spawn::{dropped_on_canvas, spawned_in};
use crate::geometry::{clamp, clamp_spec, Point, Rect, COORD_LIMIT};
use crate::interaction::{
    PointerEvent, same_session,
    in_dial, in_fold_toggle, in_resize_handle, is_click, is_click_distance, is_in_dial,
    is_in_fold_toggle, is_in_resize_handle,
};
use crate::placement::{area_ok, clamp_into, content_area_of, seed_in};
use crate::snapping::{alignment_guides, guides_for, snap_axis, snapped};
use crate::widget::{adjust_kind, adjusted, clicked, resize_kind, resized, Widget, WidgetKind};

verus! {

/// `v` held to the coordinate range.
pub open spec fn in_range(v: int) -> int {
    clamp_spec(v, -COORD_LIMIT as int, COORD_LIMIT as int)
}

impl DragDropCanvas {
    pub open spec fn others_upto(&self, skip: int, n: nat) -> Seq<Rect>
        decreases n,
    {
        if n == 0 {
            Seq::empty()
        } else {
            let rest = self.others_upto(skip, (n - 1) as nat);
            if self.visible(n - 1) && n - 1 != skip {
                rest.push(self.widgets@[n - 1].bounds())
            } else {
                rest
            }
        }
    }

    /// The rectangles a widget at index `skip` aligns with: every other
    /// visible widget, in rendering order.
    pub open spec fn others(&self, skip: int) -> Seq<Rect> {
        self.others_upto(skip, self.widgets@.len())
    }

    /// The area a dragged widget `id` stays in: its container's content area
    /// when it is held by a container that takes new children, else the
    /// viewport.
    pub open spec fn drag_area(&self, id: u64) -> Rect {
        match self.container_spec(id) {
            Some(c) => if self.accepting_id(c) {
                content_area_of(self.widget_with(c).bounds())
            } else {
                self.viewport
            },
            None => self.viewport,
        }
    }

    /// Where widget `i` goes while dragged with the pointer at `p`: the
    /// pointer less the grab offset, held to the drag area, snapped, held to
    /// the drag area again and to the coordinate range.
    pub open spec fn drag_spot(&self, i: int, p: Point, grab: Point) -> Point {
        let w = self.widgets@[i];
        let sw = w.kind.size_of().0;
        let sh = w.kind.size_of().1;
        let area = self.drag_area(w.id);
        let c = seed_in(area, sw, sh, Point { x: (p.x - grab.x) as i64, y: (p.y - grab.y) as i64 });
        let ts = self.others(i);
        let s = Point {
            x: snapped(in_range(c.x as int), sw, self.viewport, ts, true) as i64,
            y: snapped(in_range(c.y as int), sh, self.viewport, ts, false) as i64,
        };
        let f = seed_in(area, sw, sh, s);
        Point { x: in_range(f.x as int) as i64, y: in_range(f.y as int) as i64 }
    }

    /// The guides shown while widget `i` is dragged with the pointer at `p`:
    /// those of its position held to the drag area, before snapping.
    pub open spec fn drag_guides(&self, i: int, p: Point, grab: Point) -> Seq<
        crate::canvas::AlignmentGuide,
    > {
        let w = self.widgets@[i];
        let sw = w.kind.size_of().0;
        let sh = w.kind.size_of().1;
        let area = self.drag_area(w.id);
        let c = seed_in(area, sw, sh, Point { x: (p.x - grab.x) as i64, y: (p.y - grab.y) as i64 });
        let cr = Rect { x: in_range(c.x as int) as i64, y: in_range(c.y as int) as i64, w: sw as i64, h: sh as i64 };
        guides_for(cr, self.viewport, self.others(i))
    }

    fn snap_targets(&self, skip: usize) -> (r: Vec<Rect>)
        requires
            self.wf(),
        ensures
            r@ == self.others(skip as int),
            forall|k: int| 0 <= k < r@.len() ==> (#[trigger] r@[k]).wf(),
    {
        let mut r: Vec<Rect> = Vec::new();
        let mut i: usize = 0;
        while i < self.widgets.len()
            invariant
                self.wf(),
                i <= self.widgets@.len(),
                r@ == self.others_upto(skip as int, i as nat),
                forall|k: int| 0 <= k < r@.len() ==> (#[trigger] r@[k]).wf(),
            decreases self.widgets@.len() - i,
        {
            let w = self.widgets[i];
            if i != skip && !self.is_hidden(w.id) {
                proof {
                    w.lemma_bounds_wf();
                }
                r.push(w.rect());
            }
            i = i + 1;
        }
        r
    }

    fn drag_area_exec(&self, id: u64) -> (r: Rect)
        requires
            self.wf(),
        ensures
            r == self.drag_area(id),
            area_ok(r),
    {
        match self.container_of(id) {
            Some(c) => match self.content_area(c) {
                Some(a) => a,
                None => self.viewport,
            },
            None => self.viewport,
        }
    }

    /// One tick of dragging widget `id` with the pointer at `p`. Where the
    /// widget is gone the session ends.
    pub fn drag_tick(&mut self, p: Point)
        requires
            old(self).wf(),
            old(self).interaction is Dragging,
            p.wf(),
        ensures
            final(self).wf(),
            final(self).links@ == old(self).links@,
            final(self).next_id == old(self).next_id,
            final(self).viewport == old(self).viewport,
            final(self).selected_panel == old(self).selected_panel,
            match old(self).interaction {
                Interaction::Dragging { id, grab, .. } => match old(self).index_spec(id) {
                    Some(i) => final(self).interaction == old(self).interaction
                        && final(self).widgets@ == old(self).widgets@.update(
                        i,
                        Widget { pos: old(self).drag_spot(i, p, grab), ..old(self).widgets@[i] },
                    ) && final(self).alignment_guides@ == old(self).drag_guides(i, p, grab),
                    None => final(self).interaction == Interaction::Idle && final(self).widgets@
                        == old(self).widgets@,
                },
                _ => false,
            },
    {
        let (id, grab) = match self.interaction {
            Interaction::Dragging { id, grab, .. } => (id, grab),
            _ => {
                return ;
            },
        };
        match self.find_index(id) {
            None => {
                self.interaction = Interaction::Idle;
                proof {
                    self.lemma_index_spec_none(id);
                }
            },
            Some(i) => {
                proof {
                    self.lemma_index_spec_some(id, i as int);
                }
                let w = self.widgets[i];
                let (sw, sh) = w.kind.size();
                let area = self.drag_area_exec(w.id);
                let c = clamp_into(area, sw, sh, Point { x: p.x - grab.x, y: p.y - grab.y });
                let targets = self.snap_targets(i);
                let cx = clamp(c.x, -COORD_LIMIT, COORD_LIMIT);
                let cy = clamp(c.y, -COORD_LIMIT, COORD_LIMIT);
                let guides = alignment_guides(Rect::new(cx, cy, sw, sh), self.viewport, &targets);
                let sx = snap_axis(cx, sw, self.viewport, &targets, true);
                let sy = snap_axis(cy, sh, self.viewport, &targets, false);
                let f = clamp_into(area, sw, sh, Point { x: sx, y: sy });
                let fin = Point {
                    x: clamp(f.x, -COORD_LIMIT, COORD_LIMIT),
                    y: clamp(f.y, -COORD_LIMIT, COORD_LIMIT),
                };
                let hover = self.drop_target(p, Some(id));
                self.set_widget(i, Widget { pos: fin, ..w });
                self.alignment_guides = guides;
                self.drag_hover_panel = match hover {
                    Some(h) => Some(self.widgets[h].id),
                    None => None,
                };
            },
        }
    }

    /// One tick of resizing widget `id` with the pointer at `p`: the pointer's
    /// travel since the last tick goes to the widget's declared size. Where
    /// the widget is gone the session ends.
    pub fn resize_tick(&mut self, p: Point)
        requires
            old(self).wf(),
            old(self).interaction is Resizing,
            p.wf(),
        ensures
            final(self).wf(),
            final(self).links@ == old(self).links@,
            final(self).next_id == old(self).next_id,
            final(self).viewport == old(self).viewport,
            final(self).selected_panel == old(self).selected_panel,
            match old(self).interaction {
                Interaction::Resizing { id, last } => match old(self).index_spec(id) {
                    Some(i) => final(self).interaction == (Interaction::Resizing { id, last: p })
                        && final(self).widgets@ == old(self).widgets@.update(
                        i,
                        Widget {
                            kind: resized(old(self).widgets@[i].kind, p.x - last.x, p.y - last.y),
                            ..old(self).widgets@[i]
                        },
                    ),
                    None => final(self).interaction == Interaction::Idle && final(self).widgets@
                        == old(self).widgets@,
                },
                _ => false,
            },
    {
        let (id, last) = match self.interaction {
            Interaction::Resizing { id, last } => (id, last),
            _ => {
                return ;
            },
        };
        match self.find_index(id) {
            None => {
                self.interaction = Interaction::Idle;
                proof {
                    self.lemma_index_spec_none(id);
                }
            },
            Some(i) => {
                proof {
                    self.lemma_index_spec_some(id, i as int);
                }
                let w = self.widgets[i];
                let k = resize_kind(w.kind, p.x - last.x, p.y - last.y);
                self.set_widget(i, Widget { kind: k, ..w });
                self.interaction = Interaction::Resizing { id, last: p };
            },
        }
    }

    /// One tick of turning knob `id` with the pointer at `p`: upward travel
    /// since the last tick raises the value, downward travel lowers it.
    /// Where the widget is gone the session ends.
    pub fn adjust_tick(&mut self, p: Point)
        requires
            old(self).wf(),
            old(self).interaction is AdjustingValue,
            p.wf(),
        ensures
            final(self).wf(),
            final(self).links@ == old(self).links@,
            final(self).next_id == old(self).next_id,
            final(self).viewport == old(self).viewport,
            final(self).selected_panel == old(self).selected_panel,
            match old(self).interaction {
                Interaction::AdjustingValue { id, last } => match old(self).index_spec(id) {
                    Some(i) => final(self).interaction == (Interaction::AdjustingValue {
                        id,
                        last: p,
                    }) && final(self).widgets@ == old(self).widgets@.update(
                        i,
                        Widget {
                            kind: adjusted(old(self).widgets@[i].kind, last.y - p.y),
                            ..old(self).widgets@[i]
                        },
                    ),
                    None => final(self).interaction == Interaction::Idle && final(self).widgets@
                        == old(self).widgets@,
                },
                _ => false,
            },
    {
        let (id, last) = match self.interaction {
            Interaction::AdjustingValue { id, last } => (id, last),
            _ => {
                return ;
            },
        };
        match self.find_index(id) {
            None => {
                self.interaction = Interaction::Idle;
                proof {
                    self.lemma_index_spec_none(id);
                }
            },
            Some(i) => {
                proof {
                    self.lemma_index_spec_some(id, i as int);
                }
                let w = self.widgets[i];
                let k = adjust_kind(w.kind, last.y - p.y);
                self.set_widget(i, Widget { kind: k, ..w });
                self.interaction = Interaction::AdjustingValue { id, last: p };
            },
        }
    }

    /// What a press at `p` does on an idle canvas, given the topmost widget
    /// `t` under it (see `press`).
    pub open spec fn pressed_on(&self, p: Point, t: Option<usize>, new: &DragDropCanvas) -> bool {
        match t {
            None => new.interaction == Interaction::Idle && new.widgets@ == self.widgets@,
            Some(i) => {
                let w = self.widgets@[i as int];
                let r = w.bounds();
                if (w.kind is Panel || w.kind is StatusBar) && in_resize_handle(r, p) {
                    new.interaction == (Interaction::Resizing { id: w.id, last: p })
                        && new.widgets@ == self.widgets@
                } else if w.kind is Knob && in_dial(r, p) {
                    new.interaction == (Interaction::AdjustingValue { id: w.id, last: p })
                        && new.widgets@ == self.widgets@
                } else if w.kind is Panel && in_fold_toggle(r, p) {
                    new.interaction == Interaction::Idle && new.selected_panel == Some(w.id)
                        && new.widgets@ == self.widgets@.update(
                        i as int,
                        Widget { kind: clicked(w.kind, r, p), ..w },
                    )
                } else {
                    new.interaction == (Interaction::Dragging {
                        id: w.id,
                        grab: Point { x: (p.x - w.pos.x) as i64, y: (p.y - w.pos.y) as i64 },
                        press: p,
                        start: w.pos,
                    }) && new.widgets@ == self.widgets@
                }
            },
        }
    }

    /// A primary press at `p` on an idle canvas. The topmost visible
    /// container under `p` that takes new children becomes the selection
    /// (none: the selection clears). Then the topmost visible widget under
    /// `p` decides: its resize handle starts resizing (panels and status
    /// bars), a knob's dial starts turning it, a panel's fold toggle folds or
    /// unfolds it at once, and anything else starts dragging it.
    pub fn press(&mut self, p: Point)
        requires
            old(self).wf(),
            old(self).interaction is Idle,
            p.wf(),
        ensures
            final(self).wf(),
            final(self).links@ == old(self).links@,
            final(self).next_id == old(self).next_id,
            final(self).viewport == old(self).viewport,
            exists|t: Option<usize>|
                old(self).is_topmost(p, false, None, t) && old(self).pressed_on(p, t, final(self)),
    {
        let sel = self.topmost_at(p, true, None);
        let top = self.topmost_at(p, false, None);
        let selected = match sel {
            Some(ci) => Some(self.widgets[ci].id),
            None => None,
        };
        self.selected_panel = selected;
        let ghost before = *self;
        assert(before.widgets@ == old(self).widgets@);
        match top {
            None => {},
            Some(i) => {
                let w = self.widgets[i];
                proof {
                    w.lemma_bounds_wf();
                }
                let r = w.rect();
                let is_panel = match w.kind {
                    WidgetKind::Panel { .. } => true,
                    _ => false,
                };
                let resizable = match w.kind {
                    WidgetKind::Panel { .. } | WidgetKind::StatusBar { .. } => true,
                    _ => false,
                };
                let is_knob = match w.kind {
                    WidgetKind::Knob { .. } => true,
                    _ => false,
                };
                if resizable && is_in_resize_handle(r, p) {
                    self.interaction = Interaction::Resizing { id: w.id, last: p };
                } else if is_knob && is_in_dial(r, p) {
                    if let Some(c) = self.container_of(w.id) {
                        self.selected_panel = Some(c);
                    }
                    self.interaction = Interaction::AdjustingValue { id: w.id, last: p };
                } else if is_panel && is_in_fold_toggle(r, p) {
                    self.selected_panel = Some(w.id);
                    self.click_widget(i, p);
                } else {
                    if let Some(c) = self.container_of(w.id) {
                        self.selected_panel = Some(c);
                    }
                    self.interaction = Interaction::Dragging {
                        id: w.id,
                        grab: Point { x: p.x - w.pos.x, y: p.y - w.pos.y },
                        press: p,
                        start: w.pos,
                    };
                }
            },
        }
        assert(old(self).is_topmost(p, false, None, top));
    }

    /// The center of widget `i`, rounded down to whole pixels.
    pub open spec fn center_of(&self, i: int) -> Point {
        let b = self.widgets@[i].bounds();
        Point { x: (b.center_x2() / 2) as i64, y: (b.center_y2() / 2) as i64 }
    }

    /// Widget `id` stays in its container: it has one, that container takes
    /// new children, and it covers the point `at`.
    pub open spec fn keeps_container(&self, id: u64, at: Point) -> bool {
        match self.container_spec(id) {
            Some(c) => self.accepting_id(c) && self.widget_with(c).bounds().holds(at),
            None => false,
        }
    }

    /// The links after widget `i` was dropped (see `settle_containment`).
    pub open spec fn settled_links(&self, i: int, t: Option<usize>) -> Seq<ContainmentLink> {
        let id = self.widgets@[i].id;
        if self.joins_target(i, t) {
            links_without(self.links@, id).push(
                ContainmentLink { container: self.widgets@[t->0 as int].id, child: id },
            )
        } else if self.keeps_container(id, self.center_of(i)) {
            self.links@
        } else {
            links_without(self.links@, id)
        }
    }

    /// Widget `i`, dropped with drop target `t` under its center, moves into
    /// that target: it is a container other than the one holding the widget,
    /// and the widget is not itself a container up the target's chain.
    pub open spec fn joins_target(&self, i: int, t: Option<usize>) -> bool {
        let id = self.widgets@[i].id;
        t matches Some(ti) && self.container_spec(id) != Some(self.widgets@[ti as int].id)
            && !self.ancestor(id, self.widgets@[ti as int].id, DEPTH_LIMIT as nat)
    }

    /// After widget `i` was dropped: where its center is over another
    /// container that takes new children (the drop target), it moves into
    /// that one; else, where its center has left its container, it leaves it.
    pub fn settle_containment(&mut self, i: usize)
        requires
            old(self).wf(),
            i < old(self).widgets@.len(),
        ensures
            final(self).wf(),
            final(self).widgets@ == old(self).widgets@,
            final(self).next_id == old(self).next_id,
            final(self).viewport == old(self).viewport,
            final(self).interaction == old(self).interaction,
            final(self).selected_panel == old(self).selected_panel,
            settled(*old(self), i as int, final(self).links@),
    {
        let w = self.widgets[i];
        proof {
            w.lemma_bounds_wf();
        }
        let center = w.rect().center();
        let keep = match self.container_of(w.id) {
            Some(c) => match self.find_index(c) {
                Some(ci) => {
                    let cw = self.widgets[ci];
                    proof {
                        cw.lemma_bounds_wf();
                        self.lemma_widget_with(c, ci as int);
                        if self.accepting_id(c) {
                            let j = choose|j: int|
                                0 <= j < self.widgets@.len() && self.widgets@[j].id == c
                                    && self.widgets@[j].kind.accepting();
                            self.lemma_widget_with(c, j);
                        }
                    }
                    cw.kind.is_accepting_widgets() && cw.rect().contains(center)
                },
                None => {
                    proof {
                        let k = choose|k: int|
                            0 <= k < self.links@.len() && self.links@[k].child == w.id;
                        assert(crate::canvas::has_id(self.widgets@, self.links@[k].container));
                    }
                    false
                },
            },
            None => false,
        };
        assert(center == self.center_of(i as int));
        assert(keep == self.keeps_container(w.id, center));
        let cur = self.container_of(w.id);
        let target = self.drop_target(center, Some(w.id));
        assert(old(self).is_drop_target(center, Some(w.id), target));
        let joins = match target {
            Some(ti) => {
                let c = self.widgets[ti].id;
                cur != Some(c) && !self.is_ancestor(w.id, c)
            },
            None => false,
        };
        assert(joins == old(self).joins_target(i as int, target));
        if joins || !keep {
            self.remove_from_all_containers(w.id);
            proof {
                crate::containment::lemma_links_sans(old(self).links@, w.id, false);
                crate::spawn::lemma_links_without_absent(self.links@, w.id);
            }
        }
        if joins {
            let ti = target.unwrap();
            let c = self.widgets[ti].id;
            assert(c == old(self).widgets@[ti as int].id);
            proof {
                crate::containment::lemma_without_keeps_chain(
                    *old(self),
                    *self,
                    w.id,
                    c,
                    DEPTH_LIMIT as nat,
                );
                let j = ti as int;
                assert(old(self).widgets@[j].kind.accepting());
                assert(self.widgets@[j] == old(self).widgets@[j]);
                assert(self.accepting_id(c));
                assert(crate::canvas::has_id(self.widgets@, w.id));
            }
            self.add_child(c, w.id);
        }
        assert(self.links@ == old(self).settled_links(i as int, target));
    }

    /// Ends a drag at release, with the pointer at `pos`. A release within
    /// the click distance of the press puts the widget back where the press
    /// found it and clicks it (containers excepted, which fold from their
    /// title bar); any other release settles the widget's containment.
    pub fn end_drag(&mut self, pos: Option<Point>)
        requires
            old(self).wf(),
            old(self).interaction is Dragging,
            pos matches Some(q) ==> q.wf(),
        ensures
            final(self).wf(),
            final(self).interaction == Interaction::Idle,
            final(self).next_id == old(self).next_id,
            final(self).viewport == old(self).viewport,
            final(self).alignment_guides@.len() == 0,
            final(self).drag_hover_panel is None,
            match old(self).interaction {
                Interaction::Dragging { id, press, start, .. } => match old(self).index_spec(id) {
                    None => final(self).widgets@ == old(self).widgets@ && final(self).links@
                        == old(self).links@,
                    Some(i) => {
                        let w = old(self).widgets@[i];
                        if pos is Some && is_click(press, pos->0) {
                            final(self).links@ == old(self).links@ && final(self).widgets@
                                == old(self).widgets@.update(
                                i,
                                Widget {
                                    id,
                                    pos: start,
                                    kind: if w.kind.is_container() {
                                        w.kind
                                    } else {
                                        clicked(w.kind, Widget { pos: start, ..w }.bounds(), pos->0)
                                    },
                                },
                            )
                        } else {
                            final(self).widgets@ == old(self).widgets@ && settled(
                                *old(self),
                                i,
                                final(self).links@,
                            )
                        }
                    },
                },
                _ => false,
            },
    {
        let (id, press, start) = match self.interaction {
            Interaction::Dragging { id, press, start, .. } => (id, press, start),
            _ => {
                return ;
            },
        };
        match self.find_index(id) {
            None => {
                proof {
                    self.lemma_index_spec_none(id);
                }
            },
            Some(i) => {
                proof {
                    self.lemma_index_spec_some(id, i as int);
                }
                let w = self.widgets[i];
                let click = match pos {
                    Some(q) => is_click_distance(press, q),
                    None => false,
                };
                if click {
                    let q = pos.unwrap();
                    self.set_widget(i, Widget { pos: start, ..w });
                    if !w.kind.is_container_kind() {
                        self.click_widget(i, q);
                    }
                } else {
                    self.settle_containment(i);
                }
            },
        }
        self.interaction = Interaction::Idle;
        self.alignment_guides = Vec::new();
        self.drag_hover_panel = None;
    }

    /// Ends whatever session is active without its release-time effects.
    pub fn end_session(&mut self)
        requires
            old(self).wf(),
        ensures
            final(self).wf(),
            final(self).interaction == Interaction::Idle,
            final(self).widgets@ == old(self).widgets@,
            final(self).links@ == old(self).links@,
            final(self).next_id == old(self).next_id,
            final(self).viewport == old(self).viewport,
            final(self).selected_panel == old(self).selected_panel,
    {
        self.interaction = Interaction::Idle;
        self.alignment_guides = Vec::new();
        self.drag_hover_panel = None;
    }

    /// The palette reports that a drag of a new widget of `kind` started.
    /// Only an idle canvas takes it up.
    pub fn begin_palette_drag(&mut self, kind: WidgetKind)
        requires
            old(self).wf(),
            kind.wf(),
        ensures
            final(self).wf(),
            old(self).interaction is Idle ==> final(self).interaction == (
            Interaction::PaletteDragging { kind, pointer: None }),
            !(old(self).interaction is Idle) ==> final(self).interaction == old(self).interaction,
            final(self).widgets@ == old(self).widgets@,
            final(self).links@ == old(self).links@,
            final(self).next_id == old(self).next_id,
            final(self).viewport == old(self).viewport,
    {
        if let Interaction::Idle = self.interaction {
            self.interaction = Interaction::PaletteDragging { kind, pointer: None };
        }
    }

    /// A new widget of `kind` dropped from the palette at `p`. Over a
    /// container that takes new children (the drop target), it goes into
    /// that container, which becomes the selection; else, over the selected
    /// container, into that one; else onto the canvas at `p`. Returns the
    /// fresh id.
    pub fn drop_from_palette(&mut self, kind: WidgetKind, p: Point) -> (r: u64)
        requires
            old(self).wf(),
            kind.wf(),
            p.wf(),
            old(self).next_id < u64::MAX,
        ensures
            final(self).wf(),
            r == old(self).next_id,
            final(self).viewport == old(self).viewport,
            final(self).interaction == old(self).interaction,
            palette_dropped(*old(self), kind, p, *final(self)),
    {
        let target = self.drop_target(p, None);
        match target {
            Some(ti) => {
                let c = self.widgets[ti].id;
                let r = self.spawn_in_container(c, kind, Some(p));
                self.selected_panel = Some(c);
                r
            },
            None => match self.selected_panel {
                Some(c) => {
                    let inside = match self.find_index(c) {
                        Some(ci) => {
                            proof {
                                self.widgets@[ci as int].lemma_bounds_wf();
                                self.lemma_widget_with(c, ci as int);
                            }
                            self.widgets[ci].rect().contains(p)
                        },
                        None => false,
                    };
                    if inside {
                        self.spawn_in_container(c, kind, Some(p))
                    } else {
                        self.add_widget(kind, p)
                    }
                },
                None => self.add_widget(kind, p),
            },
        }
    }
}

/// The containment links `links` after widget `i` of `old` was dropped:
/// where the drop target under its center (the deepest visible container
/// there that takes new children) is another container than the one holding
/// it, it moves into the target (unless it holds the target itself); else
/// it stays in its container while that container takes new children and
/// covers its center, and leaves it otherwise.
pub open spec fn settled(old: DragDropCanvas, i: int, links: Seq<ContainmentLink>) -> bool {
    let id = old.widgets@[i].id;
    exists|t: Option<usize>|
        old.is_drop_target(old.center_of(i), Some(id), t) && links == old.settled_links(i, t)
}

/// What dropping a new widget of `kind` from the palette at `p` did to `old`,
/// giving `new`: over the drop target (the deepest visible container there
/// that takes new children) the widget goes into it and it becomes the
/// selection; else, over the selected container, into that one; else onto
/// the canvas at `p`.
pub open spec fn palette_dropped(old: DragDropCanvas, kind: WidgetKind, p: Point, new: DragDropCanvas) -> bool {
    exists|t: Option<usize>|
        old.is_drop_target(p, None, t) && match t {
            Some(ti) => new.selected_panel == Some(old.widgets@[ti as int].id) && spawned_in(
                old,
                old.widgets@[ti as int].id,
                kind,
                Some(p),
                new,
            ),
            None => match old.selected_panel {
                Some(c) => if has_id(old.widgets@, c) && old.widget_with(c).bounds().holds(p) {
                    spawned_in(old, c, kind, Some(p), new)
                } else {
                    dropped_on_canvas(old, kind, p, new)
                },
                None => dropped_on_canvas(old, kind, p, new),
            },
        }
}

/// A tick of a palette drag: while the button is not released the pointer is
/// followed and nothing else changes; a release ends the session, dropping
/// the widget where the pointer is inside the viewport, and changing nothing
/// else where it is not.
pub open spec fn palette_facts(old: DragDropCanvas, ev: PointerEvent, new: DragDropCanvas) -> bool {
    let kind = old.interaction->kind;
    &&& !ev.released ==> new.interaction == (Interaction::PaletteDragging {
        kind,
        pointer: if ev.pos is Some {
            ev.pos
        } else {
            old.interaction->pointer
        },
    }) && new.widgets@ == old.widgets@ && new.links@ == old.links@ && new.next_id == old.next_id
    &&& ev.released ==> new.interaction is Idle
    &&& ev.released && ev.pos is Some && old.viewport.holds(ev.pos->0) ==> palette_dropped(
        old,
        kind,
        ev.pos->0,
        new,
    )
    &&& ev.released && !(ev.pos is Some && old.viewport.holds(ev.pos->0)) ==> new.widgets@
        == old.widgets@ && new.links@ == old.links@ && new.next_id == old.next_id
}

/// A release within the click distance of the press that started a drag
/// puts the dragged widget back where the press found it and clicks it
/// (containers excepted), and ends the session.
pub open spec fn click_released(old: DragDropCanvas, ev: PointerEvent, new: DragDropCanvas) -> bool {
    old.interaction is Dragging && ev.released && ev.pos is Some && is_click(
        old.interaction->Dragging_press,
        ev.pos->0,
    ) && old.index_spec(old.interaction->Dragging_id) is Some ==> {
        let i = old.index_spec(old.interaction->Dragging_id)->0;
        let w = old.widgets@[i];
        let start = old.interaction->Dragging_start;
        new.interaction is Idle && (!w.kind.is_container() ==> new.widgets@[i] == (Widget {
            id: w.id,
            pos: start,
            kind: clicked(w.kind, Widget { pos: start, ..w }.bounds(), ev.pos->0),
        }))
    }
}

/// What a tick with the button held (and not released) does to the active
/// session: a drag moves the widget to its drag spot, a resize applies the
/// pointer's travel to the declared size, turning a knob applies the upward
/// travel to its value; a session whose widget is gone ends. None of them
/// changes the containment links. A release, or a
/// button no longer down, ends any session but a palette drag.
pub open spec fn tick_facts(old: DragDropCanvas, ev: PointerEvent, new: DragDropCanvas) -> bool {
    &&& (ev.released || !ev.held) && !(old.interaction is PaletteDragging) ==> new.interaction is Idle
    &&& ev.held && !ev.released && ev.pos is Some && !(old.interaction is PaletteDragging)
        ==> new.links@ == old.links@
    &&& ev.held && !ev.released && ev.pos is Some ==> match old.interaction {
        Interaction::Dragging { id, grab, .. } => match old.index_spec(id) {
            Some(i) => new.interaction == old.interaction && new.widgets@ == old.widgets@.update(
                i,
                Widget { pos: old.drag_spot(i, ev.pos->0, grab), ..old.widgets@[i] },
            ),
            None => new.interaction is Idle && new.widgets@ == old.widgets@,
        },
        Interaction::Resizing { id, last } => match old.index_spec(id) {
            Some(i) => new.interaction == (Interaction::Resizing { id, last: ev.pos->0 })
                && new.widgets@ == old.widgets@.update(
                i,
                Widget {
                    kind: resized(
                        old.widgets@[i].kind,
                        ev.pos->0.x - last.x,
                        ev.pos->0.y - last.y,
                    ),
                    ..old.widgets@[i]
                },
            ),
            None => new.interaction is Idle && new.widgets@ == old.widgets@,
        },
        Interaction::AdjustingValue { id, last } => match old.index_spec(id) {
            Some(i) => new.interaction == (Interaction::AdjustingValue { id, last: ev.pos->0 })
                && new.widgets@ == old.widgets@.update(
                i,
                Widget { kind: adjusted(old.widgets@[i].kind, last.y - ev.pos->0.y), ..old.widgets@[i] },
            ),
            None => new.interaction is Idle && new.widgets@ == old.widgets@,
        },
        _ => true,
    }
}

/// A release that ends a drag farther than the click distance from its
/// press leaves every widget where the drag put it and settles the dragged
/// widget's containment.
pub open spec fn drag_released(old: DragDropCanvas, ev: PointerEvent, new: DragDropCanvas) -> bool {
    old.interaction is Dragging && ev.released && !(ev.pos is Some && is_click(
        old.interaction->Dragging_press,
        ev.pos->0,
    )) && old.index_spec(old.interaction->Dragging_id) is Some ==> {
        let i = old.index_spec(old.interaction->Dragging_id)->0;
        new.interaction is Idle && new.widgets@ == old.widgets@ && settled(old, i, new.links@)
    }
}

/// What one pointer event does, as far as the laws of the canvas need it:
/// the id counter only grows, and by one at most; widgets keep their ids and
/// order, and at most one is added; a session other than idle is the one
/// that was active or was started by a press on an idle canvas; a press on
/// a widget that only drags starts dragging it from where it is; and a
/// release within the click distance of the press puts the dragged widget
/// back where the press found it and clicks it.
pub open spec fn step_facts(old: DragDropCanvas, ev: PointerEvent, new: DragDropCanvas) -> bool {
    &&& new.next_id == old.next_id || new.next_id == old.next_id + 1
    &&& old.widgets@.len() <= new.widgets@.len() <= old.widgets@.len() + 1
    &&& forall|i: int|
        0 <= i < old.widgets@.len() ==> (#[trigger] new.widgets@[i]).id == old.widgets@[i].id
    &&& !(new.interaction is Idle) ==> same_session(old.interaction, new.interaction) || (
    old.interaction is Idle && ev.pressed)
    &&& forall|i: usize|
        old.interaction is Idle && ev.pressed && ev.held && !ev.released && ev.pos is Some
            && #[trigger] old.is_topmost(ev.pos->0, false, None, Some(i)) && !(
        old.widgets@[i as int].kind is Panel || old.widgets@[i as int].kind is StatusBar
            || old.widgets@[i as int].kind is Knob) ==> new.interaction == (Interaction::Dragging {
            id: old.widgets@[i as int].id,
            grab: Point {
                x: (ev.pos->0.x - old.widgets@[i as int].pos.x) as i64,
                y: (ev.pos->0.y - old.widgets@[i as int].pos.y) as i64,
            },
            press: ev.pos->0,
            start: old.widgets@[i as int].pos,
        }) && new.widgets@[i as int].kind == old.widgets@[i as int].kind
    &&& click_released(old, ev, new)
    &&& drag_released(old, ev, new)
    &&& !(old.interaction is Idle) ==> tick_facts(old, ev, new)
    &&& old.interaction is PaletteDragging ==> palette_facts(old, ev, new)
    &&& ev.released ==> new.interaction is Idle
    &&& !(old.interaction is PaletteDragging && ev.released) ==> new.next_id == old.next_id
        && new.widgets@.len() == old.widgets@.len()
    &&& !ev.pressed && !ev.released && !ev.held ==> new.widgets@ == old.widgets@
    &&& ev.secondary_pressed && ev.pos is Some && !(old.interaction is PaletteDragging) ==> exists|
        t: Option<usize>,
    |
        old.is_topmost(ev.pos->0, false, None, t) && (t matches Some(i) ==> new.editing_widget
            == Some(old.widgets@[i as int].id))
}

impl DragDropCanvas {
    /// A tick while a widget from the palette is dragged: the pointer is
    /// followed, and a release inside the viewport drops the widget
    /// (`drop_from_palette`); any release ends the session.
    pub fn palette_step(&mut self, ev: PointerEvent)
        requires
            old(self).wf(),
            old(self).interaction is PaletteDragging,
            ev.wf(),
            old(self).next_id < u64::MAX,
        ensures
            final(self).wf(),
            final(self).viewport == old(self).viewport,
            palette_facts(*old(self), ev, *final(self)),
    {
        if let Interaction::PaletteDragging { kind, pointer } = self.interaction {
            if ev.released {
                if let Some(p) = ev.pos {
                    if self.viewport.contains(p) {
                        self.drop_from_palette(kind, p);
                    }
                }
                self.interaction = Interaction::Idle;
            } else {
                let followed = if ev.pos.is_some() {
                    ev.pos
                } else {
                    pointer
                };
                self.interaction = Interaction::PaletteDragging { kind, pointer: followed };
            }
        }
    }

    /// The active session takes the tick: a release ends it with its
    /// release-time effects, a held button moves it on, and a button no
    /// longer down ends it as it stands.
    pub fn continue_session(&mut self, ev: PointerEvent)
        requires
            old(self).wf(),
            !(old(self).interaction is PaletteDragging),
            ev.wf(),
        ensures
            final(self).wf(),
            final(self).viewport == old(self).viewport,
            final(self).next_id == old(self).next_id,
            final(self).widgets@.len() == old(self).widgets@.len(),
            forall|i: int|
                0 <= i < old(self).widgets@.len() ==> (#[trigger] final(self).widgets@[i]).id
                    == old(self).widgets@[i].id,
            final(self).interaction is Idle || same_session(
                old(self).interaction,
                final(self).interaction,
            ),
            old(self).interaction is Dragging && ev.held && !ev.released && ev.pos is Some && old(
                self).index_spec(old(self).interaction->Dragging_id) is Some ==> final(
                self).interaction == old(self).interaction && forall|i: int|
                0 <= i < old(self).widgets@.len() ==> (#[trigger] final(self).widgets@[i]).kind
                    == old(self).widgets@[i].kind,
            click_released(*old(self), ev, *final(self)),
            tick_facts(*old(self), ev, *final(self)),
            drag_released(*old(self), ev, *final(self)),
            ev.released ==> final(self).interaction is Idle,
            !ev.released && !ev.held ==> final(self).widgets@ == old(self).widgets@,
    {
        match self.interaction {
            Interaction::Dragging { .. } => {
                if ev.released {
                    self.end_drag(ev.pos);
                } else if ev.held {
                    if let Some(p) = ev.pos {
                        self.drag_tick(p);
                    }
                } else {
                    self.end_session();
                }
            },
            Interaction::Resizing { .. } => {
                if ev.held && !ev.released {
                    if let Some(p) = ev.pos {
                        self.resize_tick(p);
                    }
                } else {
                    self.end_session();
                }
            },
            Interaction::AdjustingValue { .. } => {
                if ev.held && !ev.released {
                    if let Some(p) = ev.pos {
                        self.adjust_tick(p);
                    }
                } else {
                    self.end_session();
                }
            },
            _ => {},
        }
    }

    /// The one entry point for pointer input, once per tick.
    ///
    /// While a widget from the palette is dragged, `palette_step` takes the
    /// tick. Otherwise a primary press on an idle canvas may start a session
    /// (`press`), the active session takes the tick (`continue_session`), and
    /// a secondary press marks the topmost widget under the pointer for
    /// editing, whatever the session.
    pub fn handle_pointer_event(&mut self, ev: PointerEvent)
        requires
            old(self).wf(),
            ev.wf(),
            old(self).next_id < u64::MAX,
        ensures
            final(self).wf(),
            final(self).viewport == old(self).viewport,
            step_facts(*old(self), ev, *final(self)),
    {
        if let Interaction::PaletteDragging { .. } = self.interaction {
            self.palette_step(ev);
            return ;
        }
        let edit_target = match ev.pos {
            Some(p) => {
                if ev.secondary_pressed {
                    match self.topmost_at(p, false, None) {
                        Some(i) => Some(self.widgets[i].id),
                        None => None,
                    }
                } else {
                    None
                }
            },
            None => None,
        };
        if ev.pressed {
            if let Interaction::Idle = self.interaction {
                if let Some(p) = ev.pos {
                    self.press(p);
                }
            }
        }
        let ghost s1 = *self;
        self.continue_session(ev);
        let ghost s2 = *self;
        if let Some(e) = edit_target {
            self.editing_widget = Some(e);
        }
        proof {
            assert forall|i: usize|
                old(self).interaction is Idle && ev.pressed && ev.held && !ev.released
                    && ev.pos is Some && #[trigger] old(self).is_topmost(
                    ev.pos->0,
                    false,
                    None,
                    Some(i),
                ) && !(old(self).widgets@[i as int].kind is Panel
                    || old(self).widgets@[i as int].kind is StatusBar
                    || old(self).widgets@[i as int].kind is Knob) implies self.interaction == (
            Interaction::Dragging {
                id: old(self).widgets@[i as int].id,
                grab: Point {
                    x: (ev.pos->0.x - old(self).widgets@[i as int].pos.x) as i64,
                    y: (ev.pos->0.y - old(self).widgets@[i as int].pos.y) as i64,
                },
                press: ev.pos->0,
                start: old(self).widgets@[i as int].pos,
            }) && self.widgets@[i as int].kind == old(self).widgets@[i as int].kind by {
                let t = choose|t: Option<usize>|
                    old(self).is_topmost(ev.pos->0, false, None, t) && old(self).pressed_on(
                        ev.pos->0,
                        t,
                        &s1,
                    );
                old(self).lemma_topmost_unique(ev.pos->0, false, None, t, Some(i));
                s1.lemma_index_spec_some(old(self).widgets@[i as int].id, i as int);
            }
            assert(self.next_id == old(self).next_id);
            assert(old(self).widgets@.len() <= self.widgets@.len() <= old(self).widgets@.len() + 1);
            assert forall|i: int|
                0 <= i < old(self).widgets@.len() implies (#[trigger] self.widgets@[i]).id
                    == old(self).widgets@[i].id by {
                assert(s1.widgets@[i].id == old(self).widgets@[i].id);
            }
            if old(self).interaction is Dragging {
                assert(s1 == *old(self));
                assert(click_released(s1, ev, s2));
                assert(drag_released(s1, ev, s2));
            }
            if !(old(self).interaction is Idle) {
                assert(s1 == *old(self));
                assert(tick_facts(s1, ev, s2));
            }
        }
    }
}

} // verus!
