use vstd::prelude::*;
use crate::canvas::{children_in, has_id, ContainmentLink, DragDropCanvas, DEPTH_LIMIT};
use crate::geometry::{Point, Rect};
use crate::interaction::{is_click, same_session, PointerEvent};
use crate::geometry::COORD_LIMIT;
use crate::placement::{
    canvas_area_of, clear_of, content_area_of, first_fit, free_at, seed_in, seeded_fit,
};
use crate::canvas::Interaction;
use crate::session::{click_released, step_facts, tick_facts};
use crate::widget::{clicked, Widget, WidgetKind, ICON_SIZE, TITLE_BAR_HEIGHT};

verus! {

/// While the button stays down after a press that started dragging widget
/// `i`, the session stays the same and the widget keeps its id and kind:
/// `cs[k + 1]` follows `cs[k]` by `evs[k]`, and the ticks from 1 to `n` are
/// held, not released, with the pointer known.
proof fn lemma_drag_session_holds(
    cs: Seq<DragDropCanvas>,
    evs: Seq<PointerEvent>,
    i: usize,
    s: Interaction,
    n: int,
)
    requires
        1 <= n < cs.len(),
        evs.len() + 1 == cs.len(),
        forall|k: int| 0 <= k < cs.len() ==> (#[trigger] cs[k]).wf(),
        forall|k: int| 0 <= k < evs.len() ==> step_facts(cs[k], #[trigger] evs[k], cs[k + 1]),
        forall|k: int|
            1 <= k < n ==> (#[trigger] evs[k]).held && !evs[k].released && evs[k].pos is Some,
        s is Dragging,
        s->Dragging_id == cs[0].widgets@[i as int].id,
        i < cs[0].widgets@.len(),
        cs[1].interaction == s,
        cs[1].widgets@[i as int].kind == cs[0].widgets@[i as int].kind,
    ensures
        cs[n].interaction == s,
        i < cs[n].widgets@.len(),
        cs[n].widgets@[i as int].id == cs[0].widgets@[i as int].id,
        cs[n].widgets@[i as int].kind == cs[0].widgets@[i as int].kind,
    decreases n,
{
    assert(step_facts(cs[0], evs[0], cs[1]));
    if n > 1 {
        lemma_drag_session_holds(cs, evs, i, s, n - 1);
        let c = cs[n - 1];
        assert(step_facts(c, evs[n - 1], cs[n]));
        c.lemma_index_spec_some(s->Dragging_id, i as int);
        assert(tick_facts(c, evs[n - 1], cs[n]));
    }
}

/// A press on a toggle switch, any number of ticks with the button held,
/// and a release within the click distance of the press flip its `on`
/// field once and leave it where the press found it: `cs[k + 1]` follows
/// `cs[k]` by `evs[k]`; `evs[0]` is the press, the last event the release.
pub proof fn lemma_click_toggles_switch(
    cs: Seq<DragDropCanvas>,
    evs: Seq<PointerEvent>,
    i: usize,
)
    requires
        evs.len() >= 2,
        evs.len() + 1 == cs.len(),
        forall|k: int| 0 <= k < cs.len() ==> (#[trigger] cs[k]).wf(),
        forall|k: int| 0 <= k < evs.len() ==> step_facts(cs[k], #[trigger] evs[k], cs[k + 1]),
        cs[0].interaction is Idle,
        evs[0].pressed && evs[0].held && !evs[0].released && evs[0].pos is Some,
        cs[0].is_topmost(evs[0].pos->0, false, None, Some(i)),
        cs[0].widgets@[i as int].kind is ToggleSwitch,
        forall|k: int|
            1 <= k < evs.len() - 1 ==> (#[trigger] evs[k]).held && !evs[k].released
                && evs[k].pos is Some,
        evs.last().released && evs.last().pos is Some,
        is_click(evs[0].pos->0, evs.last().pos->0),
    ensures
        cs.last().interaction is Idle,
        cs.last().widgets@[i as int] == (Widget {
            kind: WidgetKind::ToggleSwitch { on: !cs[0].widgets@[i as int].kind->on },
            ..cs[0].widgets@[i as int]
        }),
{
    let c0 = cs[0];
    let w = c0.widgets@[i as int];
    let n = evs.len() - 1;
    assert(step_facts(cs[0], evs[0], cs[1]));
    let s = cs[1].interaction;
    lemma_drag_session_holds(cs, evs, i, s, n);
    let c = cs[n];
    c.lemma_index_spec_some(w.id, i as int);
    assert(step_facts(c, evs[n], cs[n + 1]));
    assert(evs.last() == evs[n]);
    assert(click_released(c, evs[n], cs[n + 1]));
}

/// One session at a time: the interaction state holds a single session, and
/// after any pointer event a session other than idle is either the one that
/// was already active or one that a press started on an idle canvas; a
/// release always leaves the canvas idle.
pub proof fn lemma_single_session(old: DragDropCanvas, ev: PointerEvent, new: DragDropCanvas)
    requires
        step_facts(old, ev, new),
    ensures
        !(new.interaction is Idle) && !same_session(old.interaction, new.interaction) ==> (
        old.interaction is Idle && ev.pressed),
        ev.released ==> new.interaction is Idle,
{
}

/// Folding a panel by a click shrinks it to its title bar (or to the icon
/// when it folds to an icon), unfolding gives back its declared size, and
/// two clicks leave it as it was.
pub proof fn lemma_fold_size(k: WidgetKind, r: Rect, p: Point)
    requires
        k is Panel,
    ensures
        clicked(k, r, p) is Panel,
        clicked(k, r, p)->collapsed == !k->collapsed,
        clicked(k, r, p)->collapsed ==> clicked(k, r, p).size_of() == (if k->collapse_to_icon {
            (ICON_SIZE as int, ICON_SIZE as int)
        } else {
            (k->Panel_width as int, TITLE_BAR_HEIGHT as int)
        }),
        !clicked(k, r, p)->collapsed ==> clicked(k, r, p).size_of() == (
            k->Panel_width as int,
            k->Panel_height as int,
        ),
        clicked(clicked(k, r, p), r, p) == k,
{
}

/// Folding or unfolding panel `i` by a click (canvas `a` to canvas `b`, as
/// `click_widget` does) leaves every container's contained ids as they were.
pub proof fn lemma_fold_keeps_children(a: DragDropCanvas, b: DragDropCanvas, i: int, p: Point, c: u64)
    requires
        0 <= i < a.widgets@.len(),
        a.widgets@[i].kind is Panel,
        b.widgets@ == a.widgets@.update(
            i,
            Widget { kind: clicked(a.widgets@[i].kind, a.widgets@[i].bounds(), p), ..a.widgets@[i] },
        ),
        b.links@ == a.links@,
    ensures
        children_in(b.links@, c) == children_in(a.links@, c),
        b.widgets@[i].kind->collapsed == !a.widgets@[i].kind->collapsed,
{
}

/// Ids are never given out twice: an id present on a canvas stays below
/// its id counter, so once the counter has not gone back, the next id it
/// gives out differs from it, whether or not that widget was deleted since.
pub proof fn lemma_fresh_id(a: DragDropCanvas, b: DragDropCanvas, d: u64)
    requires
        a.wf(),
        has_id(a.widgets@, d),
        a.next_id <= b.next_id,
    ensures
        d < b.next_id,
        d != b.next_id,
{
    let i = choose|i: int| 0 <= i < a.widgets@.len() && a.widgets@[i].id == d;
    assert(a.widgets@[i].id < a.next_id);
}

impl DragDropCanvas {
    /// Widgets `i` and `j` are related by containment: one is a container up
    /// the chain of the other.
    pub open spec fn related(&self, i: int, j: int) -> bool {
        self.ancestor(self.widgets@[i].id, self.widgets@[j].id, DEPTH_LIMIT as nat)
            || self.ancestor(self.widgets@[j].id, self.widgets@[i].id, DEPTH_LIMIT as nat)
    }

    /// Every two visible widgets not related by containment stay apart
    /// once both are grown by the seam padding.
    pub open spec fn apart(&self) -> bool {
        forall|i: int, j: int|
            0 <= i < self.widgets@.len() && 0 <= j < self.widgets@.len() && i != j
                && self.visible(i) && self.visible(j) && !self.related(i, j) ==> !self.widgets@[
                i].bounds().near(self.widgets@[j].bounds())
    }

    proof fn lemma_obstacle_listed(&self, within: Option<u64>, n: nat, i: int)
        requires
            0 <= i < n <= self.widgets@.len(),
            self.obstacle(i, within),
        ensures
            exists|k: int|
                0 <= k < self.obstacles_upto(within, n).len() && #[trigger] self.obstacles_upto(
                    within,
                    n,
                )[k] == self.widgets@[i].bounds(),
        decreases n,
    {
        let s = self.obstacles_upto(within, n);
        if i == n - 1 {
            assert(s[s.len() - 1] == self.widgets@[i].bounds());
        } else {
            self.lemma_obstacle_listed(within, (n - 1) as nat, i);
            let prev = self.obstacles_upto(within, (n - 1) as nat);
            let k = choose|k: int| 0 <= k < prev.len() && #[trigger] prev[k] == self.widgets@[i].bounds();
            assert(s[k] == self.widgets@[i].bounds());
        }
    }
}

/// Same links, same chains; folded containers agree on every id the links
/// name as a container.
proof fn lemma_frame(a: DragDropCanvas, b: DragDropCanvas, x: u64, fuel: nat)
    requires
        a.wf(),
        b.links@ == a.links@,
        forall|c: u64| has_id(a.widgets@, c) ==> (b.folded_id(c) == a.folded_id(c)),
    ensures
        b.container_spec(x) == a.container_spec(x),
        b.hidden(x, fuel) == a.hidden(x, fuel),
        forall|y: u64| b.ancestor(y, x, fuel) == a.ancestor(y, x, fuel),
    decreases fuel,
{
    if let Some(c) = a.container_spec(x) {
        let k = choose|k: int| 0 <= k < a.links@.len() && a.links@[k].child == x;
        assert(has_id(a.widgets@, a.links@[k].container));
        if fuel > 0 {
            lemma_frame(a, b, c, (fuel - 1) as nat);
            assert forall|y: u64| b.ancestor(y, x, fuel) == a.ancestor(y, x, fuel) by {
                assert(b.ancestor(y, c, (fuel - 1) as nat) == a.ancestor(y, c, (fuel - 1) as nat));
            }
        }
    }
}

/// Placing a widget on the canvas by the grid scan, where a free slot was
/// found, keeps every two visible widgets that are not related by
/// containment apart (grown by the seam padding): canvas `a` before, `b` after.
pub proof fn lemma_canvas_spawn_keeps_apart(a: DragDropCanvas, b: DragDropCanvas, kind: WidgetKind, pos: Point)
    requires
        a.wf(),
        a.apart(),
        kind.wf(),
        pos.wf(),
        b.widgets@ == a.widgets@.push(Widget { id: a.next_id, kind, pos }),
        b.links@ == a.links@,
        first_fit(
            canvas_area_of(a.viewport),
            kind.size_of().0,
            kind.size_of().1,
            a.obstacle_rects(None),
            pos,
        ),
    ensures
        b.apart(),
{
    lemma_free_spawn_keeps_apart(a, b, kind, pos);
}

/// Dropping a widget on the canvas at a point, where the drop point (moved
/// into the viewport) or a grid slot was free, keeps every two visible
/// widgets that are not related by containment apart (grown by the seam padding).
pub proof fn lemma_canvas_drop_keeps_apart(
    a: DragDropCanvas,
    b: DragDropCanvas,
    kind: WidgetKind,
    at: Point,
    pos: Point,
)
    requires
        a.wf(),
        a.apart(),
        kind.wf(),
        pos.wf(),
        b.widgets@ == a.widgets@.push(Widget { id: a.next_id, kind, pos }),
        b.links@ == a.links@,
        seeded_fit(
            canvas_area_of(a.viewport),
            kind.size_of().0,
            kind.size_of().1,
            a.obstacle_rects(None),
            at,
            Some(pos),
        ),
    ensures
        b.apart(),
{
    lemma_free_spawn_keeps_apart(a, b, kind, pos);
}

/// A widget added on the canvas where it keeps clear of every visible
/// widget keeps every two visible widgets that are not related by
/// containment apart (grown by the seam padding).
pub proof fn lemma_free_spawn_keeps_apart(a: DragDropCanvas, b: DragDropCanvas, kind: WidgetKind, pos: Point)
    requires
        a.wf(),
        a.apart(),
        kind.wf(),
        pos.wf(),
        b.widgets@ == a.widgets@.push(Widget { id: a.next_id, kind, pos }),
        b.links@ == a.links@,
        free_at(pos.x as int, pos.y as int, kind.size_of().0, kind.size_of().1, a.obstacle_rects(None)),
    ensures
        b.apart(),
{
    let n = a.widgets@.len() as int;
    let nw = Widget { id: a.next_id, kind, pos };
    assert forall|c: u64| has_id(a.widgets@, c) implies (b.folded_id(c) == a.folded_id(c)) by {
        let m = choose|m: int| 0 <= m < a.widgets@.len() && a.widgets@[m].id == c;
        assert(a.widgets@[m].id < a.next_id);
        if b.folded_id(c) {
            let j = choose|j: int|
                0 <= j < b.widgets@.len() && b.widgets@[j].id == c && b.widgets@[j].kind.folded();
            if j < n {
                assert(a.widgets@[j] == b.widgets@[j]);
            }
        }
        if a.folded_id(c) {
            let j = choose|j: int|
                0 <= j < a.widgets@.len() && a.widgets@[j].id == c && a.widgets@[j].kind.folded();
            assert(b.widgets@[j] == a.widgets@[j]);
        }
    }
    assert forall|x: u64| #[trigger] b.hidden(x, DEPTH_LIMIT as nat) == a.hidden(x, DEPTH_LIMIT as nat)
        && b.container_spec(x) == a.container_spec(x) && (forall|y: u64|
        b.ancestor(y, x, DEPTH_LIMIT as nat) == a.ancestor(y, x, DEPTH_LIMIT as nat)) by {
        lemma_frame(a, b, x, DEPTH_LIMIT as nat);
    }
    // The new widget is held by no container and holds none.
    assert forall|k: int| 0 <= k < a.links@.len() implies (#[trigger] a.links@[k]).container
        != a.next_id && a.links@[k].child != a.next_id by {
        let m = choose|m: int| 0 <= m < a.widgets@.len() && a.widgets@[m].id == a.links@[k].container;
        assert(a.widgets@[m].id < a.next_id);
        let m2 = choose|m2: int| 0 <= m2 < a.widgets@.len() && a.widgets@[m2].id == a.links@[k].child;
        assert(a.widgets@[m2].id < a.next_id);
    }
    assert(b.container_spec(a.next_id) is None);
    assert forall|x: u64| !#[trigger] b.ancestor(a.next_id, x, DEPTH_LIMIT as nat) by {
        a.lemma_not_ancestor(a.next_id, x, DEPTH_LIMIT as nat);
        lemma_frame(a, b, x, DEPTH_LIMIT as nat);
    }
    let w = kind.size_of().0;
    let h = kind.size_of().1;
    let obs = a.obstacle_rects(None);
    assert forall|i: int, j: int|
        0 <= i < b.widgets@.len() && 0 <= j < b.widgets@.len() && i != j && b.visible(i)
            && b.visible(j) && !b.related(i, j) implies !b.widgets@[i].bounds().near(
        b.widgets@[j].bounds(),
    ) by {
        if i < n && j < n {
            assert(b.widgets@[i] == a.widgets@[i] && b.widgets@[j] == a.widgets@[j]);
            assert(b.hidden(a.widgets@[i].id, DEPTH_LIMIT as nat) == a.hidden(a.widgets@[i].id, DEPTH_LIMIT as nat));
            assert(b.hidden(a.widgets@[j].id, DEPTH_LIMIT as nat) == a.hidden(a.widgets@[j].id, DEPTH_LIMIT as nat));
            assert(a.visible(i) && a.visible(j));
            assert(b.related(i, j) == a.related(i, j));
        } else {
            let o = if i < n {
                i
            } else {
                j
            };
            assert(o < n);
            assert(b.widgets@[o] == a.widgets@[o]);
            assert(b.widgets@[n] == nw);
            assert(b.hidden(a.widgets@[o].id, DEPTH_LIMIT as nat) == a.hidden(a.widgets@[o].id, DEPTH_LIMIT as nat));
            assert(a.visible(o));
            assert(a.obstacle(o, None));
            a.lemma_obstacle_listed(None, a.widgets@.len() as nat, o);
            let k = choose|k: int| 0 <= k < obs.len() && #[trigger] obs[k] == a.widgets@[o].bounds();
            assert(clear_of(pos.x as int, pos.y as int, w, h, obs[k]));
            a.widgets@[o].lemma_bounds_wf();
            nw.lemma_bounds_wf();
            assert(!nw.bounds().near(a.widgets@[o].bounds()));
            assert(!a.widgets@[o].bounds().near(nw.bounds()));
        }
    }
}

/// A widget moved into an area it fits lies inside that area.
pub proof fn lemma_seed_in_within(area: Rect, w: int, h: int, s: Point)
    requires
        0 <= w <= area.w,
        0 <= h <= area.h,
    ensures
        (Rect {
            x: seed_in(area, w, h, s).x,
            y: seed_in(area, w, h, s).y,
            w: w as i64,
            h: h as i64,
        }).within(area),
{
}

/// While a widget held by a container that takes new children is dragged,
/// it stays inside that container's content area, provided it fits there
/// and the area lies within the coordinate range.
pub proof fn lemma_drag_stays_in_container(c: DragDropCanvas, i: int, p: Point, grab: Point, k: u64)
    requires
        c.wf(),
        0 <= i < c.widgets@.len(),
        c.container_spec(c.widgets@[i].id) == Some(k),
        c.accepting_id(k),
        c.widgets@[i].kind.size_of().0 <= content_area_of(c.widget_with(k).bounds()).w,
        c.widgets@[i].kind.size_of().1 <= content_area_of(c.widget_with(k).bounds()).h,
        content_area_of(c.widget_with(k).bounds()).right() <= COORD_LIMIT,
        content_area_of(c.widget_with(k).bounds()).bottom() <= COORD_LIMIT,
        -COORD_LIMIT <= content_area_of(c.widget_with(k).bounds()).x,
        -COORD_LIMIT <= content_area_of(c.widget_with(k).bounds()).y,
    ensures
        (Widget { pos: c.drag_spot(i, p, grab), ..c.widgets@[i] }).bounds().within(
            content_area_of(c.widget_with(k).bounds()),
        ),
{
    c.widgets@[i].lemma_bounds_wf();
}

/// Appending a link that makes a fresh id `n` a child of `c` leaves the
/// chain of every other id as it was.
proof fn lemma_frame_new_child(
    a: DragDropCanvas,
    b: DragDropCanvas,
    c: u64,
    n: u64,
    x: u64,
    fuel: nat,
)
    requires
        a.wf(),
        !has_id(a.widgets@, n),
        b.links@ == a.links@.push(ContainmentLink { container: c, child: n }),
        forall|d: u64| has_id(a.widgets@, d) ==> (b.folded_id(d) == a.folded_id(d)),
        x != n,
    ensures
        b.container_spec(x) == a.container_spec(x),
        b.hidden(x, fuel) == a.hidden(x, fuel),
        forall|y: u64| b.ancestor(y, x, fuel) == a.ancestor(y, x, fuel),
    decreases fuel,
{
    let last = a.links@.len() as int;
    if exists|k: int| 0 <= k < a.links@.len() && a.links@[k].child == x {
        let k = choose|k: int| 0 <= k < a.links@.len() && a.links@[k].child == x;
        assert(b.links@[k] == a.links@[k]);
        let kb = choose|kb: int| 0 <= kb < b.links@.len() && b.links@[kb].child == x;
        assert(kb != last);
        assert(b.links@[kb] == a.links@[kb]);
        if kb != k {
            assert(a.links@[kb].child != a.links@[k].child);
        }
        assert(has_id(a.widgets@, a.links@[k].container));
        let cc = a.links@[k].container;
        assert(cc != n);
        if fuel > 0 {
            lemma_frame_new_child(a, b, c, n, cc, (fuel - 1) as nat);
            assert forall|y: u64| b.ancestor(y, x, fuel) == a.ancestor(y, x, fuel) by {
                assert(b.ancestor(y, cc, (fuel - 1) as nat) == a.ancestor(y, cc, (fuel - 1) as nat));
            }
        }
    } else {
        if exists|kb: int| 0 <= kb < b.links@.len() && b.links@[kb].child == x {
            let kb = choose|kb: int| 0 <= kb < b.links@.len() && b.links@[kb].child == x;
            assert(kb != last);
            assert(b.links@[kb] == a.links@[kb]);
        }
    }
}

/// Placing a new child inside container `c` where it keeps clear of every
/// visible widget that is neither `c` nor one of its enclosing containers
/// keeps every two visible widgets that are not related by containment a
/// apart (grown by the seam padding): canvas `a` before, `b` after.
pub proof fn lemma_container_spawn_keeps_apart(
    a: DragDropCanvas,
    b: DragDropCanvas,
    c: u64,
    kind: WidgetKind,
    pos: Point,
)
    requires
        a.wf(),
        a.apart(),
        kind.wf(),
        pos.wf(),
        has_id(a.widgets@, c),
        b.widgets@ == a.widgets@.push(Widget { id: a.next_id, kind, pos }),
        b.links@ == a.links@.push(ContainmentLink { container: c, child: a.next_id }),
        free_at(pos.x as int, pos.y as int, kind.size_of().0, kind.size_of().1, a.obstacle_rects(Some(c))),
    ensures
        b.apart(),
{
    let n = a.widgets@.len() as int;
    let nid = a.next_id;
    let nw = Widget { id: nid, kind, pos };
    let last = a.links@.len() as int;
    if has_id(a.widgets@, nid) {
        let m = choose|m: int| 0 <= m < a.widgets@.len() && a.widgets@[m].id == nid;
        assert(a.widgets@[m].id < a.next_id);
    }
    assert forall|d: u64| has_id(a.widgets@, d) implies (b.folded_id(d) == a.folded_id(d)) by {
        let m = choose|m: int| 0 <= m < a.widgets@.len() && a.widgets@[m].id == d;
        assert(a.widgets@[m].id < a.next_id);
        if b.folded_id(d) {
            let j = choose|j: int|
                0 <= j < b.widgets@.len() && b.widgets@[j].id == d && b.widgets@[j].kind.folded();
            if j < n {
                assert(a.widgets@[j] == b.widgets@[j]);
            }
        }
        if a.folded_id(d) {
            let j = choose|j: int|
                0 <= j < a.widgets@.len() && a.widgets@[j].id == d && a.widgets@[j].kind.folded();
            assert(b.widgets@[j] == a.widgets@[j]);
        }
    }
    // No link of `b` names the new widget as a container.
    assert forall|k: int| 0 <= k < b.links@.len() implies (#[trigger] b.links@[k]).container
        != nid by {
        if k < last {
            assert(b.links@[k] == a.links@[k]);
            let m = choose|m: int|
                0 <= m < a.widgets@.len() && a.widgets@[m].id == a.links@[k].container;
            assert(a.widgets@[m].id < a.next_id);
        } else {
            let m = choose|m: int| 0 <= m < a.widgets@.len() && a.widgets@[m].id == c;
            assert(a.widgets@[m].id < a.next_id);
        }
    }
    // The new widget's container is `c`.
    assert(b.links@[last].child == nid);
    let kb = choose|kb: int| 0 <= kb < b.links@.len() && b.links@[kb].child == nid;
    if kb != last {
        assert(b.links@[kb] == a.links@[kb]);
        let m = choose|m: int| 0 <= m < a.widgets@.len() && a.widgets@[m].id == a.links@[kb].child;
        assert(a.widgets@[m].id < a.next_id);
    }
    assert(b.container_spec(nid) == Some(c));
    let w = kind.size_of().0;
    let h = kind.size_of().1;
    let obs = a.obstacle_rects(Some(c));
    assert forall|i: int, j: int|
        0 <= i < b.widgets@.len() && 0 <= j < b.widgets@.len() && i != j && b.visible(i)
            && b.visible(j) && !b.related(i, j) implies !b.widgets@[i].bounds().near(
        b.widgets@[j].bounds(),
    ) by {
        if i < n && j < n {
            assert(b.widgets@[i] == a.widgets@[i] && b.widgets@[j] == a.widgets@[j]);
            assert(a.widgets@[i].id != nid);
            assert(a.widgets@[j].id != nid);
            lemma_frame_new_child(a, b, c, nid, a.widgets@[i].id, DEPTH_LIMIT as nat);
            lemma_frame_new_child(a, b, c, nid, a.widgets@[j].id, DEPTH_LIMIT as nat);
            assert(a.visible(i) && a.visible(j));
            assert(b.related(i, j) == a.related(i, j));
        } else {
            let o = if i < n {
                i
            } else {
                j
            };
            assert(o < n);
            assert(b.widgets@[o] == a.widgets@[o]);
            assert(b.widgets@[n] == nw);
            let oid = a.widgets@[o].id;
            assert(oid != nid);
            lemma_frame_new_child(a, b, c, nid, oid, DEPTH_LIMIT as nat);
            assert(a.visible(o));
            assert(!b.ancestor(oid, nid, DEPTH_LIMIT as nat));
            assert(oid != c);
            if c != nid {
                lemma_frame_new_child(a, b, c, nid, c, (DEPTH_LIMIT - 1) as nat);
            }
            assert(!a.ancestor(oid, c, (DEPTH_LIMIT - 1) as nat));
            assert(a.obstacle(o, Some(c)));
            a.lemma_obstacle_listed(Some(c), a.widgets@.len() as nat, o);
            let k = choose|k: int| 0 <= k < obs.len() && #[trigger] obs[k] == a.widgets@[o].bounds();
            assert(clear_of(pos.x as int, pos.y as int, w, h, obs[k]));
            a.widgets@[o].lemma_bounds_wf();
            nw.lemma_bounds_wf();
            assert(!nw.bounds().near(a.widgets@[o].bounds()));
            assert(!a.widgets@[o].bounds().near(nw.bounds()));
        }
    }
}

} // verus!
