use vstd::prelude::*;
use crate::canvas::{has_id, viewport_ok, DragDropCanvas, DEPTH_LIMIT};
use crate::geometry::{clamp, COORD_LIMIT};
use crate::session::in_range;
use crate::geometry::{Point, Rect};
use crate::placement::{canvas_area_of, corner_of, first_fit, first_free_slot, no_fit, CANVAS_MARGIN};
use crate::widget::Widget;

verus! {

/// Where the grid scan puts a `w` by `h` widget that must keep clear of
/// `obs`: the first free slot, or the corner when none is free.
pub open spec fn placed_by_scan(area: Rect, w: int, h: int, obs: Seq<Rect>, p: Point) -> bool {
    first_fit(area, w, h, obs, p) || (no_fit(area, w, h, obs) && p == corner_of(area, w))
}

/// `order` lists the widgets of `c` that no container holds, each once, in
/// the row-major order of their positions in `c`.
pub open spec fn row_major_order(c: DragDropCanvas, order: Seq<int>) -> bool {
    &&& forall|k: int|
        0 <= k < order.len() ==> 0 <= #[trigger] order[k] < c.widgets@.len() && c.canvas_level(
            order[k],
        )
    &&& forall|k: int, l: int| 0 <= k < l < order.len() ==> order[k] != order[l]
    &&& forall|i: int| 0 <= i < c.widgets@.len() && c.canvas_level(i) ==> order.contains(i)
    &&& forall|k: int, l: int|
        0 <= k < l < order.len() ==> !row_major_before(
            c.widgets@[order[l]].pos,
            order[l],
            c.widgets@[order[k]].pos,
            order[k],
        )
}

/// Row-major order of positions: rows from the top, each row from the right;
/// the index breaks ties.
pub open spec fn row_major_before(a: Point, i: int, b: Point, j: int) -> bool {
    a.y < b.y || (a.y == b.y && (a.x > b.x || (a.x == b.x && i < j)))
}

/// How many entries of `s` are set.
pub open spec fn pending(s: Seq<bool>) -> nat
    decreases s.len(),
{
    if s.len() == 0 {
        0
    } else {
        pending(s.drop_last()) + if s.last() {
            1nat
        } else {
            0nat
        }
    }
}

proof fn lemma_pending_clear(s: Seq<bool>, b: int)
    requires
        0 <= b < s.len(),
        s[b],
    ensures
        pending(s.update(b, false)) + 1 == pending(s),
    decreases s.len(),
{
    let t = s.update(b, false);
    if b == s.len() - 1 {
        assert(t.drop_last() == s.drop_last());
    } else {
        assert(t.drop_last() == s.drop_last().update(b, false));
        lemma_pending_clear(s.drop_last(), b);
    }
}

/// After a viewport resize from `old` to `new`, widget `m` (held by a
/// container) moved by the displacement of the top-level container up its
/// chain, held to the coordinate range; past the depth limit it stays.
pub open spec fn follows_root(old: DragDropCanvas, m: int, new: DragDropCanvas) -> bool {
    match old.root_of(old.widgets@[m].id, DEPTH_LIMIT as nat) {
        Some(rt) => exists|ri: int|
            0 <= ri < old.widgets@.len() && old.widgets@[ri].id == rt && new.widgets@[m].pos == (
            Point {
                x: in_range(old.widgets@[m].pos.x + new.widgets@[ri].pos.x - old.widgets@[ri].pos.x)
                    as i64,
                y: in_range(old.widgets@[m].pos.y + new.widgets@[ri].pos.y - old.widgets@[ri].pos.y)
                    as i64,
            }),
        None => new.widgets@[m].pos == old.widgets@[m].pos,
    }
}

proof fn lemma_root_frame(a: DragDropCanvas, b: DragDropCanvas, x: u64, fuel: nat)
    requires
        a.links@ == b.links@,
    ensures
        a.root_of(x, fuel) == b.root_of(x, fuel),
        a.root_of(x, fuel) matches Some(rt) ==> a.container_spec(rt) is None,
    decreases fuel,
{
    assert(a.container_spec(x) == b.container_spec(x));
    if let Some(c) = a.container_spec(x) {
        if fuel > 0 {
            lemma_root_frame(a, b, c, (fuel - 1) as nat);
        }
    }
}

impl DragDropCanvas {
    /// The top-level container up the chain of `id` (`id` itself when no
    /// container holds it); none where the chain runs past `fuel` steps.
    pub open spec fn root_of(&self, id: u64, fuel: nat) -> Option<u64>
        decreases fuel,
    {
        match self.container_spec(id) {
            None => Some(id),
            Some(c) => if fuel == 0 {
                None
            } else {
                self.root_of(c, (fuel - 1) as nat)
            },
        }
    }

    /// Index of the top-level container up the chain of `id`.
    fn root_index(&self, id: u64) -> (r: Option<usize>)
        requires
            self.wf(),
            has_id(self.widgets@, id),
        ensures
            match self.root_of(id, DEPTH_LIMIT as nat) {
                Some(rt) => r matches Some(ri) && ri < self.widgets@.len()
                    && self.widgets@[ri as int].id == rt,
                None => r is None,
            },
    {
        let mut cur = id;
        let mut fuel: usize = DEPTH_LIMIT;
        loop
            invariant
                self.wf(),
                has_id(self.widgets@, cur),
                self.root_of(id, DEPTH_LIMIT as nat) == self.root_of(cur, fuel as nat),
            decreases fuel,
        {
            match self.container_of(cur) {
                None => {
                    return self.find_index(cur);
                },
                Some(c) => {
                    if fuel == 0 {
                        return None;
                    }
                    proof {
                        let k = choose|k: int| 0 <= k < self.links@.len() && self.links@[k].child == cur;
                        assert(has_id(self.widgets@, self.links@[k].container));
                    }
                    cur = c;
                    fuel = fuel - 1;
                },
            }
        }
    }

    /// Widget `i` stands on the canvas itself: no container holds it.
    pub open spec fn canvas_level(&self, i: int) -> bool {
        self.container_spec(self.widgets@[i].id) is None
    }

    /// How many of the first `n` widgets no container holds.
    pub open spec fn canvas_count_upto(&self, n: nat) -> nat
        decreases n,
    {
        if n == 0 {
            0
        } else {
            self.canvas_count_upto((n - 1) as nat) + if self.canvas_level(n - 1) {
                1nat
            } else {
                0nat
            }
        }
    }

    /// Whether some container holds `id`.
    pub fn is_widget_contained(&self, id: u64) -> (r: bool)
        requires
            self.wf(),
        ensures
            r == self.container_spec(id) is Some,
    {
        self.container_of(id).is_some()
    }

    /// The indices of the widgets that no container holds, in rendering
    /// order.
    pub fn get_canvas_widgets(&self) -> (r: Vec<usize>)
        requires
            self.wf(),
        ensures
            forall|k: int|
                0 <= k < r@.len() ==> (#[trigger] r@[k]) < self.widgets@.len() && self.canvas_level(
                    r@[k] as int,
                ),
            forall|k: int, l: int| 0 <= k < l < r@.len() ==> r@[k] < r@[l],
            forall|i: int|
                0 <= i < self.widgets@.len() && self.canvas_level(i) ==> r@.contains(i as usize),
            r@.len() == self.canvas_count_upto(self.widgets@.len()),
    {
        let mut r: Vec<usize> = Vec::new();
        let mut i: usize = 0;
        while i < self.widgets.len()
            invariant
                self.wf(),
                i <= self.widgets@.len(),
                forall|k: int|
                    0 <= k < r@.len() ==> (#[trigger] r@[k]) < i && self.canvas_level(
                        r@[k] as int,
                    ),
                forall|k: int, l: int| 0 <= k < l < r@.len() ==> r@[k] < r@[l],
                forall|j: int| 0 <= j < i && self.canvas_level(j) ==> r@.contains(j as usize),
                r@.len() == self.canvas_count_upto(i as nat),
            decreases self.widgets@.len() - i,
        {
            if !self.is_widget_contained(self.widgets[i].id) {
                let ghost prev = r@;
                r.push(i);
                proof {
                    assert forall|j: int| 0 <= j < i && self.canvas_level(j) implies r@.contains(
                        j as usize,
                    ) by {
                        let k = choose|k: int| 0 <= k < prev.len() && prev[k] == j as usize;
                        assert(r@[k] == j as usize);
                    }
                    assert(r@[r@.len() - 1] == i);
                }
            }
            i = i + 1;
        }
        r
    }

    /// How many widgets no container holds.
    pub fn count_canvas_widgets(&self) -> (r: usize)
        requires
            self.wf(),
        ensures
            r == self.canvas_count_upto(self.widgets@.len()),
    {
        self.get_canvas_widgets().len()
    }

    /// Takes a new viewport. Where its size changed, every widget that no
    /// container holds is placed again by the grid scan over the new
    /// viewport, one after the other in the row-major order of their former
    /// positions, each keeping clear of those placed before it; a widget held
    /// by a container moves as far as the top-level container up its chain.
    pub fn on_viewport_resized(&mut self, r: Rect)
        requires
            old(self).wf(),
            viewport_ok(r),
        ensures
            final(self).wf(),
            final(self).viewport == r,
            final(self).links@ == old(self).links@,
            final(self).next_id == old(self).next_id,
            final(self).interaction == old(self).interaction,
            final(self).selected_panel == old(self).selected_panel,
            final(self).widgets@.len() == old(self).widgets@.len(),
            forall|i: int|
                0 <= i < old(self).widgets@.len() ==> (#[trigger] final(self).widgets@[i]).id
                    == old(self).widgets@[i].id && final(self).widgets@[i].kind == old(
                    self).widgets@[i].kind,
            !(r.w == old(self).viewport.w && r.h == old(self).viewport.h) ==> forall|i: int|
                0 <= i < old(self).widgets@.len() && !old(self).canvas_level(i) ==> follows_root(
                    *old(self),
                    i,
                    *final(self),
                ),
            r.w == old(self).viewport.w && r.h == old(self).viewport.h ==> final(self).widgets@
                == old(self).widgets@,
            !(r.w == old(self).viewport.w && r.h == old(self).viewport.h) ==> exists|
                order: Seq<int>,
            |
                row_major_order(*old(self), order) && forall|k: int|
                    0 <= k < order.len() ==> placed_by_scan(
                        canvas_area_of(r),
                        old(self).widgets@[#[trigger] order[k]].kind.size_of().0,
                        old(self).widgets@[order[k]].kind.size_of().1,
                        order.take(k).map_values(|j: int| final(self).widgets@[j].bounds()),
                        final(self).widgets@[order[k]].pos,
                    ),
    {
        let same = r.w == self.viewport.w && r.h == self.viewport.h;
        self.viewport = r;
        if same {
            return ;
        }
        let ghost before = *self;
        let n = self.widgets.len();
        let area = Rect::new(
            r.x + CANVAS_MARGIN,
            r.y + CANVAS_MARGIN,
            r.w - 2 * CANVAS_MARGIN,
            r.h - 2 * CANVAS_MARGIN,
        );
        assert(area == canvas_area_of(r));
        // The former positions, which fix the order.
        let mut keys: Vec<Point> = Vec::new();
        let mut waiting: Vec<bool> = Vec::new();
        let mut i: usize = 0;
        while i < n
            invariant
                self.wf(),
                *self == before,
                n == self.widgets@.len(),
                i <= n,
                keys@.len() == i,
                waiting@.len() == i,
                forall|j: int| 0 <= j < i ==> #[trigger] keys@[j] == self.widgets@[j].pos,
                forall|j: int| 0 <= j < i ==> #[trigger] waiting@[j] == self.canvas_level(j),
            decreases n - i,
        {
            keys.push(self.widgets[i].pos);
            let free = self.container_of(self.widgets[i].id).is_none();
            waiting.push(free);
            i = i + 1;
        }
        let mut placed: Vec<Rect> = Vec::new();
        let ghost mut order: Seq<int> = Seq::empty();
        loop
            invariant
                self.wf(),
                n == self.widgets@.len(),
                self.viewport == r,
                area == canvas_area_of(r),
                before.widgets@ == old(self).widgets@,
                before.links@ == old(self).links@,
                n == before.widgets@.len(),
                self.links@ == before.links@,
                self.next_id == before.next_id,
                self.interaction == before.interaction,
                self.selected_panel == before.selected_panel,
                waiting@.len() == n,
                keys@.len() == n,
                forall|j: int| 0 <= j < n ==> #[trigger] keys@[j] == before.widgets@[j].pos,
                forall|k: int| 0 <= k < placed@.len() ==> (#[trigger] placed@[k]).wf(),
                forall|j: int|
                    0 <= j < n ==> (#[trigger] self.widgets@[j]).id == before.widgets@[j].id
                        && self.widgets@[j].kind == before.widgets@[j].kind,
                forall|j: int|
                    0 <= j < n && (waiting@[j] || !before.canvas_level(j)) ==> (
                    #[trigger] self.widgets@[j]).pos == before.widgets@[j].pos,
                forall|j: int|
                    0 <= j < n ==> (#[trigger] waiting@[j] <==> (before.canvas_level(j)
                        && !order.contains(j))),
                forall|k: int|
                    0 <= k < order.len() ==> 0 <= #[trigger] order[k] < n && before.canvas_level(
                        order[k],
                    ),
                forall|k: int, l: int| 0 <= k < l < order.len() ==> order[k] != order[l],
                forall|k: int, l: int|
                    0 <= k < l < order.len() ==> !row_major_before(
                        keys@[order[l]],
                        order[l],
                        keys@[order[k]],
                        order[k],
                    ),
                forall|k: int, m: int|
                    #![trigger order[k], waiting@[m]]
                    0 <= k < order.len() && 0 <= m < n && waiting@[m] ==> !row_major_before(
                        keys@[m],
                        m,
                        keys@[order[k]],
                        order[k],
                    ),
                placed@ == order.map_values(|j: int| self.widgets@[j].bounds()),
                forall|k: int|
                    0 <= k < order.len() ==> placed_by_scan(
                        area,
                        before.widgets@[#[trigger] order[k]].kind.size_of().0,
                        before.widgets@[order[k]].kind.size_of().1,
                        placed@.take(k),
                        self.widgets@[order[k]].pos,
                    ),
            ensures
                row_major_order(before, order),
                forall|k: int|
                    0 <= k < order.len() ==> placed_by_scan(
                        area,
                        before.widgets@[#[trigger] order[k]].kind.size_of().0,
                        before.widgets@[order[k]].kind.size_of().1,
                        order.take(k).map_values(|j: int| self.widgets@[j].bounds()),
                        self.widgets@[order[k]].pos,
                    ),
            decreases pending(waiting@),
        {
            let mut best: Option<usize> = None;
            let mut j: usize = 0;
            while j < n
                invariant
                    n == waiting@.len(),
                    n == keys@.len(),
                    j <= n,
                    best matches Some(b) ==> b < j && waiting@[b as int] && forall|m: int|
                        0 <= m < j && #[trigger] waiting@[m] ==> !row_major_before(
                            keys@[m],
                            m,
                            keys@[b as int],
                            b as int,
                        ),
                    best is None ==> forall|m: int| 0 <= m < j ==> !#[trigger] waiting@[m],
                decreases n - j,
            {
                if waiting[j] {
                    let better = match best {
                        None => true,
                        Some(b) => {
                            let a = keys[j];
                            let k = keys[b];
                            a.y < k.y || (a.y == k.y && a.x > k.x)
                        },
                    };
                    if better {
                        best = Some(j);
                    }
                }
                j = j + 1;
            }
            match best {
                None => {
                    proof {
                        assert forall|i: int| 0 <= i < n && before.canvas_level(i) implies order.contains(i) by {
                            assert(!waiting@[i]);
                        }
                        assert forall|k: int, l: int|
                            0 <= k < l < order.len() implies !row_major_before(
                            before.widgets@[order[l]].pos,
                            order[l],
                            before.widgets@[order[k]].pos,
                            order[k],
                        ) by {
                            assert(keys@[order[l]] == before.widgets@[order[l]].pos);
                            assert(keys@[order[k]] == before.widgets@[order[k]].pos);
                        }
                        assert forall|k: int|
                            0 <= k < order.len() implies placed_by_scan(
                            area,
                            before.widgets@[#[trigger] order[k]].kind.size_of().0,
                            before.widgets@[order[k]].kind.size_of().1,
                            order.take(k).map_values(|j: int| self.widgets@[j].bounds()),
                            self.widgets@[order[k]].pos,
                        ) by {
                            assert(placed@.take(k) =~= order.take(k).map_values(
                                |j: int| self.widgets@[j].bounds(),
                            ));
                        }
                    }
                    break;
                },
                Some(b) => {
                    let w = self.widgets[b];
                    proof {
                        w.lemma_bounds_wf();
                    }
                    let (sw, sh) = w.kind.size();
                    let pos = match first_free_slot(area, sw, sh, &placed) {
                        Some(p) => p,
                        None => Point { x: area.x + area.w - sw, y: area.y },
                    };
                    let nw = Widget { pos, ..w };
                    proof {
                        nw.lemma_bounds_wf();
                    }
                    let ghost old_placed = placed@;
                    let ghost old_ws = self.widgets@;
                    let ghost old_order = order;
                    self.set_widget(b, nw);
                    placed.push(nw.rect());
                    proof {
                        lemma_pending_clear(waiting@, b as int);
                        assert(!old_order.contains(b as int));
                        order = old_order.push(b as int);
                        assert forall|k: int| 0 <= k < old_order.len() implies #[trigger] old_order[k] != b as int by {
                            assert(!waiting@[old_order[k]] || old_order[k] != b as int);
                        }
                        assert(placed@ =~= order.map_values(|j: int| self.widgets@[j].bounds()));
                        assert forall|k: int|
                            0 <= k < order.len() implies placed_by_scan(
                            area,
                            before.widgets@[#[trigger] order[k]].kind.size_of().0,
                            before.widgets@[order[k]].kind.size_of().1,
                            placed@.take(k),
                            self.widgets@[order[k]].pos,
                        ) by {
                            if k < old_order.len() {
                                assert(placed@.take(k) =~= old_placed.take(k));
                                assert(order[k] == old_order[k]);
                            } else {
                                assert(placed@.take(k) =~= old_placed);
                            }
                        }
                    }
                    waiting.set(b, false);
                    proof {
                        assert forall|m: int| 0 <= m < n implies (#[trigger] waiting@[m] <==> (
                        before.canvas_level(m) && !order.contains(m))) by {
                            if m == b as int {
                                assert(order[order.len() - 1] == m);
                            } else {
                                if old_order.contains(m) {
                                    let k = choose|k: int| 0 <= k < old_order.len() && old_order[k] == m;
                                    assert(order[k] == m);
                                }
                                if order.contains(m) {
                                    let k = choose|k: int| 0 <= k < order.len() && order[k] == m;
                                    assert(old_order[k] == m);
                                }
                            }
                        }
                    }
                },
            }
        }
        let ghost p1 = *self;
        let mut j: usize = 0;
        while j < n
            invariant
                self.wf(),
                before.wf(),
                n == self.widgets@.len(),
                n == before.widgets@.len(),
                n == p1.widgets@.len(),
                self.viewport == r,
                self.links@ == before.links@,
                self.next_id == before.next_id,
                self.interaction == before.interaction,
                self.selected_panel == before.selected_panel,
                keys@.len() == n,
                forall|m: int| 0 <= m < n ==> #[trigger] keys@[m] == before.widgets@[m].pos,
                forall|m: int|
                    0 <= m < n ==> (#[trigger] self.widgets@[m]).id == before.widgets@[m].id
                        && self.widgets@[m].kind == before.widgets@[m].kind,
                forall|m: int|
                    0 <= m < n && before.canvas_level(m) ==> #[trigger] self.widgets@[m]
                        == p1.widgets@[m],
                forall|m: int| j <= m < n ==> #[trigger] self.widgets@[m] == p1.widgets@[m],
                forall|m: int|
                    0 <= m < n && !before.canvas_level(m) ==> (#[trigger] p1.widgets@[m]).pos
                        == before.widgets@[m].pos,
                forall|m: int|
                    0 <= m < j && !before.canvas_level(m) ==> #[trigger] follows_root(
                        before,
                        m,
                        *self,
                    ),
            decreases n - j,
        {
            let w = self.widgets[j];
            if self.container_of(w.id).is_some() {
                assert(!before.canvas_level(j as int));
                proof {
                    assert(has_id(self.widgets@, w.id));
                    lemma_root_frame(*self, before, w.id, DEPTH_LIMIT as nat);
                }
                match self.root_index(w.id) {
                    Some(ri) => {
                        let k = keys[j];
                        let rk = keys[ri];
                        let rp = self.widgets[ri].pos;
                        proof {
                            assert(before.canvas_level(ri as int));
                        }
                        let np = Point {
                            x: clamp(k.x + rp.x - rk.x, -COORD_LIMIT, COORD_LIMIT),
                            y: clamp(k.y + rp.y - rk.y, -COORD_LIMIT, COORD_LIMIT),
                        };
                        let ghost prev = *self;
                        self.set_widget(j, Widget { pos: np, ..w });
                        proof {
                            assert(self.widgets@[ri as int] == prev.widgets@[ri as int]);
                            assert(follows_root(before, j as int, *self));
                            assert forall|m: int|
                                0 <= m < j && !before.canvas_level(m) implies #[trigger] follows_root(
                                before,
                                m,
                                *self,
                            ) by {
                                assert(follows_root(before, m, prev));
                                assert(self.widgets@[m] == prev.widgets@[m]);
                                lemma_root_frame(before, before, before.widgets@[m].id, DEPTH_LIMIT as nat);
                                if let Some(rt) = before.root_of(before.widgets@[m].id, DEPTH_LIMIT as nat) {
                                    let rm = choose|rm: int|
                                        0 <= rm < before.widgets@.len() && before.widgets@[rm].id == rt
                                            && prev.widgets@[m].pos == (Point {
                                            x: in_range(before.widgets@[m].pos.x + prev.widgets@[rm].pos.x
                                                - before.widgets@[rm].pos.x) as i64,
                                            y: in_range(before.widgets@[m].pos.y + prev.widgets@[rm].pos.y
                                                - before.widgets@[rm].pos.y) as i64,
                                        });
                                    before.lemma_index_spec_some(rt, rm);
                                    assert(before.canvas_level(rm));
                                    assert(self.widgets@[rm] == prev.widgets@[rm]);
                                }
                            }
                        }
                    },
                    None => {
                        assert(follows_root(before, j as int, *self));
                    },
                }
            } else {
                assert(before.canvas_level(j as int));
            }
            j = j + 1;
        }
        proof {
            assert forall|i: int| 0 <= i < n implies before.canvas_level(i) == old(self).canvas_level(i) by {
                assert(before.widgets@[i] == old(self).widgets@[i]);
            }
            assert(row_major_order(*old(self), order));
            assert forall|k: int|
                0 <= k < order.len() implies placed_by_scan(
                canvas_area_of(r),
                old(self).widgets@[#[trigger] order[k]].kind.size_of().0,
                old(self).widgets@[order[k]].kind.size_of().1,
                order.take(k).map_values(|j: int| self.widgets@[j].bounds()),
                self.widgets@[order[k]].pos,
            ) by {
                assert(before.widgets@[order[k]] == old(self).widgets@[order[k]]);
                assert(order.take(k).map_values(|j: int| self.widgets@[j].bounds()) =~= order.take(
                    k,
                ).map_values(|j: int| p1.widgets@[j].bounds()));
                assert(self.widgets@[order[k]] == p1.widgets@[order[k]]);
            }
            assert forall|i: int|
                0 <= i < n && !old(self).canvas_level(i) implies follows_root(*old(self), i, *self) by {
                assert(follows_root(before, i, *self));
                lemma_root_frame(before, *old(self), before.widgets@[i].id, DEPTH_LIMIT as nat);
            }
        }
    }
}

} // verus!
