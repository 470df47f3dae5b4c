use vstd::prelude::*;
use crate::canvas::{
    links_sans,
    children_in, has_id, ids_unique, links_ok, links_without, ContainmentLink, DragDropCanvas,
    DEPTH_LIMIT,
};

verus! {

/// `links` without those that name `id` as child or as container.
pub open spec fn links_dropping(links: Seq<ContainmentLink>, id: u64) -> Seq<ContainmentLink> {
    links_sans(links, id, true)
}

} // verus!

verus! {

pub open spec fn children_unique(links: Seq<ContainmentLink>) -> bool {
    forall|k: int, l: int|
        #![trigger links[k].child, links[l].child]
        0 <= k < links.len() && 0 <= l < links.len() && k != l ==> links[k].child != links[l].child
}

/// What `links_sans` keeps and drops.
pub proof fn lemma_links_sans(links: Seq<ContainmentLink>, id: u64, held_too: bool)
    ensures
        forall|j: int|
            0 <= j < links_sans(links, id, held_too).len() ==> links.contains(
                #[trigger] links_sans(links, id, held_too)[j],
            ) && links_sans(links, id, held_too)[j].child != id && (held_too ==> links_sans(links, id, held_too)[j].container != id),
        forall|k: int|
            0 <= k < links.len() && #[trigger] links[k].child != id && !(held_too
                && links[k].container == id) ==> links_sans(links, id, held_too).contains(links[k]),
        children_unique(links) ==> children_unique(links_sans(links, id, held_too)),
    decreases links.len(),
{
    if links.len() > 0 {
        let rest = links.drop_last();
        lemma_links_sans(rest, id, held_too);
        let res = links_sans(links, id, held_too);
        assert forall|j: int| 0 <= j < res.len() implies links.contains(#[trigger] res[j])
            && res[j].child != id && (held_too ==> res[j].container != id) by {
            if j < links_sans(rest, id, held_too).len() {
                let x = links_sans(rest, id, held_too)[j];
                assert(rest.contains(x));
                let m = choose|m: int| 0 <= m < rest.len() && rest[m] == x;
                assert(links[m] == x);
            } else {
                assert(res[j] == links.last());
                assert(links[links.len() - 1] == links.last());
            }
        }
        assert forall|k: int| 0 <= k < links.len() && #[trigger] links[k].child != id && !(held_too
                && links[k].container == id) implies res.contains(
            links[k],
        ) by {
            if k < links.len() - 1 {
                assert(rest[k] == links[k]);
                let x = links[k];
                assert(links_sans(rest, id, held_too).contains(x));
                let m = choose|m: int|
                    0 <= m < links_sans(rest, id, held_too).len() && links_sans(rest, id, held_too)[m] == x;
                assert(res[m] == x);
            } else {
                assert(res[res.len() - 1] == links[k]);
            }
        }
        if children_unique(links) {
            assert(children_unique(rest)) by {
                assert forall|k: int, l: int|
                    0 <= k < rest.len() && 0 <= l < rest.len() && k != l implies rest[k].child
                    != rest[l].child by {
                    assert(rest[k] == links[k] && rest[l] == links[l]);
                }
            }
            let rr = links_sans(rest, id, held_too);
            assert forall|k: int, l: int|
                0 <= k < res.len() && 0 <= l < res.len() && k != l implies #[trigger] res[k].child
                != #[trigger] res[l].child by {
                if k < rr.len() && l < rr.len() {
                } else if k < rr.len() {
                    assert(rest.contains(rr[k]));
                    let m = choose|m: int| 0 <= m < rest.len() && rest[m] == rr[k];
                    assert(links[m] == rest[m]);
                    assert(res[l] == links[links.len() - 1]);
                } else if l < rr.len() {
                    assert(rest.contains(rr[l]));
                    let m = choose|m: int| 0 <= m < rest.len() && rest[m] == rr[l];
                    assert(links[m] == rest[m]);
                    assert(res[k] == links[links.len() - 1]);
                }
            }
        }
    }
}

/// Links that all stay within `links` keep the canvas link invariant.
pub proof fn lemma_links_ok_sub(
    ws: Seq<crate::widget::Widget>,
    links: Seq<ContainmentLink>,
    sub: Seq<ContainmentLink>,
)
    requires
        links_ok(ws, links),
        forall|j: int| 0 <= j < sub.len() ==> links.contains(#[trigger] sub[j]),
        children_unique(sub),
    ensures
        links_ok(ws, sub),
{
    assert forall|j: int| 0 <= j < sub.len() implies has_id(ws, #[trigger] sub[j].container)
        && has_id(ws, sub[j].child) && sub[j].container != sub[j].child by {
        assert(links.contains(sub[j]));
        let m = choose|m: int| 0 <= m < links.len() && links[m] == sub[j];
        assert(has_id(ws, links[m].container));
    }
}

impl DragDropCanvas {
    /// Whether `id` names a container that takes new children: a panel or
    /// settings panel that is neither collapsed nor minimized.
    pub fn is_accepting_widgets(&self, id: u64) -> (r: bool)
        requires
            self.wf(),
        ensures
            r == self.accepting_id(id),
    {
        match self.find_index(id) {
            Some(i) => {
                let r = self.widgets[i].kind.is_accepting_widgets();
                proof {
                    if self.accepting_id(id) {
                        let j = choose|j: int|
                            0 <= j < self.widgets@.len() && self.widgets@[j].id == id
                                && self.widgets@[j].kind.accepting();
                        assert(ids_unique(self.widgets@));
                        assert(j == i);
                    }
                }
                r
            },
            None => false,
        }
    }

    /// Whether `id` names a collapsed panel or a minimized settings panel.
    pub fn is_folded_id(&self, id: u64) -> (r: bool)
        requires
            self.wf(),
        ensures
            r == self.folded_id(id),
    {
        match self.find_index(id) {
            Some(i) => {
                let r = self.widgets[i].kind.is_folded();
                proof {
                    if self.folded_id(id) {
                        let j = choose|j: int|
                            0 <= j < self.widgets@.len() && self.widgets@[j].id == id
                                && self.widgets@[j].kind.folded();
                        assert(ids_unique(self.widgets@));
                        assert(j == i);
                    }
                }
                r
            },
            None => false,
        }
    }

    /// Whether `id` is drawn hidden: some container up its chain is folded.
    /// The walk stops at the depth limit.
    pub fn is_hidden(&self, id: u64) -> (r: bool)
        requires
            self.wf(),
        ensures
            r == self.hidden(id, DEPTH_LIMIT as nat),
    {
        let mut cur = id;
        let mut fuel: usize = DEPTH_LIMIT;
        loop
            invariant
                self.wf(),
                self.hidden(id, DEPTH_LIMIT as nat) == self.hidden(cur, fuel as nat),
            decreases fuel,
        {
            match self.container_of(cur) {
                None => {
                    return false;
                },
                Some(c) => {
                    if fuel == 0 {
                        return false;
                    }
                    if self.is_folded_id(c) {
                        return true;
                    }
                    cur = c;
                    fuel = fuel - 1;
                },
            }
        }
    }

    /// Whether `a` is a container up the chain of `id` (within the depth
    /// limit).
    pub fn is_ancestor(&self, a: u64, id: u64) -> (r: bool)
        requires
            self.wf(),
        ensures
            r == self.ancestor(a, id, DEPTH_LIMIT as nat),
    {
        self.is_ancestor_within(a, id, DEPTH_LIMIT)
    }

    /// Whether `a` is among the first `fuel` containers up the chain of `id`.
    pub fn is_ancestor_within(&self, a: u64, id: u64, fuel: usize) -> (r: bool)
        requires
            self.wf(),
        ensures
            r == self.ancestor(a, id, fuel as nat),
    {
        let mut cur = id;
        let mut left: usize = fuel;
        loop
            invariant
                self.wf(),
                self.ancestor(a, id, fuel as nat) == self.ancestor(a, cur, left as nat),
            decreases left,
        {
            match self.container_of(cur) {
                None => {
                    return false;
                },
                Some(c) => {
                    if left == 0 {
                        return false;
                    }
                    if c == a {
                        return true;
                    }
                    cur = c;
                    left = left - 1;
                },
            }
        }
    }

    /// The containment depth of `id`: 0 on the canvas itself, one more for
    /// each enclosing container (counting at most the depth limit).
    pub fn layer_of(&self, id: u64) -> (r: usize)
        requires
            self.wf(),
        ensures
            r == self.depth(id, DEPTH_LIMIT as nat),
    {
        let mut cur = id;
        let mut fuel: usize = DEPTH_LIMIT;
        let mut count: usize = 0;
        let n: usize = DEPTH_LIMIT;
        loop
            invariant
                self.wf(),
                count + fuel == n,
                self.depth(id, DEPTH_LIMIT as nat) == count + self.depth(
                    cur,
                    fuel as nat,
                ),
            decreases fuel,
        {
            match self.container_of(cur) {
                None => {
                    return count;
                },
                Some(c) => {
                    if fuel == 0 {
                        return count;
                    }
                    cur = c;
                    fuel = fuel - 1;
                    count = count + 1;
                },
            }
        }
    }

    /// The ids that container `c` holds, in insertion order.
    pub fn contained_ids(&self, c: u64) -> (r: Vec<u64>)
        ensures
            r@ == children_in(self.links@, c),
    {
        let mut r: Vec<u64> = Vec::new();
        let mut k: usize = 0;
        while k < self.links.len()
            invariant
                k <= self.links@.len(),
                r@ == children_in(self.links@.subrange(0, k as int), c),
            decreases self.links@.len() - k,
        {
            assert(self.links@.subrange(0, k + 1).drop_last() == self.links@.subrange(0, k as int));
            if self.links[k].container == c {
                r.push(self.links[k].child);
            }
            k = k + 1;
        }
        assert(self.links@.subrange(0, self.links@.len() as int) == self.links@);
        r
    }

    /// Takes `id` out of every container's contained ids. Geometry is not
    /// touched.
    pub fn remove_from_all_containers(&mut self, id: u64)
        requires
            old(self).wf(),
        ensures
            final(self).wf(),
            final(self).links@ == links_without(old(self).links@, id),
            final(self).widgets@ == old(self).widgets@,
            final(self).next_id == old(self).next_id,
            final(self).viewport == old(self).viewport,
            final(self).interaction == old(self).interaction,
            final(self).selected_panel == old(self).selected_panel,
    {
        let mut out: Vec<ContainmentLink> = Vec::new();
        let mut k: usize = 0;
        while k < self.links.len()
            invariant
                k <= self.links@.len(),
                out@ == links_without(self.links@.subrange(0, k as int), id),
            decreases self.links@.len() - k,
        {
            assert(self.links@.subrange(0, k + 1).drop_last() == self.links@.subrange(0, k as int));
            if self.links[k].child != id {
                out.push(self.links[k]);
            }
            k = k + 1;
        }
        assert(self.links@.subrange(0, self.links@.len() as int) == self.links@);
        proof {
            lemma_links_sans(self.links@, id, false);
            lemma_links_ok_sub(self.widgets@, self.links@, out@);
        }
        self.links = out;
    }

    /// Moves `child` into container `c`, appending it to `c`'s contained ids
    /// after taking it out of any other container. Nothing happens (and
    /// `false` comes back) unless `c` takes new children, `child` exists, is
    /// not `c`, and is not itself a container up the chain of `c`.
    pub fn add_child(&mut self, c: u64, child: u64) -> (r: bool)
        requires
            old(self).wf(),
        ensures
            final(self).wf(),
            r == (old(self).accepting_id(c) && has_id(old(self).widgets@, child) && c != child
                && !old(self).ancestor(child, c, DEPTH_LIMIT as nat)),
            r ==> final(self).links@ == links_without(old(self).links@, child).push(
                ContainmentLink { container: c, child },
            ),
            !r ==> final(self).links@ == old(self).links@,
            final(self).widgets@ == old(self).widgets@,
            final(self).next_id == old(self).next_id,
            final(self).viewport == old(self).viewport,
            final(self).interaction == old(self).interaction,
            final(self).selected_panel == old(self).selected_panel,
    {
        if c == child || !self.is_accepting_widgets(c) {
            return false;
        }
        if self.find_index(child).is_none() {
            return false;
        }
        if self.is_ancestor(child, c) {
            return false;
        }
        self.remove_from_all_containers(child);
        let ghost mid = self.links@;
        proof {
            lemma_links_sans(old(self).links@, child, false);
            let i = choose|i: int|
                0 <= i < self.widgets@.len() && self.widgets@[i].id == c
                    && self.widgets@[i].kind.accepting();
            assert(has_id(self.widgets@, c));
        }
        self.links.push(ContainmentLink { container: c, child });
        proof {
            let links = self.links@;
            assert forall|k: int, l: int|
                0 <= k < links.len() && 0 <= l < links.len() && k != l implies #[trigger] links[k].child
                != #[trigger] links[l].child by {
                if k < mid.len() && l < mid.len() {
                    assert(links[k] == mid[k] && links[l] == mid[l]);
                } else if k < mid.len() {
                    assert(links[k] == mid[k]);
                } else {
                    assert(links[l] == mid[l]);
                }
            }
            assert forall|j: int| 0 <= j < links.len() implies has_id(
                self.widgets@,
                #[trigger] links[j].container,
            ) && has_id(self.widgets@, links[j].child) && links[j].container
                != links[j].child by {
                if j < mid.len() {
                    assert(links[j] == mid[j]);
                }
            }
        }
        true
    }
}

/// Taking `id` out of its container leaves every chain that starts at
/// another id as it was up to `id`: whether `id` is among the containers up
/// the chain of `x` does not change.
pub proof fn lemma_without_keeps_chain(a: DragDropCanvas, b: DragDropCanvas, id: u64, x: u64, fuel: nat)
    requires
        a.wf(),
        b.links@ == links_without(a.links@, id),
        x != id,
    ensures
        b.container_spec(x) == a.container_spec(x),
        b.ancestor(id, x, fuel) == a.ancestor(id, x, fuel),
    decreases fuel,
{
    lemma_links_sans(a.links@, id, false);
    let bl = b.links@;
    let al = a.links@;
    if exists|k: int| 0 <= k < al.len() && al[k].child == x {
        let k = choose|k: int| 0 <= k < al.len() && al[k].child == x;
        assert(bl.contains(al[k]));
        let kb = choose|kb: int| 0 <= kb < bl.len() && bl[kb] == al[k];
        let kb2 = choose|kb2: int| 0 <= kb2 < bl.len() && bl[kb2].child == x;
        if kb2 != kb {
            assert(bl[kb2].child != bl[kb].child);
        }
        assert(b.container_spec(x) == a.container_spec(x));
    } else {
        if exists|kb: int| 0 <= kb < bl.len() && bl[kb].child == x {
            let kb = choose|kb: int| 0 <= kb < bl.len() && bl[kb].child == x;
            assert(al.contains(bl[kb]));
        }
    }
    if let Some(c) = a.container_spec(x) {
        if fuel > 0 && c != id {
            lemma_without_keeps_chain(a, b, id, c, (fuel - 1) as nat);
        }
    }
}

} // verus!
