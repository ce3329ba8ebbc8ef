//! Binary space partition used to lay out the rooms of a generated level.
//!
//! Nodes live in one vector and refer to their children by index; a child
//! always sits after its parent.

use vstd::prelude::*;
use crate::rng::Rng;
use crate::dungeon::tiles::{Room, half};

verus! {

pub const MIN_LEAF: i32 = 7;

pub const MIN_ROOM: i32 = 4;

/// Largest side of a partitioned area.
pub const BSP_MAX_SIDE: i32 = 46340;

#[derive(Clone, Copy)]
pub struct BspNode {
    pub x: i32,
    pub y: i32,
    pub w: i32,
    pub h: i32,
    pub left: Option<usize>,
    pub right: Option<usize>,
    pub room: Option<Room>,
}

/// A room with a one-tile margin inside the node's rectangle, at least 4 by 4.
pub open spec fn room_in_node(r: Room, n: BspNode) -> bool {
    &&& MIN_ROOM <= r.w
    &&& MIN_ROOM <= r.h
    &&& n.x + 1 <= r.x
    &&& n.y + 1 <= r.y
    &&& r.x + r.w <= n.x + n.w - 1
    &&& r.y + r.h <= n.y + n.h - 1
    &&& r.modifier is None
    &&& r.special is None
}

pub open spec fn area(n: BspNode) -> int {
    n.w * n.h
}

pub struct Bsp {
    pub nodes: Vec<BspNode>,
    pub width: i32,
    pub height: i32,
}

/// Sum of the areas of the listed nodes.
pub open spec fn leaf_area(nodes: Seq<BspNode>, ids: Seq<usize>) -> int
    decreases ids.len(),
{
    if ids.len() == 0 {
        0
    } else {
        leaf_area(nodes, ids.drop_last()) + area(nodes[ids.last() as int])
    }
}

proof fn lemma_leaf_area_push(nodes: Seq<BspNode>, ids: Seq<usize>, i: usize)
    ensures
        leaf_area(nodes, ids.push(i)) == leaf_area(nodes, ids) + area(nodes[i as int]),
{
    assert(ids.push(i).drop_last() =~= ids);
}

/// Removing the first listed node takes its area off the sum.
proof fn lemma_leaf_area_first(nodes: Seq<BspNode>, ids: Seq<usize>)
    requires
        ids.len() > 0,
    ensures
        leaf_area(nodes, ids) == area(nodes[ids[0] as int]) + leaf_area(nodes, ids.subrange(1, ids.len() as int)),
    decreases ids.len(),
{
    if ids.len() == 1 {
        assert(ids.drop_last() =~= Seq::<usize>::empty());
        assert(ids.subrange(1, 1) =~= Seq::<usize>::empty());
    } else {
        lemma_leaf_area_first(nodes, ids.drop_last());
        assert(ids.drop_last().subrange(1, ids.len() - 1) =~= ids.subrange(1, ids.len() as int).drop_last());
        assert(ids.subrange(1, ids.len() as int).last() == ids.last());
    }
}

/// Each listed node covering at least `MIN_LEAF` squared bounds how many are listed.
proof fn lemma_leaf_count(nodes: Seq<BspNode>, ids: Seq<usize>)
    requires
        forall|j: int|
            0 <= j < ids.len() ==> 0 <= #[trigger] ids[j] < nodes.len() && area(nodes[ids[j] as int]) >= MIN_LEAF
                * MIN_LEAF,
    ensures
        leaf_area(nodes, ids) >= ids.len() * 49,
    decreases ids.len(),
{
    if ids.len() > 0 {
        lemma_leaf_count(nodes, ids.drop_last());
        assert(ids.drop_last().len() == ids.len() - 1);
    }
}

/// Areas depend only on the listed nodes' rectangles.
proof fn lemma_leaf_area_frame(a: Seq<BspNode>, b: Seq<BspNode>, ids: Seq<usize>)
    requires
        forall|j: int| 0 <= j < ids.len() ==> 0 <= #[trigger] ids[j] < a.len() && ids[j] < b.len() && area(a[ids[j] as int]) == area(b[ids[j] as int]),
    ensures
        leaf_area(a, ids) == leaf_area(b, ids),
    decreases ids.len(),
{
    if ids.len() > 0 {
        lemma_leaf_area_frame(a, b, ids.drop_last());
    }
}

impl Bsp {
    pub open spec fn node_ok(&self, i: int) -> bool {
        let n = self.nodes@[i];
        &&& 0 <= n.x
        &&& 0 <= n.y
        &&& MIN_LEAF <= n.w
        &&& MIN_LEAF <= n.h
        &&& n.x + n.w <= self.width
        &&& n.y + n.h <= self.height
        &&& n.left.is_some() == n.right.is_some()
        &&& n.left matches Some(l) ==> i < l < self.nodes@.len()
        &&& n.right matches Some(r) ==> i < r < self.nodes@.len()
        &&& n.room matches Some(room) ==> n.left.is_none() && room_in_node(room, n)
    }

    pub open spec fn wf(&self) -> bool {
        &&& MIN_LEAF <= self.width <= BSP_MAX_SIDE
        &&& MIN_LEAF <= self.height <= BSP_MAX_SIDE
        &&& self.nodes@.len() >= 1
        &&& self.nodes@.len() <= 2 * (BSP_MAX_SIDE * BSP_MAX_SIDE)
        &&& forall|i: int| 0 <= i < self.nodes@.len() ==> #[trigger] self.node_ok(i)
    }

    pub open spec fn is_leaf(&self, i: int) -> bool {
        self.nodes@[i].left.is_none()
    }

    /// The listed nodes are distinct leaves of the tree.
    pub open spec fn leaves_ok(&self, ids: Seq<usize>) -> bool {
        &&& forall|j: int| 0 <= j < ids.len() ==> 0 <= #[trigger] ids[j] < self.nodes@.len() && self.is_leaf(ids[j] as int)
    }

    /// Rectangles of the existing nodes are kept.
    pub open spec fn keeps_rects(&self, old_bsp: &Bsp) -> bool {
        &&& self.width == old_bsp.width
        &&& self.height == old_bsp.height
        &&& self.nodes@.len() >= old_bsp.nodes@.len()
        &&& forall|i: int|
            0 <= i < old_bsp.nodes@.len() ==> {
                let a = #[trigger] self.nodes@[i];
                let b = old_bsp.nodes@[i];
                a.x == b.x && a.y == b.y && a.w == b.w && a.h == b.h
            }
    }
}


impl Bsp {
    /// Every room present sits inside its node, which lies inside the area.
    pub open spec fn rooms_only_change(&self, old_bsp: &Bsp) -> bool {
        &&& self.width == old_bsp.width
        &&& self.height == old_bsp.height
        &&& self.nodes@.len() == old_bsp.nodes@.len()
        &&& forall|i: int|
            0 <= i < old_bsp.nodes@.len() ==> {
                let a = #[trigger] self.nodes@[i];
                let b = old_bsp.nodes@[i];
                a.x == b.x && a.y == b.y && a.w == b.w && a.h == b.h && a.left == b.left && a.right == b.right
            }
    }

    pub fn new(width: i32, height: i32) -> (b: Bsp)
        requires
            MIN_LEAF <= width <= BSP_MAX_SIDE,
            MIN_LEAF <= height <= BSP_MAX_SIDE,
        ensures
            b.wf(),
            b.width == width,
            b.height == height,
            b.nodes@.len() == 1,
            b.nodes@[0].x == 0 && b.nodes@[0].y == 0 && b.nodes@[0].w == width && b.nodes@[0].h == height,
            b.is_leaf(0),
            b.nodes@[0].room is None,
    {
        let root = BspNode { x: 0, y: 0, w: width, h: height, left: None, right: None, room: None };
        let b = Bsp { nodes: vec![root], width, height };
        assert(b.node_ok(0));
        b
    }

    /// Splits leaf `i` in two along its longer side (or a random side when
    /// nearly square); refuses when a half would be under `MIN_LEAF`.
    fn split(&mut self, i: usize, rng: &mut Rng) -> (did: bool)
        requires
            old(self).wf(),
            i < old(self).nodes@.len(),
            old(self).is_leaf(i as int),
            old(self).nodes@[i as int].room is None,
            old(self).nodes@.len() + 2 <= 2 * (BSP_MAX_SIDE * BSP_MAX_SIDE),
        ensures
            final(self).wf(),
            final(self).keeps_rects(old(self)),
            !did ==> final(self).nodes@ == old(self).nodes@,
            did ==> {
                let n0 = old(self).nodes@.len() as int;
                &&& final(self).nodes@.len() == n0 + 2
                &&& final(self).nodes@[i as int].left == Some(n0 as usize)
                &&& final(self).nodes@[i as int].right == Some((n0 + 1) as usize)
                &&& final(self).nodes@[i as int].room is None
                &&& final(self).is_leaf(n0) && final(self).is_leaf(n0 + 1)
                &&& final(self).nodes@[n0].room is None
                &&& final(self).nodes@[n0 + 1].room is None
                &&& area(final(self).nodes@[n0]) + area(final(self).nodes@[n0 + 1]) == area(
                    old(self).nodes@[i as int],
                )
                &&& forall|j: int|
                    0 <= j < n0 && j != i ==> #[trigger] final(self).nodes@[j] == old(self).nodes@[j]
            },
    {
        let n = self.nodes[i];
        assert(self.node_ok(i as int));
        if n.left.is_some() {
            return false;
        }
        // Longer side first: a ratio of at least 1.25 is `4 * long >= 5 * short`.
        let split_h = if n.w > n.h && 4 * n.w >= 5 * n.h {
            false
        } else if n.h > n.w && 4 * n.h >= 5 * n.w {
            true
        } else {
            rng.next_u64() % 2 == 0
        };
        let max = (if split_h { n.h } else { n.w }) - MIN_LEAF;
        if max < MIN_LEAF {
            return false;
        }
        let cut = rng.range(MIN_LEAF, max + 1);
        let n0 = self.nodes.len();
        let (a, b) = if split_h {
            (
                BspNode { x: n.x, y: n.y, w: n.w, h: cut, left: None, right: None, room: None },
                BspNode { x: n.x, y: n.y + cut, w: n.w, h: n.h - cut, left: None, right: None, room: None },
            )
        } else {
            (
                BspNode { x: n.x, y: n.y, w: cut, h: n.h, left: None, right: None, room: None },
                BspNode { x: n.x + cut, y: n.y, w: n.w - cut, h: n.h, left: None, right: None, room: None },
            )
        };
        proof {
            if split_h {
                assert(n.w * cut + n.w * (n.h - cut) == n.w * n.h) by (nonlinear_arith);
            } else {
                assert(cut * n.h + (n.w - cut) * n.h == n.w * n.h) by (nonlinear_arith);
            }
        }
        let parent = BspNode { left: Some(n0), right: Some(n0 + 1), ..n };
        let ghost old_nodes = self.nodes@;
        self.nodes.set(i, parent);
        self.nodes.push(a);
        self.nodes.push(b);
        assert forall|j: int| 0 <= j < self.nodes@.len() implies #[trigger] self.node_ok(j) by {
            if j < n0 && j != i {
                assert(self.nodes@[j] == old_nodes[j]);
                assert(old(self).node_ok(j));
            }
        }
        true
    }

    /// Splits every leaf, round after round, until a full round splits none.
    pub(crate) fn partition(&mut self, rng: &mut Rng) -> (leaves: Vec<usize>)
        requires
            old(self).wf(),
            old(self).nodes@.len() == 1,
            old(self).is_leaf(0),
            old(self).nodes@[0].room is None,
            area(old(self).nodes@[0]) == old(self).width * old(self).height,
        ensures
            final(self).wf(),
            final(self).width == old(self).width,
            final(self).height == old(self).height,
            forall|i: int| 0 <= i < final(self).nodes@.len() ==> (#[trigger] final(self).nodes@[i]).room is None,
            final(self).leaves_ok(leaves@),
            leaves@.no_duplicates(),
            1 <= leaves@.len(),
            49 * leaves@.len() <= final(self).width * final(self).height,
    {
        let ghost total = self.width * self.height;
        let mut leaves: Vec<usize> = vec![0];
        proof {
            assert(leaves@.drop_last() =~= Seq::<usize>::empty());
            assert(leaf_area(self.nodes@, Seq::<usize>::empty()) == 0);
            assert(leaf_area(self.nodes@, leaves@) == area(self.nodes@[0]));
            lemma_grid_bound(self.width as int, self.height as int);
        }
        loop
            invariant_except_break
                self.wf(),
                self.width == old(self).width,
                self.height == old(self).height,
                total == self.width * self.height,
                total <= BSP_MAX_SIDE * BSP_MAX_SIDE,
                forall|i: int| 0 <= i < self.nodes@.len() ==> (#[trigger] self.nodes@[i]).room is None,
                self.leaves_ok(leaves@),
                leaves@.no_duplicates(),
                leaf_area(self.nodes@, leaves@) == total,
                self.nodes@.len() == 2 * leaves@.len() - 1,
            ensures
                self.wf(),
                self.width == old(self).width,
                self.height == old(self).height,
                forall|i: int| 0 <= i < self.nodes@.len() ==> (#[trigger] self.nodes@[i]).room is None,
                self.leaves_ok(leaves@),
                leaves@.no_duplicates(),
                1 <= leaves@.len(),
                49 * leaves@.len() <= self.width * self.height,
            decreases total - 49 * leaves@.len(),
        {
            proof {
                lemma_leaf_count_nodes(self, leaves@);
            }
            let ghost count_before = leaves@.len();
            let ghost round_start = self.nodes@;
            let mut did_split = false;
            let mut new_leaves: Vec<usize> = Vec::new();
            proof {
                assert(leaf_area(self.nodes@, new_leaves@) == 0);
                assert(leaves@.subrange(0, leaves@.len() as int) =~= leaves@);
                assert(new_leaves@ + leaves@.subrange(0, leaves@.len() as int) =~= leaves@);
            }
            let mut k: usize = 0;
            while k < leaves.len()
                invariant
                    self.wf(),
                    self.width == old(self).width,
                    self.height == old(self).height,
                    total == self.width * self.height,
                    total <= BSP_MAX_SIDE * BSP_MAX_SIDE,
                    forall|i: int| 0 <= i < self.nodes@.len() ==> (#[trigger] self.nodes@[i]).room is None,
                    k <= leaves@.len(),
                    count_before == leaves@.len(),
                    self.leaves_ok(new_leaves@ + leaves@.subrange(k as int, leaves@.len() as int)),
                    (new_leaves@ + leaves@.subrange(k as int, leaves@.len() as int)).no_duplicates(),
                    leaf_area(self.nodes@, new_leaves@) + leaf_area(
                        self.nodes@,
                        leaves@.subrange(k as int, leaves@.len() as int),
                    ) == total,
                    did_split ==> new_leaves@.len() > k,
                    !did_split ==> self.nodes@ == round_start,
                    !did_split ==> new_leaves@ == leaves@.subrange(0, k as int),
                    round_start.len() == 2 * leaves@.len() - 1,
                    new_leaves@.len() >= k,
                    self.nodes@.len() == 2 * (new_leaves@.len() + (leaves@.len() - k)) - 1,
                decreases leaves@.len() - k,
            {
                let p = leaves[k];
                let ghost rest = leaves@.subrange(k as int, leaves@.len() as int);
                let ghost rest2 = leaves@.subrange(k + 1, leaves@.len() as int);
                let ghost before = self.nodes@;
                let ghost nl = new_leaves@;
                proof {
                    assert(rest[0] == p);
                    assert(rest.subrange(1, rest.len() as int) =~= rest2);
                    lemma_leaf_area_first(self.nodes@, rest);
                    assert((nl + rest)[nl.len() as int] == p);
                    assert(self.is_leaf(p as int));
                }
                proof {
                    let all = nl + rest;
                    assert(self.leaves_ok(all));
                    assert forall|j: int| 0 <= j < nl.len() implies 0 <= #[trigger] nl[j] < self.nodes@.len() && self.is_leaf(nl[j] as int) by {
                        assert(nl[j] == all[j]);
                    }
                    assert forall|j: int| 0 <= j < rest.len() implies 0 <= #[trigger] rest[j] < self.nodes@.len() && self.is_leaf(rest[j] as int) by {
                        assert(rest[j] == all[nl.len() + j]);
                    }
                    lemma_leaf_count_nodes(self, nl);
                    lemma_leaf_count_nodes(self, rest);
                }
                let is_leaf = self.nodes[p].left.is_none();
                if is_leaf && self.split(p, rng) {
                    let n0 = self.nodes.len() - 2;
                    new_leaves.push(n0);
                    new_leaves.push(n0 + 1);
                    did_split = true;
                    proof {
                        lemma_after_split(before, self, nl, rest, p, n0 as usize);
                        assert(new_leaves@ =~= nl.push(n0 as usize).push((n0 + 1) as usize));
                        assert(leaves@.subrange(k + 1, leaves@.len() as int) =~= rest.subrange(1, rest.len() as int));
                    }
                } else {
                    new_leaves.push(p);
                    proof {
                        assert(leaves@.subrange(0, k + 1) =~= leaves@.subrange(0, k as int).push(p));
                        lemma_leaf_area_push(self.nodes@, nl, p);
                        assert(new_leaves@ + leaves@.subrange(k + 1, leaves@.len() as int) =~= nl + rest);
                    }
                }
                k += 1;
            }
            proof {
                assert(leaves@.subrange(leaves@.len() as int, leaves@.len() as int) =~= Seq::<usize>::empty());
                assert(new_leaves@ + leaves@.subrange(leaves@.len() as int, leaves@.len() as int) =~= new_leaves@);
            }
            if !did_split {
                proof {
                    lemma_leaf_count_nodes(self, leaves@);
                }
                break;
            }
            assert(new_leaves@.len() > count_before);
            leaves = new_leaves;
            proof {
                assert(leaf_area(self.nodes@, Seq::<usize>::empty()) == 0);
                assert(leaf_area(self.nodes@, leaves@) == total);
                lemma_leaf_count_nodes(self, leaves@);
                assert(total - 49 * leaves@.len() >= 0);
                assert(total - 49 * leaves@.len() < total - 49 * count_before);
            }
        }
        leaves
    }
}

proof fn lemma_grid_bound(w: int, h: int)
    requires
        MIN_LEAF <= w <= BSP_MAX_SIDE,
        MIN_LEAF <= h <= BSP_MAX_SIDE,
    ensures
        w * h <= BSP_MAX_SIDE * BSP_MAX_SIDE,
{
    assert(w * h <= BSP_MAX_SIDE * BSP_MAX_SIDE) by (nonlinear_arith)
        requires
            MIN_LEAF <= w <= BSP_MAX_SIDE,
            MIN_LEAF <= h <= BSP_MAX_SIDE,
    ;
}

/// Listed leaves are nodes of at least `MIN_LEAF` by `MIN_LEAF`.
proof fn lemma_leaf_count_nodes(bsp: &Bsp, ids: Seq<usize>)
    requires
        bsp.wf(),
        bsp.leaves_ok(ids),
    ensures
        leaf_area(bsp.nodes@, ids) >= ids.len() * 49,
{
    assert forall|j: int| 0 <= j < ids.len() implies 0 <= #[trigger] ids[j] < bsp.nodes@.len() && area(
        bsp.nodes@[ids[j] as int],
    ) >= 49 by {
        assert(bsp.node_ok(ids[j] as int));
        let n = bsp.nodes@[ids[j] as int];
        assert(n.w * n.h >= 49) by (nonlinear_arith)
            requires
                MIN_LEAF <= n.w,
                MIN_LEAF <= n.h,
        ;
    }
    lemma_leaf_count(bsp.nodes@, ids);
}


/// After leaf `p` (the first of `rest`) was split into the two nodes appended at
/// `n0`, replacing it by them keeps the listed leaves distinct leaves covering
/// the same area.
proof fn lemma_after_split(before: Seq<BspNode>, bsp: &Bsp, nl: Seq<usize>, rest: Seq<usize>, p: usize, n0: usize)
    requires
        bsp.wf(),
        rest.len() > 0,
        rest[0] == p,
        n0 == before.len(),
        bsp.nodes@.len() == n0 + 2,
        forall|j: int| 0 <= j < nl.len() + rest.len() ==> 0 <= #[trigger] (nl + rest)[j] < before.len() && before[(nl + rest)[j] as int].left.is_none(),
        (nl + rest).no_duplicates(),
        bsp.nodes@[p as int].left == Some(n0),
        bsp.is_leaf(n0 as int),
        bsp.is_leaf(n0 + 1),
        area(bsp.nodes@[n0 as int]) + area(bsp.nodes@[n0 + 1]) == area(before[p as int]),
        forall|j: int| 0 <= j < n0 && j != p ==> #[trigger] bsp.nodes@[j] == before[j],
    ensures
        ({
            let rest2 = rest.subrange(1, rest.len() as int);
            let nl2 = nl.push(n0).push((n0 + 1) as usize);
            &&& bsp.leaves_ok(nl2 + rest2)
            &&& (nl2 + rest2).no_duplicates()
            &&& leaf_area(bsp.nodes@, nl2) + leaf_area(bsp.nodes@, rest2) == leaf_area(before, nl) + leaf_area(before, rest)
        }),
{
    let rest2 = rest.subrange(1, rest.len() as int);
    let nl2 = nl.push(n0).push((n0 + 1) as usize);
    let old_all = nl + rest;
    let all = nl2 + rest2;
    assert forall|j: int| 0 <= j < nl.len() implies 0 <= #[trigger] nl[j] < before.len() && nl[j] < bsp.nodes@.len() && area(before[nl[j] as int]) == area(bsp.nodes@[nl[j] as int]) by {
        assert(nl[j] == old_all[j]);
        assert(old_all[j] != old_all[nl.len() as int]);
    }
    assert forall|j: int| 0 <= j < rest2.len() implies 0 <= #[trigger] rest2[j] < before.len() && rest2[j] < bsp.nodes@.len() && area(before[rest2[j] as int]) == area(bsp.nodes@[rest2[j] as int]) by {
        assert(rest2[j] == old_all[nl.len() + j + 1]);
        assert(old_all[nl.len() + j + 1] != old_all[nl.len() as int]);
    }
    lemma_leaf_area_frame(before, bsp.nodes@, nl);
    lemma_leaf_area_frame(before, bsp.nodes@, rest2);
    lemma_leaf_area_push(bsp.nodes@, nl, n0);
    lemma_leaf_area_push(bsp.nodes@, nl.push(n0), (n0 + 1) as usize);
    lemma_leaf_area_first(before, rest);
    assert forall|j: int| 0 <= j < all.len() implies 0 <= #[trigger] all[j] < bsp.nodes@.len() && bsp.is_leaf(all[j] as int) by {
        if j < nl.len() {
            assert(all[j] == old_all[j]);
            assert(old_all[j] != old_all[nl.len() as int]);
        } else if j >= nl.len() + 2 {
            assert(all[j] == old_all[j - 1]);
            assert(old_all[j - 1] != old_all[nl.len() as int]);
        }
    }
    assert forall|a: int, b: int| 0 <= a < all.len() && 0 <= b < all.len() && a != b implies all[a] != all[b] by {
        if a < nl.len() {
            assert(all[a] == old_all[a]);
        } else if a >= nl.len() + 2 {
            assert(all[a] == old_all[a - 1]);
        }
        if b < nl.len() {
            assert(all[b] == old_all[b]);
        } else if b >= nl.len() + 2 {
            assert(all[b] == old_all[b - 1]);
        }
    }
}


/// Both ends of a corridor lie inside a `w` by `h` grid.
pub open spec fn corridor_ok(c: ((i32, i32), (i32, i32)), w: int, h: int) -> bool {
    &&& 0 <= c.0.0 < w
    &&& 0 <= c.0.1 < h
    &&& 0 <= c.1.0 < w
    &&& 0 <= c.1.1 < h
}

/// A room with a one-tile margin inside a `w` by `h` grid, at least 4 by 4.
pub open spec fn room_ok(r: Room, w: int, h: int) -> bool {
    &&& MIN_ROOM <= r.w
    &&& MIN_ROOM <= r.h
    &&& 1 <= r.x
    &&& 1 <= r.y
    &&& r.x + r.w < w
    &&& r.y + r.h < h
    &&& r.modifier is None
    &&& r.special is None
}

impl Bsp {
    /// Places a room in each listed leaf, in list order.
    ///
    /// `partition` lists the leaves from left to right, which is the order in
    /// which a depth-first walk, left child first, meets them.
    pub(crate) fn create_rooms(&mut self, leaves: &Vec<usize>, rng: &mut Rng)
        requires
            old(self).wf(),
            old(self).leaves_ok(leaves@),
        ensures
            final(self).wf(),
            final(self).rooms_only_change(old(self)),
            forall|j: int| 0 <= j < leaves@.len() ==> (#[trigger] final(self).nodes@[leaves@[j] as int]).room is Some,
    {
        let mut k: usize = 0;
        while k < leaves.len()
            invariant
                self.wf(),
                self.rooms_only_change(old(self)),
                old(self).leaves_ok(leaves@),
                k <= leaves@.len(),
                forall|j: int| 0 <= j < k ==> (#[trigger] self.nodes@[leaves@[j] as int]).room is Some,
            decreases leaves@.len() - k,
        {
            let idx = leaves[k];
            let n = self.nodes[idx];
            assert(self.node_ok(idx as int));
            assert(old(self).is_leaf(idx as int));
            let ghost before = self.nodes@;
            let w = rng.range(MIN_ROOM, n.w - 1);
            let h = rng.range(MIN_ROOM, n.h - 1);
            let x = n.x + rng.range(1, n.w - w);
            let y = n.y + rng.range(1, n.h - h);
            let room = Room { x, y, w, h, modifier: None, special: None };
            let ghost prev = *self;
            self.nodes.set(idx, BspNode { room: Some(room), ..n });
            assert forall|i: int| 0 <= i < self.nodes@.len() implies #[trigger] self.node_ok(i) by {
                if i != idx {
                    assert(prev.node_ok(i));
                    assert(self.nodes@[i] == before[i]);
                }
            }
            assert forall|j: int| 0 <= j < k + 1 implies (#[trigger] self.nodes@[leaves@[j] as int]).room is Some by {
                if leaves@[j] != idx {
                    assert(self.nodes@[leaves@[j] as int] == before[leaves@[j] as int]);
                }
            }
            k += 1;
        }
    }

    /// The first room found in the subtree at `idx`, searching left first.
    fn get_room(&self, idx: usize) -> (r: Option<Room>)
        requires
            self.wf(),
            idx < self.nodes@.len(),
        ensures
            r matches Some(room) ==> room_ok(room, self.width as int, self.height as int),
        decreases self.nodes@.len() - idx,
    {
        let n = self.nodes[idx];
        assert(self.node_ok(idx as int));
        if let Some(room) = n.room {
            return Some(room);
        }
        if let Some(l) = n.left {
            if let Some(r) = self.get_room(l) {
                return Some(r);
            }
        }
        if let Some(r) = n.right {
            return self.get_room(r);
        }
        None
    }

    /// Appends, children first, one corridor between each pair of sibling subtrees.
    pub(crate) fn collect_corridors(&self, idx: usize, corridors: &mut Vec<((i32, i32), (i32, i32))>)
        requires
            self.wf(),
            idx < self.nodes@.len(),
            forall|j: int| 0 <= j < old(corridors)@.len() ==> corridor_ok(
                #[trigger] old(corridors)@[j],
                self.width as int,
                self.height as int,
            ),
        ensures
            final(corridors)@.len() >= old(corridors)@.len(),
            forall|j: int| 0 <= j < final(corridors)@.len() ==> corridor_ok(
                #[trigger] final(corridors)@[j],
                self.width as int,
                self.height as int,
            ),
        decreases self.nodes@.len() - idx,
    {
        let n = self.nodes[idx];
        assert(self.node_ok(idx as int));
        if let (Some(l), Some(r)) = (n.left, n.right) {
            self.collect_corridors(l, corridors);
            self.collect_corridors(r, corridors);
            if let (Some(lr), Some(rr)) = (self.get_room(l), self.get_room(r)) {
                let c = (lr.center(), rr.center());
                let ghost before = corridors@;
                corridors.push(c);
                assert forall|j: int| 0 <= j < corridors@.len() implies corridor_ok(
                    #[trigger] corridors@[j],
                    self.width as int,
                    self.height as int,
                ) by {
                    if j < before.len() {
                        assert(corridors@[j] == before[j]);
                    }
                }
            }
        }
    }

    /// The rooms of the listed leaves, in list order.
    pub(crate) fn collect_rooms(&self, leaves: &Vec<usize>) -> (rooms: Vec<Room>)
        requires
            self.wf(),
            forall|j: int| 0 <= j < leaves@.len() ==> #[trigger] leaves@[j] < self.nodes@.len(),
            forall|j: int| 0 <= j < leaves@.len() ==> (#[trigger] self.nodes@[leaves@[j] as int]).room is Some,
        ensures
            rooms@.len() == leaves@.len(),
            forall|j: int| 0 <= j < rooms@.len() ==> Some(#[trigger] rooms@[j]) == self.nodes@[leaves@[j] as int].room,
            forall|j: int|
                0 <= j < rooms@.len() ==> room_ok(#[trigger] rooms@[j], self.width as int, self.height as int),
    {
        let mut rooms: Vec<Room> = Vec::new();
        let mut k: usize = 0;
        while k < leaves.len()
            invariant
                self.wf(),
                k <= leaves@.len(),
                forall|j: int| 0 <= j < leaves@.len() ==> #[trigger] leaves@[j] < self.nodes@.len(),
                forall|j: int| 0 <= j < leaves@.len() ==> (#[trigger] self.nodes@[leaves@[j] as int]).room is Some,
                rooms@.len() == k,
                forall|j: int| 0 <= j < rooms@.len() ==> Some(#[trigger] rooms@[j]) == self.nodes@[leaves@[j] as int].room,
                forall|j: int|
                    0 <= j < rooms@.len() ==> room_ok(#[trigger] rooms@[j], self.width as int, self.height as int),
            decreases leaves@.len() - k,
        {
            let id = leaves[k];
            assert(self.node_ok(id as int));
            assert(self.nodes@[leaves@[k as int] as int].room is Some);
            if let Some(room) = self.nodes[id].room {
                rooms.push(room);
            }
            k += 1;
        }
        rooms
    }
}

} // verus!
