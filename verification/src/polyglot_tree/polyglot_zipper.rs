//! The unified tree view: a cursor that walks the composed graph of
//! registered sources as one logical tree.
//!
//! The cursor holds one `(handle, node)` pair. Descending from a node
//! that carries a recorded use edge crosses transparently into the edge's
//! target tree; a stack of saved contexts, pushed on each cross-handle
//! descent and popped on the matching ascent, restores the originating
//! position exactly, regardless of traversal depth.

use vstd::prelude::*;

use crate::context::GlobalContext;
use crate::context::InternalHandle;
use crate::context::TopoOrder;
use crate::cst::Cst;

verus! {

/// The cursor interface over a composed tree: one current node, with
/// moves to its first child, parent, and next sibling, each reporting
/// whether the cursor moved.
pub trait PolyglotCursor {
    /// The representation of the current node.
    type N;

    /// Validity of the cursor, preserved by every move.
    spec fn inv(&self) -> bool;

    /// The current node.
    fn node(&self) -> Self::N
        requires
            self.inv(),
    ;

    /// Moves to the first child; reports whether the cursor moved.
    fn goto_first_child(&mut self) -> (moved: bool)
        requires
            old(self).inv(),
        ensures
            final(self).inv(),
    ;

    /// Moves to the parent; reports whether the cursor moved.
    fn goto_parent(&mut self) -> (moved: bool)
        requires
            old(self).inv(),
        ensures
            final(self).inv(),
    ;

    /// Moves to the next sibling; reports whether the cursor moved.
    fn goto_next_sibling(&mut self) -> (moved: bool)
        requires
            old(self).inv(),
        ensures
            final(self).inv(),
    ;
}

/// Whether a traversal event enters a subtree or leaves it.
#[derive(Debug, Clone, Copy, PartialEq, Eq, Structural)]
pub enum Direction {
    Up,
    Down,
}

impl Direction {
    /// Whether this event enters a subtree.
    pub fn is_down(&self) -> (r: bool)
        ensures
            r == (*self is Down),
    {
        match self {
            Direction::Down => true,
            Direction::Up => false,
        }
    }
}

/// A pre-order walk over one tree, yielding each node once.
///
/// The ghost `seen` set tracks the nodes already yielded; the traversal
/// invariant ties it to the pending stack and is what makes the walk
/// provably complete: when the stack empties, every node has been seen.
pub struct PreOrder<'tree> {
    pub cst: &'tree Cst,
    pub cur: usize,
    pub stack: Vec<usize>,
    pub seen: Ghost<Set<int>>,
}

impl<'tree> PreOrder<'tree> {
    /// Whether `c` is pending on the stack.
    pub open spec fn in_stack(self, c: int) -> bool {
        exists|s: int| 0 <= s < self.stack@.len() && #[trigger] self.stack@[s] == c as usize
    }

    /// The traversal invariant: the seen set holds valid nodes and is
    /// closed under parents; the stack holds distinct unseen nodes whose
    /// parents are seen; and every child of a seen node is seen or
    /// pending.
    pub open spec fn wf(self) -> bool {
        let n = self.cst.nodes@.len() as int;
        &&& self.cst.wf()
        &&& (self.cur as int) < n
        &&& self.seen@.finite()
        &&& self.seen@.contains(0)
        &&& self.seen@.contains(self.cur as int)
        &&& forall|x: int| #[trigger] self.seen@.contains(x) ==> 0 <= x < n
        &&& forall|x: int|
            #[trigger] self.seen@.contains(x) && x != 0 ==> self.seen@.contains(
                self.cst.nodes@[x].parent->0 as int,
            )
        &&& forall|s: int| 0 <= s < self.stack@.len() ==> (#[trigger] self.stack@[s] as int) < n
        &&& forall|s: int|
            0 <= s < self.stack@.len() ==> !self.seen@.contains(#[trigger] self.stack@[s] as int)
        &&& forall|s1: int, s2: int|
            0 <= s1 < s2 < self.stack@.len() ==> (#[trigger] self.stack@[s1]) != (
            #[trigger] self.stack@[s2])
        &&& forall|s: int|
            0 <= s < self.stack@.len() ==> ((#[trigger] self.cst.nodes@[self.stack@[s] as int].parent)
                matches Some(p) && self.seen@.contains(p as int))
        &&& forall|x: int, k: int|
            #[trigger] self.seen@.contains(x) && 0 <= k < self.cst.nodes@[x].children@.len()
                ==> self.seen@.contains(#[trigger] self.cst.nodes@[x].children@[k] as int)
                || self.in_stack(self.cst.nodes@[x].children@[k] as int)
    }

    /// A walk positioned at the root of the tree, which counts as seen.
    pub fn new(cst: &'tree Cst) -> (r: PreOrder<'tree>)
        requires
            cst.wf(),
        ensures
            r.cst == cst,
            r.cur == 0,
            r.seen@ =~= Set::<int>::empty().insert(0),
            r.wf(),
    {
        let mut stack: Vec<usize> = Vec::new();
        let count = cst.child_count(0);
        let mut k = count;
        while k > 0
            invariant
                k <= count,
                count == cst.nodes@[0].children@.len(),
                cst.wf(),
                stack@.len() == count - k,
                forall|s: int|
                    0 <= s < stack@.len() ==> (#[trigger] stack@[s]) == cst.nodes@[0].children@[
                    count - 1 - s],
            decreases k,
        {
            k = k - 1;
            stack.push(cst.child(0, k).unwrap());
        }
        let r = PreOrder { cst, cur: 0, stack, seen: Ghost(Set::empty().insert(0)) };
        proof {
            assert forall|x: int, kk: int|
                #[trigger] r.seen@.contains(x) && 0 <= kk < cst.nodes@[x].children@.len() implies r.seen@.contains(
                #[trigger] cst.nodes@[x].children@[kk] as int,
            ) || r.in_stack(cst.nodes@[x].children@[kk] as int) by {
                assert(x == 0);
                let s = count - 1 - kk;
                assert(r.stack@[s] == cst.nodes@[0].children@[kk]);
            };
        }
        r
    }

    /// The current node.
    pub fn node(&self) -> (r: usize)
        ensures
            r == self.cur,
    {
        self.cur
    }

    /// Advances to the next node in pre-order, if any; each advance
    /// yields a node not yielded before.
    #[verifier::loop_isolation(false)]
    pub fn next(&mut self) -> (r: Option<usize>)
        requires
            old(self).wf(),
        ensures
            final(self).wf(),
            final(self).cst == old(self).cst,
            match r {
                Some(n) => {
                    &&& old(self).stack@.len() > 0
                    &&& n == old(self).stack@.last()
                    &&& n == final(self).cur
                    &&& (n as int) < final(self).cst.nodes@.len()
                    &&& !old(self).seen@.contains(n as int)
                    &&& final(self).seen@ =~= old(self).seen@.insert(n as int)
                },
                None => {
                    &&& final(self).cur == old(self).cur
                    &&& final(self).stack@ == old(self).stack@
                    &&& final(self).seen@ == old(self).seen@
                    &&& old(self).stack@.len() == 0
                },
            },
    {
        let n = match self.stack.pop() {
            None => {
                return None;
            },
            Some(n) => n,
        };
        let ghost seen_old = self.seen@;
        let ghost stack_base = self.stack@;
        proof {
            self.seen@ = self.seen@.insert(n as int);
        }
        let count = self.cst.child_count(n);
        let mut k = count;
        while k > 0
            invariant
                k <= count,
                self.cst == old(self).cst,
                self.cur == old(self).cur,
                self.seen@ == seen_old.insert(n as int),
                self.stack@.len() == stack_base.len() + count - k,
                forall|s: int| 0 <= s < stack_base.len() ==> self.stack@[s] == stack_base[s],
                forall|s: int|
                    stack_base.len() <= s < self.stack@.len() ==> (#[trigger] self.stack@[s])
                        == self.cst.nodes@[n as int].children@[stack_base.len() + count - 1 - s],
            decreases k,
        {
            k = k - 1;
            let c = self.cst.child(n, k).unwrap();
            self.stack.push(c);
        }
        self.cur = n;
        proof {
            let base = stack_base.len() as int;
            let pre = *old(self);
            assert forall|s: int| 0 <= s < base implies (#[trigger] self.stack@[s])
                == pre.stack@[s] by {
                assert(self.stack@[s] == stack_base[s]);
                assert(stack_base == pre.stack@.subrange(0, pre.stack@.len() - 1));
                assert(stack_base[s] == pre.stack@[s]);
            };
            assert forall|s: int|
                0 <= s < self.stack@.len() implies !self.seen@.contains(
                #[trigger] self.stack@[s] as int,
            ) by {
                if s < base {
                    assert(self.stack@[s] == pre.stack@[s]);
                    assert(!seen_old.contains(self.stack@[s] as int));
                    assert(self.stack@[s] != n);
                } else {
                    let c = self.stack@[s] as int;
                    assert(c == self.cst.nodes@[n as int].children@[base + count - 1 - s] as int);
                    assert(self.cst.nodes@[c].parent == Some(n));
                    if seen_old.contains(c) {
                        assert(seen_old.contains(n as int));
                    }
                    assert(c > n as int);
                }
            };
            assert forall|s1: int, s2: int|
                0 <= s1 < s2 < self.stack@.len() implies (#[trigger] self.stack@[s1]) != (
            #[trigger] self.stack@[s2]) by {
                if s1 < base && s2 < base {
                    assert(pre.stack@[s1] != pre.stack@[s2]);
                } else if s1 < base && s2 >= base {
                    let c = self.stack@[s2] as int;
                    assert(self.cst.nodes@[c].parent == Some(n));
                    assert((self.cst.nodes@[pre.stack@[s1] as int].parent) matches Some(p)
                        && seen_old.contains(p as int));
                    if self.stack@[s1] == self.stack@[s2] {
                        assert(seen_old.contains(n as int));
                    }
                } else {
                    assert(self.stack@[s1] == self.cst.nodes@[n as int].children@[base + count - 1
                        - s1]);
                    assert(self.stack@[s2] == self.cst.nodes@[n as int].children@[base + count - 1
                        - s2]);
                }
            };
            assert forall|x: int, kk: int|
                #[trigger] self.seen@.contains(x) && 0 <= kk
                    < self.cst.nodes@[x].children@.len() implies self.seen@.contains(
                #[trigger] self.cst.nodes@[x].children@[kk] as int,
            ) || self.in_stack(self.cst.nodes@[x].children@[kk] as int) by {
                let c = self.cst.nodes@[x].children@[kk] as int;
                if x == n as int {
                    let s = base + count - 1 - kk;
                    assert(self.stack@[s] == self.cst.nodes@[n as int].children@[kk]);
                } else {
                    assert(seen_old.contains(x));
                    if !seen_old.contains(c) && !self.seen@.contains(c) {
                        assert(pre.in_stack(c));
                        let s = choose|s: int|
                            0 <= s < pre.stack@.len() && #[trigger] pre.stack@[s] == c as usize;
                        if s < base {
                            assert(self.stack@[s] == pre.stack@[s]);
                        } else {
                            assert(pre.stack@[s] == n);
                        }
                    }
                }
            };
        }
        Some(n)
    }

    /// Visits every remaining node and returns the nodes seen, the
    /// current node first: pairwise distinct nodes of the tree, each
    /// seen afterwards. Starting from a fresh walk this yields every
    /// node of the tree exactly once.
    #[verifier::loop_isolation(false)]
    pub fn visit(&mut self) -> (r: Vec<usize>)
        requires
            old(self).wf(),
        ensures
            final(self).wf(),
            final(self).cst == old(self).cst,
            r@.len() == final(self).seen@.len() - old(self).seen@.len() + 1,
            final(self).stack@.len() == 0,
            final(self).seen@ =~= Set::new(
                |x: int| 0 <= x < final(self).cst.nodes@.len(),
            ),
            r@.len() >= 1 && r@[0] == old(self).cur,
            forall|k: int|
                0 <= k < r@.len() ==> final(self).seen@.contains(#[trigger] r@[k] as int),
            forall|k1: int, k2: int|
                0 <= k1 < k2 < r@.len() ==> (#[trigger] r@[k1]) != (#[trigger] r@[k2]),
            forall|k: int|
                0 <= k < r@.len() ==> (#[trigger] r@[k] as int) < final(self).cst.nodes@.len(),
    {
        let total = self.cst.len();
        let mut nodes: Vec<usize> = Vec::new();
        nodes.push(self.cur);
        loop
            invariant
                self.wf(),
                self.cst == old(self).cst,
                self.cst.nodes@.len() == total,
                nodes@.len() == self.seen@.len() - old(self).seen@.len() + 1,
                old(self).seen@.len() <= self.seen@.len(),
                nodes@.len() >= 1 && nodes@[0] == old(self).cur,
                forall|k: int|
                    0 <= k < nodes@.len() ==> self.seen@.contains(#[trigger] nodes@[k] as int),
                forall|k1: int, k2: int|
                    0 <= k1 < k2 < nodes@.len() ==> (#[trigger] nodes@[k1]) != (
                    #[trigger] nodes@[k2]),
                forall|k: int|
                    0 <= k < nodes@.len() ==> (#[trigger] nodes@[k] as int)
                        < self.cst.nodes@.len(),
            decreases self.cst.nodes@.len() - self.seen@.len(),
        {
            proof {
                lemma_seen_bounded(*self);
            }
            let ghost len_before = self.seen@.len();
            let ghost seen_before = self.seen@;
            let ghost nodes_before = nodes@;
            match self.next() {
                None => {
                    proof {
                        lemma_stack_empty_means_all_seen(*self);
                    }
                    return nodes;
                },
                Some(n) => {
                    proof {
                        lemma_seen_bounded(*self);
                        assert(self.seen@.len() == len_before + 1);
                    }
                    nodes.push(n);
                    proof {
                        assert forall|k1: int, k2: int|
                            0 <= k1 < k2 < nodes@.len() implies (#[trigger] nodes@[k1]) != (
                        #[trigger] nodes@[k2]) by {
                            if k2 + 1 == nodes@.len() {
                                assert(nodes@[k1] == nodes_before[k1]);
                                assert(seen_before.contains(nodes_before[k1] as int));
                                assert(!seen_before.contains(n as int));
                            } else {
                                assert(nodes@[k1] == nodes_before[k1]);
                                assert(nodes@[k2] == nodes_before[k2]);
                            }
                        };
                    }
                },
            }
        }
    }
}

/// The seen set of a valid walk has at most as many elements as the tree
/// has nodes.
pub proof fn lemma_seen_bounded(w: PreOrder)
    requires
        w.wf(),
    ensures
        w.seen@.len() <= w.cst.nodes@.len(),
        w.stack@.len() > 0 ==> w.seen@.len() < w.cst.nodes@.len(),
{
    let n = w.cst.nodes@.len() as int;
    vstd::set_lib::lemma_int_range(0, n);
    vstd::set_lib::lemma_len_subset(w.seen@, vstd::set_lib::set_int_range(0, n));
    if w.stack@.len() > 0 {
        let c = w.stack@[0] as int;
        assert(!w.seen@.contains(c));
        assert(w.seen@.insert(c).subset_of(vstd::set_lib::set_int_range(0, n)));
        vstd::set_lib::lemma_len_subset(w.seen@.insert(c), vstd::set_lib::set_int_range(0, n));
    }
}

/// When the pending stack is empty, the seen set is closed under
/// children; with the root seen, every node of the tree is seen.
pub proof fn lemma_stack_empty_means_all_seen(w: PreOrder)
    requires
        w.wf(),
        w.stack@.len() == 0,
        w.cst.nodes@.len() <= usize::MAX + 1,
    ensures
        w.seen@ =~= Set::new(|x: int| 0 <= x < w.cst.nodes@.len()),
{
    assert forall|x: int| 0 <= x < w.cst.nodes@.len() implies w.seen@.contains(x) by {
        lemma_all_seen_below(w, x);
    };
}

/// With nothing pending, each node is seen, by induction along its
/// chain of parents, which have strictly smaller indices.
proof fn lemma_all_seen_below(w: PreOrder, j: int)
    requires
        w.wf(),
        w.stack@.len() == 0,
        0 <= j < w.cst.nodes@.len(),
        j <= usize::MAX,
    ensures
        w.seen@.contains(j),
    decreases j,
{
    if j > 0 {
        let p = w.cst.nodes@[j].parent->0 as int;
        lemma_all_seen_below(w, p);
        assert(crate::cst::listed_under(w.cst.nodes@, p, j));
        let k = choose|k: int|
            0 <= k < w.cst.nodes@[p].children@.len() && #[trigger] w.cst.nodes@[p].children@[k]
                == j as usize;
        assert(w.seen@.contains(w.cst.nodes@[p].children@[k] as int) || w.in_stack(
            w.cst.nodes@[p].children@[k] as int,
        ));
    }
}

/// A walk over one tree that yields an entering and a leaving event for
/// each node.
pub struct PreOrder2<'tree> {
    pub cst: &'tree Cst,
    pub stack: Vec<(usize, bool)>,
}

impl<'tree> PreOrder2<'tree> {
    /// A walk positioned before the root of the tree.
    pub fn new(cst: &'tree Cst) -> (r: PreOrder2<'tree>)
        requires
            cst.wf(),
        ensures
            r.cst == cst,
            r.wf(),
            r.stack@ =~= Seq::<(usize, bool)>::empty().push((0, false)),
    {
        let mut stack: Vec<(usize, bool)> = Vec::new();
        stack.push((0, false));
        PreOrder2 { cst, stack }
    }

    /// Validity: all pending nodes are in the tree.
    pub open spec fn wf(self) -> bool {
        &&& self.cst.wf()
        &&& forall|s: int|
            0 <= s < self.stack@.len() ==> ((#[trigger] self.stack@[s]).0 as int)
                < self.cst.nodes@.len()
    }

    /// Yields the next traversal event: `Down` when entering the node on
    /// top of the pending stack — which re-enters the stack as left, its
    /// children above it — and `Up` when leaving it.
    #[verifier::loop_isolation(false)]
    pub fn next(&mut self) -> (r: Option<(Direction, usize)>)
        requires
            old(self).wf(),
        ensures
            final(self).wf(),
            final(self).cst == old(self).cst,
            match r {
                None => old(self).stack@.len() == 0 && final(self).stack@ == old(self).stack@,
                Some(e) => {
                    &&& old(self).stack@.len() > 0
                    &&& (e.1 as int) < final(self).cst.nodes@.len()
                    &&& e.1 == (old(self).stack@.last()).0
                    &&& ((e.0 is Up) <==> (old(self).stack@.last()).1)
                    &&& (e.0 is Up) ==> final(self).stack@ == old(self).stack@.drop_last()
                    &&& (e.0 is Down) ==> {
                        let base = old(self).stack@.drop_last().push((e.1, true));
                        let count = final(self).cst.nodes@[e.1 as int].children@.len() as int;
                        &&& final(self).stack@.len() == base.len() + count
                        &&& (forall|s: int|
                            0 <= s < base.len() ==> final(self).stack@[s] == base[s])
                        &&& (forall|s: int|
                            base.len() <= s < final(self).stack@.len()
                                ==> (#[trigger] final(self).stack@[s]) == (
                            final(self).cst.nodes@[e.1 as int].children@[base.len() + count - 1
                                - s],
                            false,
                        ))
                    }
                },
            },
    {
        let (n, entered) = match self.stack.pop() {
            None => {
                return None;
            },
            Some(e) => e,
        };
        if entered {
            return Some((Direction::Up, n));
        }
        self.stack.push((n, true));
        let ghost base = self.stack@;
        let count = self.cst.child_count(n);
        let mut k = count;
        while k > 0
            invariant
                k <= count,
                self.cst == old(self).cst,
                (n as int) < self.cst.nodes@.len(),
                count == self.cst.nodes@[n as int].children@.len(),
                self.stack@.len() == base.len() + count - k,
                forall|s: int| 0 <= s < base.len() ==> self.stack@[s] == base[s],
                forall|s: int|
                    base.len() <= s < self.stack@.len() ==> (#[trigger] self.stack@[s]) == (
                    self.cst.nodes@[n as int].children@[base.len() + count - 1 - s],
                    false,
                ),
            decreases k,
        {
            k = k - 1;
            let c = self.cst.child(n, k).unwrap();
            self.stack.push((c, false));
        }
        proof {
            assert forall|s: int|
                0 <= s < self.stack@.len() implies ((#[trigger] self.stack@[s]).0 as int)
                < self.cst.nodes@.len() by {
                if s < base.len() {
                    assert(self.stack@[s] == base[s]);
                    if s < base.len() - 1 {
                        assert(base[s] == old(self).stack@[s]);
                    }
                }
            };
        }
        Some((Direction::Down, n))
    }

    /// After an entering event, drops the pending subtree of the entered
    /// node, so that the walk continues behind it.
    pub fn skip_subtree(&mut self)
        requires
            old(self).wf(),
        ensures
            final(self).wf(),
            final(self).cst == old(self).cst,
    {
        loop
            invariant
                self.wf(),
                self.cst == old(self).cst,
            decreases self.stack@.len(),
        {
            let do_pop = match self.stack.last() {
                Some(e) => !e.1,
                None => false,
            };
            if !do_pop {
                break ;
            }
            self.stack.pop();
        }
    }
}

/// The saved context of one cross-handle descent: the owning handle and
/// the call node the cursor stood on.
pub type SavedContext = (usize, usize);

/// The cursor state as a value: current handle, current node, and the
/// stack of saved contexts.
pub type ZipperState = (usize, usize, Seq<SavedContext>);

/// The state after a cross-handle descent into `target`: the old
/// position is saved and the cursor stands at the target's root.
pub open spec fn descend_state(s: ZipperState, target: usize) -> ZipperState {
    (target, 0, s.2.push((s.0, s.1)))
}

/// The state after ascending past the boundary of a cross-handle
/// subtree: the most recently saved position, restored.
pub open spec fn ascend_state(s: ZipperState) -> ZipperState {
    ((s.2.last()).0, (s.2.last()).1, s.2.drop_last())
}

/// Law (zipper crossing): ascending right after a cross-handle descent
/// restores the originating handle, node, and saved contexts exactly,
/// regardless of traversal depth.
pub proof fn lemma_cross_round_trip(s: ZipperState, target: usize)
    ensures
        ascend_state(descend_state(s, target)) == s,
{
    assert(s.2.push((s.0, s.1)).drop_last() =~= s.2);
}

/// Whether `s` is the entry right after `i` in `i`'s parent's child
/// list.
pub open spec fn sibling_step(cst: Cst, i: int, s: int) -> bool {
    cst.nodes@[i].parent matches Some(p) && exists|k: int|
        0 <= k < (cst.nodes@[p as int].children@).len() - 1 && (#[trigger] (
        cst.nodes@[p as int].children@)[k]) == i as usize && (cst.nodes@[p as int].children@)[k
            + 1] == s as usize
}

/// Whether `i` has no next sibling: it is the root, or the last entry of
/// its parent's child list.
pub open spec fn no_next_sibling(cst: Cst, i: int) -> bool {
    cst.nodes@[i].parent matches Some(p) ==> (cst.nodes@[p as int].children@).last() == i as usize
}

/// Whether `s` is the entry right before `i` in `i`'s parent's child
/// list.
pub open spec fn sibling_step_back(cst: Cst, i: int, s: int) -> bool {
    cst.nodes@[i].parent matches Some(p) && exists|k: int|
        1 <= k < (cst.nodes@[p as int].children@).len() && (#[trigger] (
        cst.nodes@[p as int].children@)[k]) == i as usize && (cst.nodes@[p as int].children@)[k
            - 1] == s as usize
}

/// Whether `i` has no previous sibling: it is the root, or the first
/// entry of its parent's child list.
pub open spec fn no_prev_sibling(cst: Cst, i: int) -> bool {
    cst.nodes@[i].parent matches Some(p) ==> (cst.nodes@[p as int].children@)[0] == i as usize
}

/// A cursor over the composed graph of registered sources.
pub struct PolyglotZipper<'a> {
    pub ctx: &'a GlobalContext,
    pub handle: usize,
    pub node: usize,
    pub stack: Vec<SavedContext>,
}

/// The first use edge of entry `h` recorded at document position `pos`,
/// if any.
pub open spec fn edge_from(
    edges: Seq<(TopoOrder, InternalHandle)>,
    pos: usize,
    e: int,
) -> Option<int>
    decreases edges.len() - e,
{
    if e < 0 || e >= edges.len() {
        None
    } else if ((edges[e]).0).0 == pos {
        Some(((edges[e]).1).0 as int)
    } else {
        edge_from(edges, pos, e + 1)
    }
}

impl<'a> PolyglotZipper<'a> {
    /// The tree of entry `h`, which must be present.
    pub open spec fn cst_of(self, h: int) -> Cst {
        (self.ctx.sources@[h]).1.cst->0
    }

    /// Whether entry `h` holds a tree.
    pub open spec fn has_cst(self, h: int) -> bool {
        0 <= h < self.ctx.sources@.len() && (self.ctx.sources@[h]).1.cst is Some
    }

    /// Validity: the registry is well-formed, the current position names
    /// a node of a present tree, and so does every saved context.
    pub open spec fn wf(self) -> bool {
        &&& self.ctx.wf()
        &&& self.has_cst(self.handle as int)
        &&& (self.node as int) < self.cst_of(self.handle as int).nodes@.len()
        &&& forall|s: int|
            0 <= s < self.stack@.len() ==> self.has_cst((#[trigger] self.stack@[s]).0 as int)
                && ((self.stack@[s]).1 as int) < self.cst_of(
                (self.stack@[s]).0 as int,
            ).nodes@.len()
    }

    /// The cursor state as a value.
    pub open spec fn state(self) -> ZipperState {
        (self.handle, self.node, self.stack@)
    }

    /// Whether the current node carries a recorded use edge: a resolved
    /// polyglot eval call site.
    pub open spec fn at_eval_edge(self) -> bool {
        edge_from(((self.ctx.sources@[self.handle as int]).2)@, self.node, 0) is Some
    }

    /// Whether the current node classifies as a polyglot import call
    /// under the source's language.
    pub open spec fn at_import(self) -> bool {
        crate::building::classify_any(
            self.cst_of(self.handle as int),
            (self.ctx.sources@[self.handle as int]).1.language,
            self.node as int,
        ) matches Some(u) && u is Import
    }

    /// Whether the current node classifies as a polyglot export call
    /// under the source's language.
    pub open spec fn at_export(self) -> bool {
        crate::building::classify_def_any(
            self.cst_of(self.handle as int),
            (self.ctx.sources@[self.handle as int]).1.language,
            self.node as int,
        ) is Some
    }

    /// The tree the cursor currently stands in.
    fn current_cst(&self) -> (r: &Cst)
        requires
            self.wf(),
        ensures
            *r == self.cst_of(self.handle as int),
            r.wf(),
    {
        match &self.ctx.sources[self.handle].1.cst {
            Some(c) => c,
            None => vstd::pervasive::unreached(),
        }
    }

    /// A cursor at the root node of the registry's root source.
    pub fn new(ctx: &'a GlobalContext) -> (r: Option<PolyglotZipper<'a>>)
        requires
            ctx.wf(),
        ensures
            match r {
                Some(z) => z.wf() && z.ctx == ctx && z.handle == 0 && z.node == 0 && z.stack@.len()
                    == 0,
                None => (ctx.sources@[0]).1.cst is None,
            },
    {
        match &ctx.sources[0].1.cst {
            None => None,
            Some(c) => {
                if c.len() == 0 {
                    return None;
                }
                Some(PolyglotZipper { ctx, handle: 0, node: 0, stack: Vec::new() })
            },
        }
    }

    /// The recorded use edge at the current node, if any: the handle of
    /// the source that the call site at this node resolves to.
    pub fn edge_here(&self) -> (r: Option<usize>)
        requires
            self.wf(),
        ensures
            match r {
                Some(t) => edge_from(
                    ((self.ctx.sources@[self.handle as int]).2)@,
                    self.node,
                    0,
                ) == Some(t as int) && (t as int) < self.ctx.sources@.len(),
                None => edge_from(
                    ((self.ctx.sources@[self.handle as int]).2)@,
                    self.node,
                    0,
                ) is None,
            },
    {
        let edges = &self.ctx.sources[self.handle].2;
        let mut e: usize = 0;
        while e < edges.len()
            invariant
                e <= edges@.len(),
                self.wf(),
                edges == (self.ctx.sources@[self.handle as int]).2,
                edge_from(edges@, self.node, 0) == edge_from(edges@, self.node, e as int),
            decreases edges@.len() - e,
        {
            if edges[e].0.0 == self.node {
                return Some(edges[e].1.0);
            }
            e = e + 1;
        }
        None
    }

    /// Whether the current node is a resolved polyglot eval call site: a
    /// node with a recorded use edge.
    pub fn is_polyglot_eval_call(&self) -> (r: bool)
        requires
            self.wf(),
        ensures
            r == self.at_eval_edge(),
    {
        match self.edge_here() {
            Some(_) => true,
            None => false,
        }
    }

    /// The grammar kind of the current node; recognized polyglot call
    /// sites report the uniform kinds `"polyglot_eval_call"` (a resolved
    /// use edge), `"polyglot_import_call"` and `"polyglot_export_call"`
    /// instead of their literal syntax, in that order of precedence.
    pub fn kind(&self) -> (r: String)
        requires
            self.wf(),
        ensures
            self.at_eval_edge() ==> r@ == "polyglot_eval_call"@,
            !self.at_eval_edge() && self.at_import() ==> r@ == "polyglot_import_call"@,
            !self.at_eval_edge() && !self.at_import() && self.at_export() ==> r@
                == "polyglot_export_call"@,
            !self.at_eval_edge() && !self.at_import() && !self.at_export() ==> r@ == self.cst_of(
                self.handle as int,
            ).nodes@[self.node as int].kind@,
    {
        if self.is_polyglot_eval_call() {
            return "polyglot_eval_call".to_owned();
        }
        if self.is_polyglot_import_call() {
            return "polyglot_import_call".to_owned();
        }
        if self.is_polyglot_export_call() {
            return "polyglot_export_call".to_owned();
        }
        self.current_cst().kind(self.node).clone()
    }

    /// The source text of the current node.
    pub fn code(&self) -> (r: String)
        requires
            self.wf(),
        ensures
            r@ == self.cst_of(self.handle as int).nodes@[self.node as int].text@,
    {
        self.current_cst().text(self.node).clone()
    }

    /// The first byte of the current node in its source.
    pub fn start_position(&self) -> (r: usize)
        requires
            self.wf(),
        ensures
            r == self.cst_of(self.handle as int).nodes@[self.node as int].start,
    {
        let c = self.current_cst();
        c.nodes[self.node].start
    }

    /// One past the last byte of the current node in its source.
    pub fn end_position(&self) -> (r: usize)
        requires
            self.wf(),
        ensures
            r == self.cst_of(self.handle as int).nodes@[self.node as int].end,
    {
        let c = self.current_cst();
        c.nodes[self.node].end
    }

    /// The language of the source the cursor currently stands in.
    pub fn get_lang(&self) -> (r: crate::Language)
        requires
            self.wf(),
        ensures
            r == (self.ctx.sources@[self.handle as int]).1.language,
    {
        self.ctx.sources[self.handle].1.language
    }

    /// Moves to the first child. At a resolved call site whose target
    /// tree is present, this crosses transparently: the old position is
    /// saved and the cursor moves to the root of the target tree.
    /// Reports whether the cursor moved.
    pub fn goto_first_child(&mut self) -> (r: bool)
        requires
            old(self).wf(),
        ensures
            final(self).wf(),
            final(self).ctx == old(self).ctx,
            ({
                let edge = edge_from(
                    ((old(self).ctx.sources@[old(self).handle as int]).2)@,
                    old(self).node,
                    0,
                );
                match edge {
                    Some(t) => {
                        if old(self).has_cst(t) && (old(self).cst_of(t).nodes@.len() > 0) {
                            r && final(self).state() == descend_state(old(self).state(), t as usize)
                        } else {
                            !r && *final(self) == *old(self)
                        }
                    },
                    None => {
                        if old(self).cst_of(old(self).handle as int).nodes@[old(
                            self,
                        ).node as int].children@.len() > 0 {
                            r && final(self).handle == old(self).handle && final(self).stack@ == old(
                                self,
                            ).stack@ && final(self).node == old(self).cst_of(
                                old(self).handle as int,
                            ).nodes@[old(self).node as int].children@[0]
                        } else {
                            !r && *final(self) == *old(self)
                        }
                    },
                }
            }),
    {
        match self.edge_here() {
            Some(t) => {
                let has_tree = match &self.ctx.sources[t].1.cst {
                    Some(c) => c.len() > 0,
                    None => false,
                };
                if has_tree {
                    self.stack.push((self.handle, self.node));
                    self.handle = t;
                    self.node = 0;
                    true
                } else {
                    false
                }
            },
            None => {
                let c = self.current_cst().child(self.node, 0);
                match c {
                    Some(ch) => {
                        self.node = ch;
                        true
                    },
                    None => false,
                }
            },
        }
    }

    /// Moves to the next sibling within the current tree: the entry
    /// right after the current node in its parent's child list. Reports
    /// whether the cursor moved; it does not move when the node is its
    /// parent's last child or the root.
    pub fn goto_next_sibling(&mut self) -> (r: bool)
        requires
            old(self).wf(),
        ensures
            final(self).wf(),
            final(self).ctx == old(self).ctx,
            final(self).handle == old(self).handle,
            final(self).stack@ == old(self).stack@,
            r ==> sibling_step(
                old(self).cst_of(old(self).handle as int),
                old(self).node as int,
                final(self).node as int,
            ),
            !r ==> final(self).node == old(self).node && no_next_sibling(
                old(self).cst_of(old(self).handle as int),
                old(self).node as int,
            ),
    {
        let s = self.current_cst().next_sibling(self.node);
        match s {
            Some(n) => {
                self.node = n;
                true
            },
            None => false,
        }
    }

    /// Moves to the parent. Ascending past the root of a cross-handle
    /// subtree restores the saved originating position instead. Reports
    /// whether the cursor moved.
    pub fn goto_parent(&mut self) -> (r: bool)
        requires
            old(self).wf(),
        ensures
            final(self).wf(),
            final(self).ctx == old(self).ctx,
            ({
                let parent = old(self).cst_of(old(self).handle as int).nodes@[old(
                    self,
                ).node as int].parent;
                match parent {
                    Some(p) => r && final(self).handle == old(self).handle && final(self).stack@
                        == old(self).stack@ && final(self).node == p,
                    None => {
                        if old(self).stack@.len() > 0 {
                            r && final(self).state() == ascend_state(old(self).state())
                        } else {
                            !r && final(self).handle == old(self).handle && final(self).node
                                == old(self).node && final(self).stack@ == old(self).stack@
                        }
                    },
                }
            }),
    {
        let p = self.current_cst().parent(self.node);
        match p {
            Some(p) => {
                self.node = p;
                true
            },
            None => {
                match self.stack.pop() {
                    Some(saved) => {
                        self.handle = saved.0;
                        self.node = saved.1;
                        true
                    },
                    None => false,
                }
            },
        }
    }
}

/// Copies a stack of saved contexts.
fn copy_saved(v: &Vec<SavedContext>) -> (r: Vec<SavedContext>)
    ensures
        r@ == v@,
{
    let mut r: Vec<SavedContext> = Vec::new();
    let mut i: usize = 0;
    while i < v.len()
        invariant
            i <= v@.len(),
            r@ == v@.take(i as int),
        decreases v@.len() - i,
    {
        r.push(v[i]);
        i = i + 1;
    }
    proof {
        assert(r@ =~= v@);
    }
    r
}

impl<'a> PolyglotZipper<'a> {
    /// A copy of this cursor at the same position.
    pub fn duplicate(&self) -> (r: PolyglotZipper<'a>)
        ensures
            r.ctx == self.ctx,
            r.handle == self.handle,
            r.node == self.node,
            r.stack@ == self.stack@,
            self.wf() ==> r.wf(),
    {
        PolyglotZipper {
            ctx: self.ctx,
            handle: self.handle,
            node: self.node,
            stack: copy_saved(&self.stack),
        }
    }

    /// A cursor at this node's first child, if it has one; at a resolved
    /// call site whose target tree is present this crosses into the
    /// target tree instead.
    pub fn first_child(&self) -> (r: Option<PolyglotZipper<'a>>)
        requires
            self.wf(),
        ensures
            r matches Some(z) ==> z.wf() && z.ctx == self.ctx,
            ({
                let edge = edge_from(
                    ((self.ctx.sources@[self.handle as int]).2)@,
                    self.node,
                    0,
                );
                match edge {
                    Some(t) => {
                        if self.has_cst(t) && self.cst_of(t).nodes@.len() > 0 {
                            r matches Some(z) && z.state() == descend_state(
                                self.state(),
                                t as usize,
                            )
                        } else {
                            r is None
                        }
                    },
                    None => {
                        if self.cst_of(self.handle as int).nodes@[self.node as int].children@.len()
                            > 0 {
                            r matches Some(z) && z.handle == self.handle && z.stack@ == self.stack@
                                && z.node == self.cst_of(
                                self.handle as int,
                            ).nodes@[self.node as int].children@[0]
                        } else {
                            r is None
                        }
                    },
                }
            }),
    {
        let mut z = self.duplicate();
        if z.goto_first_child() {
            Some(z)
        } else {
            None
        }
    }

    /// A cursor at this node's `i`-th child; index 0 behaves like
    /// [`Self::first_child`] and may cross into a target tree, a higher
    /// index names a literal syntax child.
    pub fn child(&self, i: usize) -> (r: Option<PolyglotZipper<'a>>)
        requires
            self.wf(),
        ensures
            r matches Some(z) ==> z.wf() && z.ctx == self.ctx,
            i != 0 ==> match r {
                Some(z) => z.handle == self.handle && z.stack@ == self.stack@ && (i as int)
                    < self.cst_of(self.handle as int).nodes@[self.node as int].children@.len()
                    && z.node == self.cst_of(
                    self.handle as int,
                ).nodes@[self.node as int].children@[i as int],
                None => (i as int) >= self.cst_of(
                    self.handle as int,
                ).nodes@[self.node as int].children@.len(),
            },
            i == 0 ==> ({
                let edge = edge_from(
                    ((self.ctx.sources@[self.handle as int]).2)@,
                    self.node,
                    0,
                );
                match edge {
                    Some(t) => {
                        if self.has_cst(t) && self.cst_of(t).nodes@.len() > 0 {
                            r matches Some(z) && z.state() == descend_state(
                                self.state(),
                                t as usize,
                            )
                        } else {
                            r is None
                        }
                    },
                    None => {
                        if self.cst_of(self.handle as int).nodes@[self.node as int].children@.len()
                            > 0 {
                            r matches Some(z) && z.handle == self.handle && z.stack@ == self.stack@
                                && z.node == self.cst_of(
                                self.handle as int,
                            ).nodes@[self.node as int].children@[0]
                        } else {
                            r is None
                        }
                    },
                }
            }),
    {
        if i == 0 {
            return self.first_child();
        }
        let c = self.current_cst().child(self.node, i);
        match c {
            None => None,
            Some(ch) => {
                let mut z = self.duplicate();
                z.node = ch;
                Some(z)
            },
        }
    }

    /// A cursor at the entry right after this node in its parent's child
    /// list, if there is one.
    pub fn next_sibling(&self) -> (r: Option<PolyglotZipper<'a>>)
        requires
            self.wf(),
        ensures
            match r {
                Some(z) => z.wf() && z.ctx == self.ctx && z.handle == self.handle && z.stack@
                    == self.stack@ && sibling_step(
                    self.cst_of(self.handle as int),
                    self.node as int,
                    z.node as int,
                ),
                None => no_next_sibling(self.cst_of(self.handle as int), self.node as int),
            },
    {
        let s = self.current_cst().next_sibling(self.node);
        match s {
            None => None,
            Some(n) => {
                let mut z = self.duplicate();
                z.node = n;
                Some(z)
            },
        }
    }

    /// A cursor at the entry right before this node in its parent's
    /// child list, if there is one.
    pub fn prev_sibling(&self) -> (r: Option<PolyglotZipper<'a>>)
        requires
            self.wf(),
        ensures
            match r {
                Some(z) => z.wf() && z.ctx == self.ctx && z.handle == self.handle && z.stack@
                    == self.stack@ && sibling_step_back(
                    self.cst_of(self.handle as int),
                    self.node as int,
                    z.node as int,
                ),
                None => no_prev_sibling(self.cst_of(self.handle as int), self.node as int),
            },
    {
        let s = self.current_cst().prev_sibling(self.node);
        match s {
            None => None,
            Some(n) => {
                let mut z = self.duplicate();
                z.node = n;
                Some(z)
            },
        }
    }

    /// Whether the current node is a polyglot import call site, by the
    /// conventions of the source's language.
    pub fn is_polyglot_import_call(&self) -> (r: bool)
        requires
            self.wf(),
        ensures
            r == self.at_import(),
    {
        let lang = self.get_lang();
        match crate::building::try_classify(self.current_cst(), lang, self.node) {
            Some(crate::building::UnSolvedPolyglotUse::Import { .. }) => true,
            _ => false,
        }
    }

    /// Whether the current node is a polyglot export call site, by the
    /// conventions of the source's language.
    pub fn is_polyglot_export_call(&self) -> (r: bool)
        requires
            self.wf(),
        ensures
            r == self.at_export(),
    {
        let lang = self.get_lang();
        match crate::building::try_classify_def(self.current_cst(), lang, self.node) {
            Some(_) => true,
            None => false,
        }
    }

    /// The name bound by the import or export call at the current node,
    /// with its quotes stripped; an error if the node is neither.
    pub fn get_binding_name(&self) -> (r: Result<String, crate::util::InvalidArgumentError>)
        requires
            self.wf(),
        ensures
            r is Err <==> !self.at_import() && !self.at_export(),
            ({
                let cst = self.cst_of(self.handle as int);
                let lang = (self.ctx.sources@[self.handle as int]).1.language;
                match r {
                    Ok(name) => {
                        if self.at_import() {
                            crate::building::classify_any(cst, lang, self.node as int)
                                matches Some(u) && (u matches
                            crate::building::UnSolvedPolyglotUse::Import { name: n, .. } && name@
                                == crate::util::strip_quotes_spec(cst.nodes@[n as int].text@))
                        } else {
                            crate::building::classify_def_any(cst, lang, self.node as int)
                                matches Some(s) && name@ == s.0
                        }
                    },
                    Err(_) => true,
                }
            }),
    {
        let lang = self.get_lang();
        let cst = self.current_cst();
        match crate::building::try_classify(cst, lang, self.node) {
            Some(crate::building::UnSolvedPolyglotUse::Import { call: _, name }) => Ok(
                crate::util::strip_quotes(cst.text(name).as_str()),
            ),
            _ => {
                match crate::building::try_classify_def(cst, lang, self.node) {
                    Some(crate::building::PolyglotDef::ExportValue { name, value: _ }) => Ok(name),
                    None => Err(crate::util::InvalidArgumentError),
                }
            },
        }
    }
}

impl<'a> PolyglotCursor for PolyglotZipper<'a> {
    type N = usize;

    open spec fn inv(&self) -> bool {
        self.wf()
    }

    fn node(&self) -> usize {
        self.node
    }

    fn goto_first_child(&mut self) -> bool {
        PolyglotZipper::goto_first_child(self)
    }

    fn goto_parent(&mut self) -> bool {
        PolyglotZipper::goto_parent(self)
    }

    fn goto_next_sibling(&mut self) -> bool {
        PolyglotZipper::goto_next_sibling(self)
    }
}

} // verus!
