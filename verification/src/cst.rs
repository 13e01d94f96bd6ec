//! The crate's own concrete-syntax-tree representation: a flat arena of
//! nodes addressed by index.
//!
//! Nodes are stored in the order in which the parser visited them
//! (pre-order), so the index of a node doubles as its document position.
//! Every child index is strictly greater than its parent's index, which
//! rules out cycles and makes upward walks terminate.

use vstd::prelude::*;

verus! {

/// One node of a concrete syntax tree: its grammar kind, its source text,
/// its byte range in the source, and links to its neighbours.
#[derive(Debug)]
pub struct CstNode {
    /// The grammar's name for this node, e.g. `"method_invocation"`.
    pub kind: String,
    /// The slice of the source text covered by this node.
    pub text: String,
    /// First byte of the node in the source.
    pub start: usize,
    /// One past the last byte of the node in the source.
    pub end: usize,
    /// Indices of the children, in document order.
    pub children: Vec<usize>,
    /// Index of the parent; `None` only for the root.
    pub parent: Option<usize>,
}

/// A concrete syntax tree as a flat arena; the root is the node at index 0.
#[derive(Debug)]
pub struct Cst {
    pub nodes: Vec<CstNode>,
}

/// Whether `j` occurs in the child list of entry `p` of the arena.
pub open spec fn listed_under(nodes: Seq<CstNode>, p: int, j: int) -> bool {
    exists|k: int|
        0 <= k < nodes[p].children@.len() && #[trigger] nodes[p].children@[k] == j as usize
}

/// Structural well-formedness of an arena of nodes: a parentless node only
/// at index 0, parents strictly before their children, child lists strictly
/// increasing, and parent and child links agreeing.
pub open spec fn arena_wf(nodes: Seq<CstNode>) -> bool {
    let n = nodes.len() as int;
    &&& (n >= 1 ==> nodes[0].parent is None)
    &&& forall|j: int| 1 <= j < n ==> ((#[trigger] nodes[j].parent) matches Some(p) && p < j)
    &&& forall|i: int, k: int|
        0 <= i < n && 0 <= k < nodes[i].children@.len() ==> i < #[trigger] nodes[i].children@[k]
            < n
    &&& forall|i: int, k1: int, k2: int|
        0 <= i < n && 0 <= k1 < k2 < nodes[i].children@.len()
            ==> #[trigger] nodes[i].children@[k1] < #[trigger] nodes[i].children@[k2]
    &&& forall|i: int, k: int|
        0 <= i < n && 0 <= k < nodes[i].children@.len()
            ==> (#[trigger] nodes[nodes[i].children@[k] as int].parent) == Some(i as usize)
    &&& forall|j: int| 1 <= j < n ==> #[trigger] listed_under(nodes, nodes[j].parent->0 as int, j)
}

impl Cst {
    /// Well-formedness: the arena is nonempty (node 0 is the root) and its
    /// links are consistent.
    pub open spec fn wf(self) -> bool {
        self.nodes@.len() >= 1 && arena_wf(self.nodes@)
    }

    /// Number of nodes in the tree.
    pub fn len(&self) -> (r: usize)
        ensures
            r == self.nodes@.len(),
    {
        self.nodes.len()
    }

    /// Whether `i` is a valid node index.
    pub open spec fn valid(self, i: int) -> bool {
        0 <= i < self.nodes@.len()
    }

    /// The grammar kind of node `i`.
    pub fn kind(&self, i: usize) -> (r: &String)
        requires
            self.valid(i as int),
        ensures
            r == self.nodes@[i as int].kind,
    {
        &self.nodes[i].kind
    }

    /// The source text covered by node `i`.
    pub fn text(&self, i: usize) -> (r: &String)
        requires
            self.valid(i as int),
        ensures
            r == self.nodes@[i as int].text,
    {
        &self.nodes[i].text
    }

    /// The number of children of node `i`.
    pub fn child_count(&self, i: usize) -> (r: usize)
        requires
            self.valid(i as int),
        ensures
            r == self.nodes@[i as int].children@.len(),
    {
        self.nodes[i].children.len()
    }

    /// The `k`-th child of node `i`, if any.
    pub fn child(&self, i: usize, k: usize) -> (r: Option<usize>)
        requires
            self.valid(i as int),
        ensures
            match r {
                Some(c) => k < self.nodes@[i as int].children@.len() && c == self.nodes@[i as int].children@[k as int],
                None => k >= self.nodes@[i as int].children@.len(),
            },
    {
        if k < self.nodes[i].children.len() {
            Some(self.nodes[i].children[k])
        } else {
            None
        }
    }

    /// The parent of node `i`, if any.
    pub fn parent(&self, i: usize) -> (r: Option<usize>)
        requires
            self.valid(i as int),
        ensures
            r == self.nodes@[i as int].parent,
    {
        self.nodes[i].parent
    }

    /// The next sibling of node `i`: the entry right after `i` in its
    /// parent's child list, if both exist.
    pub fn next_sibling(&self, i: usize) -> (r: Option<usize>)
        requires
            self.wf(),
            self.valid(i as int),
        ensures
            match r {
                Some(s) => self.valid(s as int) && s > i && self.nodes@[s as int].parent
                    == self.nodes@[i as int].parent && exists|k: int|
                    0 <= k < (self.nodes@[self.nodes@[i as int].parent->0 as int].children@).len()
                        - 1 && (#[trigger] (
                    self.nodes@[self.nodes@[i as int].parent->0 as int].children@)[k]) == i && (
                    self.nodes@[self.nodes@[i as int].parent->0 as int].children@)[k + 1] == s,
                None => self.nodes@[i as int].parent matches Some(p)
                    ==> self.nodes@[p as int].children@.last() == i,
            },
    {
        match self.nodes[i].parent {
            None => None,
            Some(p) => {
                let sibs = &self.nodes[p].children;
                let mut k: usize = 0;
                while k < sibs.len()
                    invariant
                        self.wf(),
                        self.valid(i as int),
                        self.valid(p as int),
                        self.nodes@[i as int].parent == Some(p),
                        sibs == self.nodes@[p as int].children,
                        k <= sibs@.len(),
                        forall|j: int| 0 <= j < k ==> #[trigger] sibs@[j] != i,
                    decreases sibs@.len() - k,
                {
                    if sibs[k] == i {
                        if k + 1 < sibs.len() {
                            return Some(sibs[k + 1]);
                        } else {
                            return None;
                        }
                    }
                    k = k + 1;
                }
                proof {
                    assert(listed_under(self.nodes@, p as int, i as int));
                }
                None
            },
        }
    }

    /// The previous sibling of node `i`: the entry right before `i` in
    /// its parent's child list, if both exist.
    pub fn prev_sibling(&self, i: usize) -> (r: Option<usize>)
        requires
            self.wf(),
            self.valid(i as int),
        ensures
            match r {
                Some(s) => self.valid(s as int) && s < i && self.nodes@[s as int].parent
                    == self.nodes@[i as int].parent && exists|k: int|
                    1 <= k < (self.nodes@[self.nodes@[i as int].parent->0 as int].children@).len()
                        && (#[trigger] (
                    self.nodes@[self.nodes@[i as int].parent->0 as int].children@)[k]) == i && (
                    self.nodes@[self.nodes@[i as int].parent->0 as int].children@)[k - 1] == s,
                None => self.nodes@[i as int].parent matches Some(p)
                    ==> (self.nodes@[p as int].children@)[0] == i,
            },
    {
        match self.nodes[i].parent {
            None => None,
            Some(p) => {
                let sibs = &self.nodes[p].children;
                let mut k: usize = 0;
                while k < sibs.len()
                    invariant
                        self.wf(),
                        self.valid(i as int),
                        self.valid(p as int),
                        self.nodes@[i as int].parent == Some(p),
                        sibs == self.nodes@[p as int].children,
                        k <= sibs@.len(),
                        forall|j: int| 0 <= j < k ==> #[trigger] sibs@[j] != i,
                    decreases sibs@.len() - k,
                {
                    if sibs[k] == i {
                        if k > 0 {
                            return Some(sibs[k - 1]);
                        } else {
                            return None;
                        }
                    }
                    k = k + 1;
                }
                proof {
                    assert(listed_under(self.nodes@, p as int, i as int));
                }
                None
            },
        }
    }
}

/// Whether two nodes carry the same data, comparing text fields by their
/// character sequences.
pub open spec fn node_like(a: CstNode, b: CstNode) -> bool {
    &&& a.kind@ == b.kind@
    &&& a.text@ == b.text@
    &&& a.start == b.start
    &&& a.end == b.end
    &&& a.children@ == b.children@
    &&& a.parent == b.parent
}

/// Whether two trees carry the same data, node for node.
pub open spec fn cst_like(a: Cst, b: Cst) -> bool {
    a.nodes@.len() == b.nodes@.len() && forall|i: int|
        0 <= i < a.nodes@.len() ==> node_like(#[trigger] a.nodes@[i], b.nodes@[i])
}

/// Well-formedness depends only on the links, which [`cst_like`] preserves.
pub proof fn lemma_cst_like_wf(a: Cst, b: Cst)
    requires
        cst_like(a, b),
        b.wf(),
    ensures
        a.wf(),
{
    assert forall|j: int| 1 <= j < a.nodes@.len() implies #[trigger] listed_under(
        a.nodes@,
        a.nodes@[j].parent->0 as int,
        j,
    ) by {
        let q = b.nodes@[j].parent->0 as int;
        assert(listed_under(b.nodes@, q, j));
        let k = choose|k: int|
            0 <= k < b.nodes@[q].children@.len() && #[trigger] b.nodes@[q].children@[k] == j
                as usize;
        assert(a.nodes@[q].children@[k] == j as usize);
    }
}

/// Copies a vector of indices.
fn copy_indices(v: &Vec<usize>) -> (r: Vec<usize>)
    ensures
        r@ == v@,
{
    let mut r: Vec<usize> = Vec::new();
    let mut i: usize = 0;
    while i < v.len()
        invariant
            i <= v@.len(),
            r@ == v@.take(i as int),
        decreases v@.len() - i,
    {
        r.push(v[i]);
        i = i + 1;
    }
    assert(r@ =~= v@);
    r
}

impl CstNode {
    /// A copy of this node carrying the same data.
    pub fn duplicate(&self) -> (r: CstNode)
        ensures
            node_like(r, *self),
    {
        CstNode {
            kind: self.kind.clone(),
            text: self.text.clone(),
            start: self.start,
            end: self.end,
            children: copy_indices(&self.children),
            parent: self.parent,
        }
    }
}

impl Cst {
    /// A copy of this tree carrying the same data.
    pub fn duplicate(&self) -> (r: Cst)
        ensures
            cst_like(r, *self),
            self.wf() ==> r.wf(),
    {
        let mut nodes: Vec<CstNode> = Vec::new();
        let mut i: usize = 0;
        while i < self.nodes.len()
            invariant
                i <= self.nodes@.len(),
                nodes@.len() == i,
                forall|j: int| 0 <= j < i ==> node_like(#[trigger] nodes@[j], self.nodes@[j]),
            decreases self.nodes@.len() - i,
        {
            nodes.push(self.nodes[i].duplicate());
            i = i + 1;
        }
        let r = Cst { nodes };
        proof {
            if self.wf() {
                lemma_cst_like_wf(r, *self);
            }
        }
        r
    }
}

} // verus!
