//! The global source registry: a table of deduplicated sources addressed
//! by stable integer handles, the worklist of handles still to be
//! classified, and the recorded use edges between sources.
//!
//! The central invariant is dedup: one [`Handle`] key maps to at most one
//! table entry, which bounds the work of the driving fixpoint loop.

use vstd::prelude::*;

use crate::raw_like;
use crate::raw_wf;
use crate::Language;
use crate::RawParseResult;

verus! {

/// The identity of a source: inline text or a file path.
#[derive(Debug, Clone, PartialEq, Eq, Hash)]
pub enum SrcOrPath {
    Source(String),
    Path(String),
}

/// The dedup key of a registered source: where it came from, and the
/// language it is written in.
#[derive(Debug, Clone, PartialEq, Eq, Hash)]
pub struct Handle {
    pub path: SrcOrPath,
    pub lang: Language,
}

/// Stable index of a source in the registry's table; assigned once, never
/// reused.
#[derive(Debug, Clone, Copy, PartialEq, Eq, Hash, Structural)]
pub struct InternalHandle(pub usize);

/// Document position of a use within its owning source, strictly
/// increasing in discovery order.
#[derive(Debug, Clone, Copy, PartialEq, Eq, Structural)]
pub struct TopoOrder(pub usize);

/// One table entry: the dedup key, the parse result, and the use edges
/// recorded for this source in discovery order.
pub type AtributedEle = (Handle, RawParseResult, Vec<(TopoOrder, InternalHandle)>);

/// Whether two source origins are the same origin with the same content.
pub open spec fn origin_eq(a: SrcOrPath, b: SrcOrPath) -> bool {
    match (a, b) {
        (SrcOrPath::Source(x), SrcOrPath::Source(y)) => x@ == y@,
        (SrcOrPath::Path(x), SrcOrPath::Path(y)) => x@ == y@,
        _ => false,
    }
}

/// Whether two handle keys are the same key: same language and same
/// origin.
pub open spec fn key_eq(a: Handle, b: Handle) -> bool {
    a.lang == b.lang && origin_eq(a.path, b.path)
}

/// Compares two source origins.
pub fn origin_equal(a: &SrcOrPath, b: &SrcOrPath) -> (r: bool)
    ensures
        r == origin_eq(*a, *b),
{
    match (a, b) {
        (SrcOrPath::Source(x), SrcOrPath::Source(y)) => crate::util::str_eq(
            x.as_str(),
            y.as_str(),
        ),
        (SrcOrPath::Path(x), SrcOrPath::Path(y)) => crate::util::str_eq(x.as_str(), y.as_str()),
        _ => false,
    }
}

/// Compares two handle keys.
pub fn handle_equal(a: &Handle, b: &Handle) -> (r: bool)
    ensures
        r == key_eq(*a, *b),
{
    let lang_same = match (a.lang, b.lang) {
        (Language::Python, Language::Python) => true,
        (Language::JavaScript, Language::JavaScript) => true,
        (Language::Java, Language::Java) => true,
        _ => false,
    };
    lang_same && origin_equal(&a.path, &b.path)
}

/// The first position at or after `i` whose key equals `key`, if any.
pub open spec fn find_key_from(keys: Seq<Handle>, key: Handle, i: int) -> Option<int>
    decreases keys.len() - i,
{
    if i < 0 || i >= keys.len() {
        None
    } else if key_eq(keys[i], key) {
        Some(i)
    } else {
        find_key_from(keys, key, i + 1)
    }
}

/// The handle that registering `key` into a table with the given keys
/// returns: the position of the existing entry, or a fresh index at the
/// end.
pub open spec fn reg_handle(keys: Seq<Handle>, key: Handle) -> int {
    match find_key_from(keys, key, 0) {
        Some(i) => i,
        None => keys.len() as int,
    }
}

/// The table keys after registering `key`: unchanged if present, appended
/// otherwise.
pub open spec fn reg_keys(keys: Seq<Handle>, key: Handle) -> Seq<Handle> {
    match find_key_from(keys, key, 0) {
        Some(i) => keys,
        None => keys.push(key),
    }
}

/// The worklist after registering `key`: unchanged if the key was present,
/// with the fresh handle enqueued otherwise.
pub open spec fn reg_queue(keys: Seq<Handle>, queue: Seq<InternalHandle>, key: Handle) -> Seq<
    InternalHandle,
> {
    match find_key_from(keys, key, 0) {
        Some(i) => queue,
        None => queue.push(InternalHandle(keys.len() as usize)),
    }
}

/// A `None` answer means no key at or after `i` matches.
pub proof fn lemma_find_key_none(keys: Seq<Handle>, key: Handle, i: int)
    requires
        0 <= i,
        find_key_from(keys, key, i) is None,
    ensures
        forall|j: int| i <= j < keys.len() ==> !key_eq(keys[j], key),
    decreases keys.len() - i,
{
    if i < keys.len() {
        lemma_find_key_none(keys, key, i + 1);
    }
}

/// A `Some` answer names a position whose key matches.
pub proof fn lemma_find_key_some(keys: Seq<Handle>, key: Handle, i: int)
    requires
        0 <= i,
        find_key_from(keys, key, i) is Some,
    ensures
        ({
            let j = find_key_from(keys, key, i)->0;
            i <= j < keys.len() && key_eq(keys[j], key)
        }),
    decreases keys.len() - i,
{
    if i < keys.len() && !key_eq(keys[i], key) {
        lemma_find_key_some(keys, key, i + 1);
    }
}

/// Appending the key that was being looked for makes the search find the
/// appended position.
pub proof fn lemma_find_key_push_found(keys: Seq<Handle>, key: Handle, i: int)
    requires
        0 <= i <= keys.len(),
        find_key_from(keys, key, i) is None,
    ensures
        find_key_from(keys.push(key), key, i) == Some(keys.len() as int),
    decreases keys.len() - i,
{
    if i < keys.len() {
        lemma_find_key_push_found(keys, key, i + 1);
    }
}

/// Law (dedup): registering a key a second time returns the handle of the
/// first registration and changes neither the table keys nor the worklist.
/// In particular the worklist never grows for a key that is already
/// registered, which is what bounds the driving fixpoint loop on repeated
/// or mutually recursive sources.
pub proof fn lemma_register_dedup(keys: Seq<Handle>, queue: Seq<InternalHandle>, key: Handle)
    ensures
        reg_handle(reg_keys(keys, key), key) == reg_handle(keys, key),
        reg_keys(reg_keys(keys, key), key) == reg_keys(keys, key),
        reg_queue(reg_keys(keys, key), reg_queue(keys, queue, key), key) == reg_queue(
            keys,
            queue,
            key,
        ),
{
    if find_key_from(keys, key, 0) is None {
        lemma_find_key_push_found(keys, key, 0);
    }
}

/// The predicate by which [`GlobalContext::set_solved`] keeps worklist
/// entries: everything but the solved handle.
pub open spec fn keeps(root: InternalHandle) -> spec_fn(InternalHandle) -> bool {
    |x: InternalHandle| x.0 != root.0
}

/// Well-formedness of one edge list against a table of `n` entries: every
/// target is a valid handle and positions are strictly increasing.
pub open spec fn edges_wf(edges: Seq<(TopoOrder, InternalHandle)>, n: int) -> bool {
    &&& forall|e: int| 0 <= e < edges.len() ==> ((#[trigger] edges[e]).1).0 < n
    &&& forall|e1: int, e2: int|
        0 <= e1 < e2 < edges.len() ==> ((#[trigger] edges[e1]).0).0 < ((#[trigger] edges[e2]).0).0
}

/// The registry: the root handle, the table of registered sources, and
/// the worklist of handles not yet fully classified.
pub struct GlobalContext {
    /// Directory against which relative paths of this analysis session are
    /// understood.
    pub pwd: String,
    /// The handle of the root source; always the first table entry.
    pub root: InternalHandle,
    /// The append-only table of registered sources.
    pub sources: Vec<AtributedEle>,
    /// Handles waiting to be classified.
    pub queue: Vec<InternalHandle>,
}

impl GlobalContext {
    /// The dedup keys of the table, in table order.
    pub open spec fn keys_view(self) -> Seq<Handle> {
        self.sources@.map(|i: int, e: AtributedEle| e.0)
    }

    /// Well-formedness: the table is nonempty with the root at index 0,
    /// worklist entries and edge targets are valid indices, edge positions
    /// are strictly increasing per entry, keys are pairwise distinct, and
    /// every stored tree is a well-formed arena.
    pub open spec fn wf(self) -> bool {
        let n = self.sources@.len() as int;
        &&& n >= 1
        &&& (self.root).0 == 0
        &&& forall|q: int| 0 <= q < self.queue@.len() ==> ((#[trigger] self.queue@[q]).0 as int) < n
        &&& forall|i: int| 0 <= i < n ==> edges_wf((#[trigger] self.sources@[i]).2@, n)
        &&& forall|i: int| 0 <= i < n ==> raw_wf((#[trigger] self.sources@[i]).1)
        &&& forall|i: int, j: int|
            0 <= i < j < n ==> !key_eq(
                (#[trigger] self.sources@[i]).0,
                (#[trigger] self.sources@[j]).0,
            )
    }

    /// Where `key` stands in the table, if anywhere.
    pub open spec fn spec_find(self, key: Handle) -> Option<int> {
        find_key_from(self.keys_view(), key, 0)
    }

    /// Creates a registry for an analysis session rooted at the given
    /// file: the root source is entered as handle 0 and enqueued; the
    /// session directory is the file's parent directory.
    pub fn new(path: String, root: RawParseResult) -> (r: GlobalContext)
        requires
            raw_wf(root),
        ensures
            r.wf(),
            r.pwd@ == parent_dir_spec(path@),
            r.sources@.len() == 1,
            (r.sources@[0]).1 == root,
            key_eq((r.sources@[0]).0, Handle { path: SrcOrPath::Path(path), lang: root.language }),
            ((r.sources@[0]).2)@.len() == 0,
            r.queue@.len() == 1,
            r.queue@[0] == InternalHandle(0usize),
    {
        let root_dir = parent_dir(path.as_str());
        Self::with_root_dir((path, root), root_dir)
    }

    /// Creates a registry for an analysis session rooted at the given
    /// file, with an explicit session directory.
    pub fn with_root_dir(entry: (String, RawParseResult), root_dir: String) -> (r: GlobalContext)
        requires
            raw_wf(entry.1),
        ensures
            r.wf(),
            r.pwd@ == root_dir@,
            r.sources@.len() == 1,
            (r.sources@[0]).1 == entry.1,
            key_eq(
                (r.sources@[0]).0,
                Handle { path: SrcOrPath::Path(entry.0), lang: entry.1.language },
            ),
            ((r.sources@[0]).2)@.len() == 0,
            r.queue@.len() == 1,
            r.queue@[0] == InternalHandle(0usize),
    {
        let (path, root) = entry;
        let lang = root.language;
        let mut sources: Vec<AtributedEle> = Vec::new();
        sources.push((Handle { path: SrcOrPath::Path(path), lang }, root, Vec::new()));
        let mut queue: Vec<InternalHandle> = Vec::new();
        queue.push(InternalHandle(0));
        GlobalContext { pwd: root_dir, root: InternalHandle(0), sources, queue }
    }

    /// The parsed tree of the root source, if the root parse succeeded.
    pub fn root_tree(&self) -> (r: Option<crate::PolyglotTree>)
        requires
            self.wf(),
        ensures
            r is Some <==> (self.sources@[0]).1.cst is Some,
            r matches Some(t) ==> t.wf() && t.language == (self.sources@[0]).1.language
                && t.code@ == (self.sources@[0]).1.source@,
    {
        crate::PolyglotTree::from_raw(&self.sources[0].1)
    }

    /// The parsed tree registered under `handle`, if the key is
    /// registered and its parse succeeded.
    pub fn get(&self, handle: &Handle) -> (r: Option<crate::PolyglotTree>)
        requires
            self.wf(),
        ensures
            match r {
                Some(t) => self.spec_find(*handle) matches Some(i) && t.wf() && t.language == (
                self.sources@[i]).1.language && t.code@ == (self.sources@[i]).1.source@,
                None => self.spec_find(*handle) is None || (self.sources@[self.spec_find(
                    *handle,
                )->0]).1.cst is None,
            },
    {
        match self.resolve_internal(handle) {
            None => None,
            Some(h) => crate::PolyglotTree::from_raw(&self.sources[h.0].1),
        }
    }

    /// The handle under which `key` is registered, if any.
    pub fn resolve_internal(&self, handle: &Handle) -> (r: Option<InternalHandle>)
        ensures
            match r {
                Some(h) => self.spec_find(*handle) == Some(h.0 as int) && (h.0 as int)
                    < self.sources@.len(),
                None => self.spec_find(*handle) is None,
            },
    {
        let mut i: usize = 0;
        while i < self.sources.len()
            invariant
                i <= self.sources@.len(),
                find_key_from(self.keys_view(), *handle, 0) == find_key_from(
                    self.keys_view(),
                    *handle,
                    i as int,
                ),
            decreases self.sources@.len() - i,
        {
            if handle_equal(&self.sources[i].0, handle) {
                return Some(InternalHandle(i));
            }
            i = i + 1;
        }
        None
    }

    /// The table entry of a handle, if the handle is valid.
    pub fn raw_internal(&self, handle: &InternalHandle) -> (r: Option<&AtributedEle>)
        ensures
            match r {
                Some(e) => handle.0 < self.sources@.len() && *e == self.sources@[handle.0 as int],
                None => handle.0 >= self.sources@.len(),
            },
    {
        if handle.0 < self.sources.len() {
            Some(&self.sources[handle.0])
        } else {
            None
        }
    }

    /// The parse result of a handle, if the handle is valid.
    pub fn raw(&self, handle: &InternalHandle) -> (r: Option<&RawParseResult>)
        ensures
            match r {
                Some(e) => handle.0 < self.sources@.len() && *e == (self.sources@[handle.0 as int]).1,
                None => handle.0 >= self.sources@.len(),
            },
    {
        if handle.0 < self.sources.len() {
            Some(&self.sources[handle.0].1)
        } else {
            None
        }
    }

    /// Appends a new entry for `handle` and enqueues it. Callers must have
    /// checked that the key is not yet registered; [`Self::register_source`]
    /// does so.
    pub fn add_polyglot_tree(&mut self, handle: Handle, tree: RawParseResult) -> (h: InternalHandle)
        requires
            old(self).wf(),
            old(self).spec_find(handle) is None,
            raw_wf(tree),
        ensures
            final(self).wf(),
            h.0 == old(self).sources@.len(),
            final(self).sources@.len() == old(self).sources@.len() + 1,
            forall|i: int|
                0 <= i < old(self).sources@.len() ==> final(self).sources@[i] == old(
                    self,
                ).sources@[i],
            (final(self).sources@.last()).0 == handle,
            (final(self).sources@.last()).1 == tree,
            ((final(self).sources@.last()).2)@.len() == 0,
            final(self).queue@ == old(self).queue@.push(h),
            final(self).pwd == old(self).pwd,
            final(self).root == old(self).root,
            final(self).spec_find(handle) == Some(h.0 as int),
            final(self).keys_view() =~= old(self).keys_view().push(handle),
    {
        let h = InternalHandle(self.sources.len());
        self.sources.push((handle, tree, Vec::new()));
        self.queue.push(h);
        proof {
            let keys_old = old(self).keys_view();
            let key = (self.sources@.last()).0;
            assert(self.keys_view() =~= keys_old.push(key));
            lemma_find_key_none(keys_old, key, 0);
            lemma_find_key_push_found(keys_old, key, 0);
            assert forall|i: int, j: int|
                0 <= i < j < self.sources@.len() implies !key_eq(
                (#[trigger] self.sources@[i]).0,
                (#[trigger] self.sources@[j]).0,
            ) by {
                if j + 1 == self.sources@.len() {
                    assert((self.sources@[j]).0 == key);
                    assert(keys_old[i] == (old(self).sources@[i]).0);
                    assert(!key_eq(keys_old[i], key));
                } else {
                    assert((self.sources@[i]).0 == (old(self).sources@[i]).0);
                    assert((self.sources@[j]).0 == (old(self).sources@[j]).0);
                }
            };
        }
        h
    }

    /// Registers a source under `handle`: if the key is already present,
    /// returns the existing handle and changes nothing (the central dedup
    /// guarantee); otherwise appends a new entry and enqueues it.
    pub fn register_source(&mut self, handle: Handle, tree: RawParseResult) -> (h: InternalHandle)
        requires
            old(self).wf(),
            raw_wf(tree),
        ensures
            final(self).wf(),
            (h.0 as int) < final(self).sources@.len(),
            final(self).spec_find(handle) == Some(h.0 as int),
            h.0 as int == reg_handle(old(self).keys_view(), handle),
            final(self).keys_view() =~= reg_keys(old(self).keys_view(), handle),
            final(self).queue@ =~= reg_queue(old(self).keys_view(), old(self).queue@, handle),
            old(self).spec_find(handle) is Some ==> *final(self) == *old(self),
            old(self).spec_find(handle) is None ==> {
                &&& h.0 == old(self).sources@.len()
                &&& final(self).sources@.len() == old(self).sources@.len() + 1
                &&& forall|i: int|
                    0 <= i < old(self).sources@.len() ==> final(self).sources@[i] == old(
                        self,
                    ).sources@[i]
                &&& (final(self).sources@.last()).0 == handle
                &&& (final(self).sources@.last()).1 == tree
                &&& ((final(self).sources@.last()).2)@.len() == 0
            },
            final(self).pwd == old(self).pwd,
            final(self).root == old(self).root,
    {
        match self.resolve_internal(&handle) {
            Some(h) => h,
            None => self.add_polyglot_tree(handle, tree),
        }
    }

    /// Records a use edge from `h` to `h2` at document position `pos`.
    /// Positions must be handed in strictly increasing per owner, which
    /// discovery in document order guarantees.
    pub fn add_use(&mut self, h: InternalHandle, pos: TopoOrder, h2: InternalHandle)
        requires
            old(self).wf(),
            (h.0 as int) < old(self).sources@.len(),
            (h2.0 as int) < old(self).sources@.len(),
            ((old(self).sources@[h.0 as int]).2)@.len() == 0 || ((((old(self).sources@[h.0 as int]).2)@.last()).0).0 < pos.0,
        ensures
            final(self).wf(),
            ((final(self).sources@[h.0 as int]).2)@ == ((old(self).sources@[h.0 as int]).2)@.push(
                (pos, h2),
            ),
            forall|i: int|
                0 <= i < final(self).sources@.len() && i != h.0 as int ==> final(self).sources@[i] == old(self).sources@[i],
            final(self).sources@.len() == old(self).sources@.len(),
            (final(self).sources@[h.0 as int]).0 == (old(self).sources@[h.0 as int]).0,
            (final(self).sources@[h.0 as int]).1 == (old(self).sources@[h.0 as int]).1,
            final(self).queue@ == old(self).queue@,
            final(self).pwd == old(self).pwd,
            final(self).root == old(self).root,
            final(self).keys_view() =~= old(self).keys_view(),
    {
        self.sources[h.0].2.push((pos, h2));
    }

    /// Removes `root` from the worklist; the table entry persists.
    pub fn set_solved(&mut self, root: InternalHandle)
        requires
            old(self).wf(),
        ensures
            final(self).wf(),
            final(self).queue@ == old(self).queue@.filter(keeps(root)),
            final(self).sources@ == old(self).sources@,
            final(self).pwd == old(self).pwd,
            final(self).root == old(self).root,
    {
        let mut kept: Vec<InternalHandle> = Vec::new();
        let mut i: usize = 0;
        proof {
            reveal_with_fuel(Seq::<_>::filter, 1);
            assert(self.queue@.take(0).filter(keeps(root)) =~= kept@);
        }
        while i < self.queue.len()
            invariant
                i <= self.queue@.len(),
                kept@ == self.queue@.take(i as int).filter(keeps(root)),
                forall|q: int|
                    0 <= q < kept@.len() ==> ((#[trigger] kept@[q]).0 as int)
                        < self.sources@.len(),
                old(self).wf(),
                *self == *old(self),
            decreases self.queue@.len() - i,
        {
            let x = self.queue[i];
            if x.0 != root.0 {
                kept.push(x);
            }
            i = i + 1;
            proof {
                let pre = self.queue@.take(i as int - 1);
                let nxt = self.queue@.take(i as int);
                assert(nxt.drop_last() =~= pre);
                assert(nxt.last() == self.queue@[i as int - 1]);
                reveal_with_fuel(Seq::<_>::filter, 2);
                assert(kept@ == nxt.filter(keeps(root)));
            }
        }
        proof {
            assert(self.queue@.take(self.queue@.len() as int) =~= self.queue@);
        }
        self.queue = kept;
    }


    /// Pops the next handle waiting to be classified, with a copy of its
    /// parse result, or `None` when the worklist is empty (the fixpoint is
    /// reached).
    pub fn next_partial_polyglot_tree(&mut self) -> (r: Option<(InternalHandle, RawParseResult)>)
        requires
            old(self).wf(),
        ensures
            final(self).wf(),
            match r {
                None => {
                    &&& old(self).queue@.len() == 0
                    &&& final(self).queue@ == old(self).queue@
                    &&& final(self).sources@ == old(self).sources@
                    &&& final(self).pwd == old(self).pwd
                    &&& final(self).root == old(self).root
                },
                Some(p) => {
                    &&& old(self).queue@.len() > 0
                    &&& p.0 == old(self).queue@.last()
                    &&& ((p.0).0 as int) < final(self).sources@.len()
                    &&& final(self).queue@ == old(self).queue@.drop_last()
                    &&& final(self).sources@ == old(self).sources@
                    &&& final(self).pwd == old(self).pwd
                    &&& final(self).root == old(self).root
                    &&& raw_like(p.1, (final(self).sources@[(p.0).0 as int]).1)
                    &&& raw_wf(p.1)
                },
            },
    {
        match self.queue.pop() {
            None => None,
            Some(h) => {
                let raw = self.sources[h.0].1.duplicate();
                Some((h, raw))
            },
        }
    }
}

/// A filter that keeps every element of a sequence leaves it unchanged.
pub proof fn lemma_filter_all_kept(q: Seq<InternalHandle>, root: InternalHandle)
    requires
        forall|k: int| 0 <= k < q.len() ==> (#[trigger] q[k]).0 != root.0,
    ensures
        q.filter(keeps(root)) == q,
    decreases q.len(),
{
    reveal_with_fuel(Seq::<_>::filter, 2);
    if q.len() > 0 {
        lemma_filter_all_kept(q.drop_last(), root);
        assert(q.filter(keeps(root)) =~= q);
    } else {
        assert(q.filter(keeps(root)) =~= q);
    }
}

/// Law (topological ordering): in a well-formed registry the use edges
/// recorded for one source stand at strictly increasing document
/// positions, in discovery order.
pub proof fn lemma_edges_increasing(ctx: GlobalContext, i: int, e1: int, e2: int)
    requires
        ctx.wf(),
        0 <= i < ctx.sources@.len(),
        0 <= e1 < e2 < ((ctx.sources@[i]).2)@.len(),
    ensures
        ((((ctx.sources@[i]).2)@[e1]).0).0 < ((((ctx.sources@[i]).2)@[e2]).0).0,
{
}

/// The part of `path` before its last separator: the directory the file
/// lives in, or the empty string if the path has no separator.
pub open spec fn parent_dir_spec(s: Seq<char>) -> Seq<char>
    decreases s.len(),
{
    if s.len() == 0 {
        s
    } else if s.last() == '/' {
        s.drop_last()
    } else {
        parent_dir_spec(s.drop_last())
    }
}

/// Returns the directory part of a `/`-separated path.
pub fn parent_dir(path: &str) -> (r: String)
    ensures
        r@ == parent_dir_spec(path@),
{
    let cs = crate::util::chars_of(path);
    proof {
        assert(cs@.take(cs@.len() as int) =~= cs@);
    }
    let mut n = cs.len();
    while n > 0 && cs[n - 1] != '/'
        invariant
            n <= cs@.len(),
            parent_dir_spec(cs@) == parent_dir_spec(cs@.take(n as int)),
        decreases n,
    {
        proof {
            assert(cs@.take(n as int).drop_last() =~= cs@.take(n as int - 1));
        }
        n = n - 1;
    }
    let stop = if n > 0 {
        n - 1
    } else {
        0
    };
    proof {
        if n > 0 {
            assert(cs@.take(n as int).drop_last() =~= cs@.take(stop as int));
        } else {
            assert(cs@.take(0) =~= Seq::<char>::empty());
        }
    }
    let mut out: Vec<char> = Vec::new();
    let mut i: usize = 0;
    while i < stop
        invariant
            i <= stop,
            stop <= cs@.len(),
            out@ == cs@.take(stop as int).take(i as int),
        decreases stop - i,
    {
        proof {
            let pre = cs@.take(stop as int);
            assert(pre.take(i as int + 1) =~= pre.take(i as int).push(cs@[i as int]));
        }
        out.push(cs[i]);
        i = i + 1;
    }
    proof {
        assert(cs@.take(stop as int).take(stop as int) =~= cs@.take(stop as int));
    }
    crate::util::string_of(&out)
}

} // verus!
