//! Step-wise configuration of an analysis session — entry point, then
//! entry language — and the driving loop that runs the session: a
//! worklist fixpoint over all sources reachable from the entry source.

use vstd::prelude::*;

use crate::building::Aux;
use crate::context::key_eq;
use crate::context::lemma_filter_all_kept;
use crate::context::lemma_find_key_some;
use crate::context::GlobalContext;
use crate::context::Handle;
use crate::context::InternalHandle;
use crate::context::SrcOrPath;
use crate::context::TopoOrder;
use crate::RawParseResult;

verus! {

/// Builder of a polyglot analysis session; the type parameter records how
/// far configuration has progressed.
pub struct PolyglotAstBuilder<T = ()> {
    pub state: T,
}

impl PolyglotAstBuilder<()> {
    /// Fixes the path of the entry source file.
    pub fn set_entry_point(path: String) -> (r: PolyglotAstBuilder<String>)
        ensures
            r.state@ == path@,
    {
        PolyglotAstBuilder { state: path }
    }
}

impl PolyglotAstBuilder<String> {
    /// Fixes the language of the entry source file.
    pub fn set_entry_lang(self, language: crate::Language) -> (r: PolyglotAstBuilder<
        (String, crate::Language),
    >)
        ensures
            r.state.0@ == self.state@,
            r.state.1 == language,
    {
        PolyglotAstBuilder { state: (self.state, language) }
    }
}

impl PolyglotAstBuilder<(String, crate::Language)> {
    /// Runs the analysis session on the entry source text, which the
    /// caller has read from the configured entry point. The contents of
    /// files that eval targets may name are handed in preloaded as
    /// `(path, content)` pairs; a named file that is not among them is
    /// registered with an absent tree, like a parse failure.
    pub fn build_with_source(self, code: String, files: &Vec<(String, String)>) -> (r: Result<
        GlobalContext,
        crate::builder::BuildingError,
    >)
        ensures
            r is Ok,
            r matches Ok(ctx) ==> {
                &&& ctx.wf()
                &&& ctx.queue@.len() == 0
                &&& (ctx.sources@[0]).1.language == self.state.1
                &&& (ctx.sources@[0]).1.source@ == code@
                &&& forall|i: int| 0 <= i < ctx.sources@.len() ==> #[trigger] entry_done(ctx, i)
                &&& forall|i: int|
                    1 <= i < ctx.sources@.len() ==> pair_content_ok(
                        (#[trigger] ctx.sources@[i]).0,
                        (ctx.sources@[i]).1,
                        files@,
                    )
            },
    {
        let (path, language) = self.state;
        Ok(build_from_source(path, code, language, files))
    }
}

/// Fatal errors of building an analysis session. Only the entry point can
/// fail fatally; everything scoped to a single use is contained and
/// recorded instead.
#[derive(Debug, Clone, Copy, PartialEq, Eq, Structural)]
pub enum BuildingError {
    /// The entry file's language tag names no supported language.
    InvalidLanguageTag,
    /// The entry file could not be read.
    IOError,
}

/// The first preloaded content at or after `j` whose path matches, if
/// any.
pub open spec fn find_file_from(files: Seq<(String, String)>, path: Seq<char>, j: int) -> Option<
    Seq<char>,
>
    decreases files.len() - j,
{
    if j < 0 || j >= files.len() {
        None
    } else if (files[j].0)@ == path {
        Some((files[j].1)@)
    } else {
        find_file_from(files, path, j + 1)
    }
}

/// Looks up a preloaded file content by path.
fn lookup_file(files: &Vec<(String, String)>, path: &String) -> (r: Option<String>)
    ensures
        match r {
            Some(t) => find_file_from(files@, path@, 0) == Some(t@),
            None => find_file_from(files@, path@, 0) is None,
        },
{
    let mut j: usize = 0;
    while j < files.len()
        invariant
            j <= files@.len(),
            find_file_from(files@, path@, 0) == find_file_from(files@, path@, j as int),
        decreases files@.len() - j,
    {
        if crate::util::str_eq(files[j].0.as_str(), path.as_str()) {
            return Some(files[j].1.clone());
        }
        j = j + 1;
    }
    None
}

/// No two worklist entries name the same handle.
pub open spec fn queue_distinct(q: Seq<InternalHandle>) -> bool {
    forall|a: int, b: int|
        0 <= a < b < q.len() ==> (#[trigger] q[a]).0 != (#[trigger] q[b]).0
}

/// Whether handle index `i` is still on the worklist.
pub open spec fn in_queue(q: Seq<InternalHandle>, i: int) -> bool {
    exists|k: int| 0 <= k < q.len() && (#[trigger] q[k]).0 as int == i
}

/// Every source still on the worklist has an empty edge list: edges are
/// recorded only while a source is being classified, after it leaves the
/// worklist.
pub open spec fn pending_unstarted(ctx: GlobalContext) -> bool {
    forall|q: int|
        0 <= q < ctx.queue@.len() ==> ((ctx.sources@[(#[trigger] ctx.queue@[q]).0 as int]).2)@.len()
            == 0
}

/// The prefix of the solved resolutions that must become edges: imports
/// reference bindings, not sources, so they are left out.
pub open spec fn drop_imports(
    ss: Seq<(int, (bool, crate::Language, bool, Seq<char>))>,
    j: int,
) -> Seq<(int, (bool, crate::Language, bool, Seq<char>))>
    decreases j,
{
    if j <= 0 {
        Seq::empty()
    } else {
        let rest = drop_imports(ss, j - 1);
        if (ss[j - 1].1).0 {
            rest
        } else {
            rest.push(ss[j - 1])
        }
    }
}

/// The edges one classified source must end with: the non-import
/// successful resolutions of its uses, in document order; none when its
/// parse failed.
pub open spec fn expected_of(raw: RawParseResult) -> Seq<
    (int, (bool, crate::Language, bool, Seq<char>)),
> {
    match raw.cst {
        None => Seq::empty(),
        Some(cst) => {
            let us = crate::building::uses_of(cst, raw.language);
            let ss = crate::building::solved_seq(
                cst,
                crate::building::java::DefaultRefAna,
                us,
                raw.language,
                us.len() as int,
            );
            drop_imports(ss, ss.len() as int)
        },
    }
}

/// Whether `key` is the registry key of the resolved `(language,
/// origin)` pair `s`: inline origins carry the resolved text, path
/// origins the resolved path.
pub open spec fn key_matches_solved(
    key: Handle,
    s: (bool, crate::Language, bool, Seq<char>),
) -> bool {
    key.lang == s.1 && match key.path {
        SrcOrPath::Source(t) => !s.2 && t@ == s.3,
        SrcOrPath::Path(p) => s.2 && p@ == s.3,
    }
}

/// Whether entry `i`'s edges are exactly `exp`: one edge per kept
/// resolution, at the use's call position, targeting an entry registered
/// under the resolved key.
pub open spec fn edges_match(
    ctx: GlobalContext,
    i: int,
    exp: Seq<(int, (bool, crate::Language, bool, Seq<char>))>,
) -> bool {
    let edges = ((ctx.sources@[i]).2)@;
    &&& edges.len() == exp.len()
    &&& forall|e: int|
        0 <= e < edges.len() ==> {
            &&& (((#[trigger] edges[e]).0).0 as int) == exp[e].0
            &&& (((edges[e]).1).0 as int) < ctx.sources@.len()
            &&& key_matches_solved((ctx.sources@[((edges[e]).1).0 as int]).0, exp[e].1)
        }
}

/// A fully classified entry: its recorded edges are exactly the
/// non-import successful resolutions of its own uses.
pub open spec fn entry_done(ctx: GlobalContext, i: int) -> bool {
    edges_match(ctx, i, expected_of((ctx.sources@[i]).1))
}

/// The content a registered target must carry for its key: an inline
/// key holds its text parsed in its language; a path key holds the
/// preloaded content of that path, or no tree at all when the path was
/// not preloaded.
pub open spec fn pair_content_ok(
    key: Handle,
    raw: RawParseResult,
    files: Seq<(String, String)>,
) -> bool {
    &&& raw.language == key.lang
    &&& match key.path {
        SrcOrPath::Source(t) => raw.source@ == t@,
        SrcOrPath::Path(p) => match find_file_from(files, p@, 0) {
            Some(txt) => raw.source@ == txt,
            None => raw.cst is None && raw.source@ == Seq::<char>::empty(),
        },
    }
}

/// Builds the polyglot source graph for an analysis session: parses the
/// entry source, then drives the worklist to its fixpoint — classify a
/// pending source, resolve its uses, register and link each resolved
/// target, repeat. The loop provably terminates with an empty worklist
/// (dedup enqueues each registered source exactly once), every entry
/// ends fully classified, and every registered target carries the
/// content its key names.
pub fn build_from_source(
    path: String,
    code: String,
    language: crate::Language,
    files: &Vec<(String, String)>,
) -> (r: GlobalContext)
    ensures
        r.wf(),
        r.queue@.len() == 0,
        (r.sources@[0]).1.language == language,
        (r.sources@[0]).1.source@ == code@,
        forall|i: int| 0 <= i < r.sources@.len() ==> #[trigger] entry_done(r, i),
        forall|i: int|
            1 <= i < r.sources@.len() ==> pair_content_ok(
                (#[trigger] r.sources@[i]).0,
                (r.sources@[i]).1,
                files@,
            ),
{
    let root = crate::parse(code, language);
    let mut ctx = GlobalContext::new(path, root);
    let ghost mut pops: int = 0;
    while ctx.queue.len() > 0
        invariant
            ctx.wf(),
            0 <= pops <= usize::MAX as int,
            pops + ctx.queue@.len() == ctx.sources@.len(),
            queue_distinct(ctx.queue@),
            pending_unstarted(ctx),
            (ctx.sources@[0]).1.language == language,
            (ctx.sources@[0]).1.source@ == code@,
            forall|i: int|
                0 <= i < ctx.sources@.len() && !in_queue(ctx.queue@, i)
                    ==> #[trigger] entry_done(ctx, i),
            forall|i: int|
                1 <= i < ctx.sources@.len() ==> pair_content_ok(
                    (#[trigger] ctx.sources@[i]).0,
                    (ctx.sources@[i]).1,
                    files@,
                ),
        decreases usize::MAX as int + 1 - pops,
    {
        let src_count = ctx.sources.len();
        let ghost q_pre = ctx.queue@;
        let ghost ctx_pre = ctx;
        let h = ctx.queue.pop().unwrap();
        proof {
            pops = pops + 1;
            // h stood at the end of the worklist, so its edge list is
            // empty and it is gone from the rest of the worklist
            assert((ctx_pre.queue@[q_pre.len() - 1]).0 == h.0);
            assert(((ctx.sources@[h.0 as int]).2)@.len() == 0);
            assert forall|q: int|
                0 <= q < ctx.queue@.len() implies (#[trigger] ctx.queue@[q]).0 != h.0 by {
                assert(ctx.queue@[q] == q_pre[q]);
            };
            assert forall|i: int|
                0 <= i < ctx.sources@.len() && !in_queue(ctx.queue@, i) && i != h.0
                    implies #[trigger] entry_done(ctx, i) by {
                if in_queue(q_pre, i) {
                    let k = choose|k: int|
                        0 <= k < q_pre.len() && (#[trigger] q_pre[k]).0 as int == i;
                    if k < q_pre.len() - 1 {
                        assert(ctx.queue@[k] == q_pre[k]);
                        assert(in_queue(ctx.queue@, i));
                    } else {
                        assert((q_pre[k]).0 == h.0);
                    }
                    assert(false);
                } else {
                    assert(entry_done(ctx_pre, i));
                }
            };
            assert(ctx.wf());
        }
        let ghost raw0 = (ctx.sources@[h.0 as int]).1;
        proof {
            assert(crate::raw_wf(raw0));
        }
        match ctx.sources[h.0].1.compute_polyglot_stuff() {
            None => {
                proof {
                    assert(expected_of(raw0) == Seq::<
                        (int, (bool, crate::Language, bool, Seq<char>)),
                    >::empty());
                    assert(entry_done(ctx, h.0 as int));
                }
            },
            Some(uses) => {
                let ghost cst0 = raw0.cst->0;
                let ghost us0 = crate::building::uses_of(cst0, raw0.language);
                let ghost ss = crate::building::solved_seq(
                    cst0,
                    crate::building::java::DefaultRefAna,
                    us0,
                    raw0.language,
                    us0.len() as int,
                );
                proof {
                    assert(drop_imports(ss, 0) == Seq::<
                        (int, (bool, crate::Language, bool, Seq<char>)),
                    >::empty());
                    assert(edges_match(ctx, h.0 as int, drop_imports(ss, 0)));
                }
                let mut k: usize = 0;
                while k < uses.len()
                    invariant
                        ctx.wf(),
                        0 <= pops <= usize::MAX as int,
                        pops + ctx.queue@.len() == ctx.sources@.len(),
                        queue_distinct(ctx.queue@),
                        pending_unstarted(ctx),
                        (ctx.sources@[0]).1.language == language,
                        (ctx.sources@[0]).1.source@ == code@,
                        (h.0 as int) < ctx.sources@.len(),
                        forall|q: int|
                            0 <= q < ctx.queue@.len() ==> (#[trigger] ctx.queue@[q]).0 != h.0,
                        k <= uses@.len(),
                        forall|k1: int, k2: int|
                            0 <= k1 < k2 < uses@.len() ==> (#[trigger] uses@[k1]).position < (
                            #[trigger] uses@[k2]).position,
                        ((ctx.sources@[h.0 as int]).2)@.len() == 0 || ((k as int) < uses@.len()
                            ==> (((((ctx.sources@[h.0 as int]).2)@.last()).0).0 as int) < (uses@[
                            k as int].position as int)),
                        (ctx.sources@[h.0 as int]).1 == raw0,
                        raw0.cst is Some,
                        cst0 == raw0.cst->0,
                        us0 == crate::building::uses_of(cst0, raw0.language),
                        ss == crate::building::solved_seq(
                            cst0,
                            crate::building::java::DefaultRefAna,
                            us0,
                            raw0.language,
                            us0.len() as int,
                        ),
                        uses@.len() == ss.len(),
                        forall|e: int|
                            0 <= e < uses@.len() ==> crate::building::pu_matches(
                                #[trigger] uses@[e],
                                ss[e].0,
                                ss[e].1,
                            ),
                        edges_match(ctx, h.0 as int, drop_imports(ss, k as int)),
                        forall|i: int|
                            0 <= i < ctx.sources@.len() && !in_queue(ctx.queue@, i) && i != h.0
                                ==> #[trigger] entry_done(ctx, i),
                        forall|i: int|
                            1 <= i < ctx.sources@.len() ==> pair_content_ok(
                                (#[trigger] ctx.sources@[i]).0,
                                (ctx.sources@[i]).1,
                                files@,
                            ),
                    decreases uses@.len() - k,
                {
                    let u = &uses[k];
                    proof {
                        assert(crate::building::pu_matches(
                            uses@[k as int],
                            ss[k as int].0,
                            ss[k as int].1,
                        ));
                    }
                    let target: Option<(Handle, RawParseResult)> = match &u.aux {
                        Aux::Import {  } => None,
                        Aux::EvalSource { code } => {
                            let key = Handle {
                                path: SrcOrPath::Source(code.clone()),
                                lang: u.language,
                            };
                            let parsed = crate::parse(code.clone(), u.language);
                            proof {
                                assert(key_matches_solved(key, ss[k as int].1));
                                assert(pair_content_ok(key, parsed, files@));
                            }
                            Some((key, parsed))
                        },
                        Aux::EvalPath { path } => {
                            let key = Handle {
                                path: SrcOrPath::Path(path.clone()),
                                lang: u.language,
                            };
                            let parsed = match lookup_file(files, path) {
                                Some(text) => crate::parse(text, u.language),
                                None => RawParseResult {
                                    language: u.language,
                                    cst: None,
                                    source: String::new(),
                                },
                            };
                            proof {
                                assert(key_matches_solved(key, ss[k as int].1));
                                assert(pair_content_ok(key, parsed, files@));
                            }
                            Some((key, parsed))
                        },
                    };
                    match target {
                        None => {
                            proof {
                                assert((ss[k as int].1).0);
                                assert(drop_imports(ss, k as int + 1) == drop_imports(
                                    ss,
                                    k as int,
                                ));
                            }
                        },
                        Some((key, parsed)) => {
                            let ghost ctx0 = ctx;
                            let h2 = ctx.register_source(key, parsed);
                            let ghost ctx1 = ctx;
                            proof {
                                if ctx0.spec_find(key) is Some {
                                    assert(ctx1 == ctx0);
                                } else {
                                    assert(ctx1.queue@ =~= ctx0.queue@.push(h2));
                                    assert(ctx1.sources@.len() == ctx0.sources@.len() + 1);
                                    assert(h2.0 == ctx0.sources@.len());
                                    assert(ctx1.queue@[ctx1.queue@.len() - 1] == h2);
                                    assert(in_queue(ctx1.queue@, h2.0 as int));
                                }
                                lemma_find_key_some(ctx.keys_view(), key, 0);
                                assert(ctx.keys_view()[h2.0 as int] == (
                                ctx.sources@[h2.0 as int]).0);
                                assert(key_eq((ctx.sources@[h2.0 as int]).0, key));
                                assert(key_matches_solved(
                                    (ctx.sources@[h2.0 as int]).0,
                                    ss[k as int].1,
                                ));
                                preserve_after_register(ctx0, ctx1, h.0 as int, files@);
                            }
                            ctx.add_use(h, TopoOrder(u.position), h2);
                            proof {
                                assert(!(ss[k as int].1).0);
                                assert(drop_imports(ss, k as int + 1) == drop_imports(
                                    ss,
                                    k as int,
                                ).push(ss[k as int]));
                                preserve_after_add_use(ctx1, ctx, h.0 as int, files@);
                                let edges = ((ctx.sources@[h.0 as int]).2)@;
                                let exp = drop_imports(ss, k as int + 1);
                                assert forall|e: int|
                                    0 <= e < edges.len() implies {
                                    &&& (((#[trigger] edges[e]).0).0 as int) == exp[e].0
                                    &&& (((edges[e]).1).0 as int) < ctx.sources@.len()
                                    &&& key_matches_solved(
                                        (ctx.sources@[((edges[e]).1).0 as int]).0,
                                        exp[e].1,
                                    )
                                } by {
                                    let pre_edges = ((ctx1.sources@[h.0 as int]).2)@;
                                    if e + 1 == edges.len() {
                                        assert(edges[e] == (TopoOrder(uses@[k as int].position), h2));
                                    } else {
                                        assert(edges[e] == pre_edges[e]);
                                        assert((ctx.sources@[((edges[e]).1).0 as int]).0 == (
                                        ctx1.sources@[((edges[e]).1).0 as int]).0);
                                    }
                                };
                                assert(edges_match(ctx, h.0 as int, exp));
                            }
                        },
                    }
                    k = k + 1;
                }
                proof {
                    assert(drop_imports(ss, ss.len() as int) == expected_of(raw0));
                    assert(entry_done(ctx, h.0 as int));
                }
            },
        }
        proof {
            lemma_filter_all_kept(ctx.queue@, h);
        }
        let ghost ctx_before_solve = ctx;
        ctx.set_solved(h);
        proof {
            assert forall|i: int|
                0 <= i < ctx.sources@.len() && !in_queue(ctx.queue@, i)
                    implies #[trigger] entry_done(ctx, i) by {
                assert(entry_done(ctx_before_solve, i) || i == h.0);
                assert(ctx.sources@ == ctx_before_solve.sources@);
            };
        }
    }
    proof {
        assert forall|i: int|
            0 <= i < ctx.sources@.len() implies #[trigger] entry_done(ctx, i) by {
            assert(!in_queue(ctx.queue@, i));
        };
    }
    ctx
}

/// Classified entries and registered contents survive a registration:
/// existing entries, their keys and their edges are untouched, and any
/// appended entry is pending.
proof fn preserve_after_register(
    pre: GlobalContext,
    post: GlobalContext,
    skip: int,
    files: Seq<(String, String)>,
)
    requires
        pre.wf(),
        post.wf(),
        post.sources@.len() >= pre.sources@.len(),
        forall|i: int| 0 <= i < pre.sources@.len() ==> post.sources@[i] == pre.sources@[i],
        post.queue@.len() >= pre.queue@.len(),
        forall|q: int| 0 <= q < pre.queue@.len() ==> post.queue@[q] == pre.queue@[q],
        forall|i: int|
            pre.sources@.len() <= i < post.sources@.len() ==> pair_content_ok(
                (#[trigger] post.sources@[i]).0,
                (post.sources@[i]).1,
                files,
            ) && ((post.sources@[i]).2)@.len() == 0 && in_queue(post.queue@, i),
        forall|i: int|
            0 <= i < pre.sources@.len() && !in_queue(pre.queue@, i) && i != skip
                ==> #[trigger] entry_done(pre, i),
        forall|i: int|
            1 <= i < pre.sources@.len() ==> pair_content_ok(
                (#[trigger] pre.sources@[i]).0,
                (pre.sources@[i]).1,
                files,
            ),
    ensures
        forall|i: int|
            0 <= i < post.sources@.len() && !in_queue(post.queue@, i) && i != skip
                ==> #[trigger] entry_done(post, i),
        forall|i: int|
            1 <= i < post.sources@.len() ==> pair_content_ok(
                (#[trigger] post.sources@[i]).0,
                (post.sources@[i]).1,
                files,
            ),
{
    assert forall|i: int|
        0 <= i < post.sources@.len() && !in_queue(post.queue@, i) && i != skip
            implies #[trigger] entry_done(post, i) by {
        if i < pre.sources@.len() {
            if !in_queue(pre.queue@, i) {
                assert(entry_done(pre, i));
                lemma_edges_transfer(pre, post, i);
            } else {
                let k = choose|k: int|
                    0 <= k < pre.queue@.len() && (#[trigger] pre.queue@[k]).0 as int == i;
                assert(post.queue@[k] == pre.queue@[k]);
                assert(in_queue(post.queue@, i));
                assert(false);
            }
        } else {
            assert(pair_content_ok((post.sources@[i]).0, (post.sources@[i]).1, files));
            assert(in_queue(post.queue@, i));
            assert(false);
        }
    };
}

/// Classified entries and registered contents survive an edge recording
/// on another entry.
proof fn preserve_after_add_use(
    pre: GlobalContext,
    post: GlobalContext,
    touched: int,
    files: Seq<(String, String)>,
)
    requires
        pre.wf(),
        post.wf(),
        post.sources@.len() == pre.sources@.len(),
        post.queue@ == pre.queue@,
        forall|i: int|
            0 <= i < post.sources@.len() && i != touched ==> post.sources@[i] == pre.sources@[i],
        0 <= touched < pre.sources@.len(),
        (post.sources@[touched]).0 == (pre.sources@[touched]).0,
        (post.sources@[touched]).1 == (pre.sources@[touched]).1,
        forall|i: int|
            0 <= i < pre.sources@.len() && !in_queue(pre.queue@, i) && i != touched
                ==> #[trigger] entry_done(pre, i),
        forall|i: int|
            1 <= i < pre.sources@.len() ==> pair_content_ok(
                (#[trigger] pre.sources@[i]).0,
                (pre.sources@[i]).1,
                files,
            ),
    ensures
        forall|i: int|
            0 <= i < post.sources@.len() && !in_queue(post.queue@, i) && i != touched
                ==> #[trigger] entry_done(post, i),
        forall|i: int|
            1 <= i < post.sources@.len() ==> pair_content_ok(
                (#[trigger] post.sources@[i]).0,
                (post.sources@[i]).1,
                files,
            ),
{
    assert forall|i: int|
        0 <= i < post.sources@.len() && !in_queue(post.queue@, i) && i != touched
            implies #[trigger] entry_done(post, i) by {
        assert(entry_done(pre, i));
        lemma_edges_transfer(pre, post, i);
    };
}

/// An entry whose own record and whose edge targets' keys are unchanged
/// keeps its classification status.
proof fn lemma_edges_transfer(pre: GlobalContext, post: GlobalContext, i: int)
    requires
        pre.wf(),
        0 <= i < pre.sources@.len(),
        post.sources@.len() >= pre.sources@.len(),
        post.sources@[i] == pre.sources@[i],
        forall|j: int| 0 <= j < pre.sources@.len() ==> (#[trigger] post.sources@[j]).0 == (
        pre.sources@[j]).0,
        entry_done(pre, i),
    ensures
        entry_done(post, i),
{
    let exp = expected_of((pre.sources@[i]).1);
    let edges = ((pre.sources@[i]).2)@;
    assert forall|e: int|
        0 <= e < edges.len() implies {
        &&& (((#[trigger] edges[e]).0).0 as int) == exp[e].0
        &&& (((edges[e]).1).0 as int) < post.sources@.len()
        &&& key_matches_solved((post.sources@[((edges[e]).1).0 as int]).0, exp[e].1)
    } by {
        assert((((edges[e]).1).0 as int) < pre.sources@.len());
        assert((post.sources@[((edges[e]).1).0 as int]).0 == (
        pre.sources@[((edges[e]).1).0 as int]).0);
    };
}

} // verus!
