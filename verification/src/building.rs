//! The data model of classification: the shapes a polyglot call site can
//! take before resolution, and the terminal forms after resolution.
//!
//! Each supported language contributes a classifier over the crate's
//! [`Cst`](crate::cst::Cst) arena; the uniform interface is a function per
//! language selected by the [`Language`](crate::Language) enum.

use vstd::prelude::*;

pub mod java;
pub mod javascript;
pub mod python;

verus! {

/// The three kinds of polyglot elements.
#[derive(Debug, Clone, Copy, PartialEq, Eq, Structural)]
pub enum PolyglotKind {
    Eval,
    Import,
    Export,
}

/// The payload of a resolved polyglot use: inline source text, a file
/// path, or an imported binding.
#[derive(Debug, Clone, PartialEq, Eq)]
pub enum Aux {
    /// For example `eval("python", "print(1)")`: the code is inline text.
    EvalSource { code: String },
    /// For example `evalFile("js", "lib.js")`: the code lives in a file.
    EvalPath { path: String },
    /// A binding imported from the polyglot scope.
    Import {},
}

/// A fully resolved polyglot use: its payload, target language, and the
/// document position of the call site that produced it.
#[derive(Debug, Clone, PartialEq, Eq)]
pub struct PolyglotUse {
    pub aux: Aux,
    pub language: Language,
    pub position: usize,
}

/// Index of a registered tree, as handed out by the registry.
#[derive(Debug, Clone, Copy, PartialEq, Eq, Structural)]
pub struct PolygloteTreeHandle(pub usize);

impl PolyglotUse {
    /// The kind of the polyglot use.
    pub fn get_kind(&self) -> (r: PolyglotKind)
        ensures
            r == self.spec_kind(),
    {
        match self.aux {
            Aux::EvalSource { .. } => PolyglotKind::Eval,
            Aux::EvalPath { .. } => PolyglotKind::Eval,
            Aux::Import { .. } => PolyglotKind::Import,
        }
    }

    /// The kind of the polyglot use, as a specification.
    pub open spec fn spec_kind(self) -> PolyglotKind {
        match self.aux {
            Aux::EvalSource { .. } => PolyglotKind::Eval,
            Aux::EvalPath { .. } => PolyglotKind::Eval,
            Aux::Import { .. } => PolyglotKind::Import,
        }
    }
}

impl crate::PolyStuff for PolyglotUse {
    open spec fn kind_spec(&self) -> PolyglotKind {
        self.spec_kind()
    }

    open spec fn lang_spec(&self) -> Language {
        self.language
    }

    open spec fn path_spec(&self) -> Option<Seq<char>> {
        match self.aux {
            Aux::EvalPath { path } => Some(path@),
            _ => None,
        }
    }

    open spec fn source_spec(&self) -> Option<Seq<char>> {
        match self.aux {
            Aux::EvalSource { code } => Some(code@),
            _ => None,
        }
    }

    open spec fn position_spec(&self) -> int {
        self.position as int
    }

    fn kind(&self) -> PolyglotKind {
        self.get_kind()
    }

    fn lang(&self) -> Language {
        self.language
    }

    fn path(&self) -> Option<&String> {
        match &self.aux {
            Aux::EvalSource { .. } => None,
            Aux::EvalPath { path } => Some(path),
            Aux::Import { .. } => None,
        }
    }

    fn source(&self) -> Option<&String> {
        match &self.aux {
            Aux::EvalSource { code } => Some(code),
            Aux::EvalPath { .. } => None,
            Aux::Import { .. } => None,
        }
    }

    fn position(&self) -> crate::context::TopoOrder {
        crate::context::TopoOrder(self.position)
    }
}

/// A polyglot definition: a value exported into the polyglot scope.
#[derive(Debug, Clone, PartialEq, Eq)]
pub enum PolyglotDef {
    ExportValue { name: String, value: String },
}

impl PolyglotDef {
    /// The kind of the polyglot definition.
    pub fn get_kind(&self) -> (r: PolyglotKind)
        ensures
            r == PolyglotKind::Export,
    {
        match self {
            PolyglotDef::ExportValue { .. } => PolyglotKind::Export,
        }
    }
}

/// Either a polyglot definition or a polyglot use.
#[derive(Debug, Clone, PartialEq, Eq)]
pub enum PolyglotDefOrUse {
    Def(PolyglotDef),
    Use(PolyglotUse),
}

impl PolyglotDefOrUse {
    /// The kind of the wrapped definition or use.
    pub fn get_kind(&self) -> (r: PolyglotKind)
        ensures
            self is Use ==> r == self->Use_0.spec_kind(),
            self is Def ==> r == PolyglotKind::Export,
    {
        match self {
            PolyglotDefOrUse::Def(def) => def.get_kind(),
            PolyglotDefOrUse::Use(use_) => use_.get_kind(),
        }
    }
}

impl From<PolyglotUse> for PolyglotDefOrUse {
    fn from(value: PolyglotUse) -> (r: Self) {
        PolyglotDefOrUse::Use(value)
    }
}

impl vstd::std_specs::convert::FromSpecImpl<PolyglotUse> for PolyglotDefOrUse {
    open spec fn obeys_from_spec() -> bool {
        true
    }

    open spec fn from_spec(value: PolyglotUse) -> Self {
        PolyglotDefOrUse::Use(value)
    }
}

/// Errors of the per-language analyses. Classification misses are
/// reported as absence, so the only failure is a shape the analysis knows
/// it cannot handle.
#[derive(Debug, Clone, Copy, PartialEq, Eq, Structural)]
pub enum AnaError {
    /// The node matched a polyglot shape the analysis does not support.
    Unsupported,
}

/// The language argument of a not-yet-resolved use: either already a known
/// [`Language`] value, or a node that still has to be resolved to one.
#[derive(Debug, Clone, Copy, PartialEq, Eq, Structural)]
pub enum LangArg {
    Value(Language),
    Node(usize),
}

/// A classified but not yet resolved polyglot use. Node fields are indices
/// into the owning [`Cst`](crate::cst::Cst).
#[derive(Debug, Clone, Copy, PartialEq, Eq, Structural)]
pub enum UnSolvedPolyglotUse {
    /// `eval(x)` where `x` is a bare reference to a previously built value.
    EvalSource { eval: usize, name: usize },
    /// `eval(b.build())`: `name` is the receiver of the `build` call.
    EvalBuilder { call: usize, name: usize },
    /// `eval(lang, code)`: the code is handed over inline.
    EvalInline { call: usize, inline: usize, lang: LangArg },
    /// An eval form whose code argument names a file.
    EvalPath { call: usize, path: usize, lang: LangArg },
    /// An import from the polyglot scope.
    Import { call: usize, name: usize },
}

impl UnSolvedPolyglotUse {
    /// The kind of the use this will resolve to.
    pub fn get_kind(&self) -> (r: PolyglotKind)
        ensures
            r == self.spec_kind(),
    {
        match self {
            UnSolvedPolyglotUse::EvalSource { .. } => PolyglotKind::Eval,
            UnSolvedPolyglotUse::EvalBuilder { .. } => PolyglotKind::Eval,
            UnSolvedPolyglotUse::EvalInline { .. } => PolyglotKind::Eval,
            UnSolvedPolyglotUse::EvalPath { .. } => PolyglotKind::Eval,
            UnSolvedPolyglotUse::Import { .. } => PolyglotKind::Import,
        }
    }

    /// The kind of the use, as a specification.
    pub open spec fn spec_kind(self) -> PolyglotKind {
        match self {
            UnSolvedPolyglotUse::Import { .. } => PolyglotKind::Import,
            _ => PolyglotKind::Eval,
        }
    }

    /// The document position (node index) of the call site.
    pub open spec fn spec_call(self) -> int {
        match self {
            UnSolvedPolyglotUse::EvalSource { eval, .. } => eval as int,
            UnSolvedPolyglotUse::EvalBuilder { call, .. } => call as int,
            UnSolvedPolyglotUse::EvalInline { call, .. } => call as int,
            UnSolvedPolyglotUse::EvalPath { call, .. } => call as int,
            UnSolvedPolyglotUse::Import { call, .. } => call as int,
        }
    }

    /// Whether every node this use refers to is a valid index of `cst`.
    pub open spec fn valid_in(self, cst: crate::cst::Cst) -> bool {
        let n = cst.nodes@.len() as int;
        match self {
            UnSolvedPolyglotUse::EvalSource { eval, name } => eval < n && name < n,
            UnSolvedPolyglotUse::EvalBuilder { call, name } => call < n && name < n,
            UnSolvedPolyglotUse::EvalInline { call, inline, lang } => call < n && inline < n
                && (lang matches LangArg::Node(nd) ==> nd < n),
            UnSolvedPolyglotUse::EvalPath { call, path, lang } => call < n && path < n && (
            lang matches LangArg::Node(nd) ==> nd < n),
            UnSolvedPolyglotUse::Import { call, name } => call < n && name < n,
        }
    }

    /// The document position of the call site.
    pub fn call_site(&self) -> (r: usize)
        ensures
            r as int == self.spec_call(),
    {
        match self {
            UnSolvedPolyglotUse::EvalSource { eval, .. } => *eval,
            UnSolvedPolyglotUse::EvalBuilder { call, .. } => *call,
            UnSolvedPolyglotUse::EvalInline { call, .. } => *call,
            UnSolvedPolyglotUse::EvalPath { call, .. } => *call,
            UnSolvedPolyglotUse::Import { call, .. } => *call,
        }
    }
}

pub use crate::Language;

/// The classified uses of a whole tree, dispatched on the language: the
/// uniform classifier interface, selected by the [`Language`] enum.
pub open spec fn uses_of(cst: crate::cst::Cst, lang: Language) -> Seq<UnSolvedPolyglotUse> {
    let n = cst.nodes@.len() as int;
    match lang {
        Language::Java => java::JavaBuilder::java_uses_upto(cst, n),
        Language::JavaScript => javascript::JavaScriptBuilder::js_uses_upto(cst, n),
        Language::Python => python::PythonBuilder::py_uses_upto(cst, n),
    }
}

/// What classification makes of node `i` under the given language: the
/// per-language classifiers behind one uniform interface.
pub open spec fn classify_any(cst: crate::cst::Cst, lang: Language, i: int) -> Option<
    UnSolvedPolyglotUse,
> {
    match lang {
        Language::Java => java::classify_java(cst, i),
        Language::JavaScript => javascript::classify_js(cst, i),
        Language::Python => python::classify_py(cst, i),
    }
}

/// What export classification makes of node `i` under the given
/// language.
pub open spec fn classify_def_any(cst: crate::cst::Cst, lang: Language, i: int) -> Option<
    (Seq<char>, Seq<char>),
> {
    match lang {
        Language::Java => java::classify_java_def(cst, i),
        Language::JavaScript => javascript::classify_js_def(cst, i),
        Language::Python => python::classify_py_def(cst, i),
    }
}

/// Classifies one node under the given language.
pub fn try_classify(cst: &crate::cst::Cst, lang: Language, node: usize) -> (r: Option<
    UnSolvedPolyglotUse,
>)
    requires
        cst.wf(),
        cst.valid(node as int),
    ensures
        match r {
            Some(u) => classify_any(*cst, lang, node as int) == Some(u) && u.valid_in(*cst),
            None => classify_any(*cst, lang, node as int) is None,
        },
{
    let r = match lang {
        Language::Java => java::JavaBuilder::init(cst).try_compute_polyglot_use(node),
        Language::JavaScript => javascript::JavaScriptBuilder::init(
            cst,
        ).try_compute_polyglot_use(node),
        Language::Python => python::PythonBuilder::init(cst).try_compute_polyglot_use(node),
    };
    match r {
        Some(Ok(u)) => Some(u),
        Some(Err(_)) => None,
        None => None,
    }
}

/// Classifies one node as a definition under the given language.
pub fn try_classify_def(cst: &crate::cst::Cst, lang: Language, node: usize) -> (r: Option<
    PolyglotDef,
>)
    requires
        cst.wf(),
        cst.valid(node as int),
    ensures
        match r {
            Some(d) => classify_def_any(*cst, lang, node as int) matches Some(s)
                && java::def_matches(d, s),
            None => classify_def_any(*cst, lang, node as int) is None,
        },
{
    let r = match lang {
        Language::Java => java::JavaBuilder::init(cst).try_compute_polyglot_def(node),
        Language::JavaScript => javascript::JavaScriptBuilder::init(
            cst,
        ).try_compute_polyglot_def(node),
        Language::Python => python::PythonBuilder::init(cst).try_compute_polyglot_def(node),
    };
    match r {
        Some(Ok(d)) => Some(d),
        Some(Err(_)) => None,
        None => None,
    }
}

/// The successful resolutions among the first `j` uses, in document
/// order: each kept entry pairs the use's call position with the solved
/// tuple that [`java::spec_solve_use`] yields for it.
pub open spec fn solved_seq<A: java::ReferenceAnalysis>(
    cst: crate::cst::Cst,
    ana: A,
    us: Seq<UnSolvedPolyglotUse>,
    owner: Language,
    j: int,
) -> Seq<(int, (bool, Language, bool, Seq<char>))>
    decreases j,
{
    if j <= 0 {
        Seq::empty()
    } else {
        let rest = solved_seq(cst, ana, us, owner, j - 1);
        match java::spec_solve_use(cst, ana, us[j - 1], owner) {
            Ok(s) => rest.push((us[j - 1].spec_call(), s)),
            Err(_) => rest,
        }
    }
}

/// Whether the resolved use `pu` carries the call position `pos` and the
/// solved tuple `s`.
pub open spec fn pu_matches(
    pu: PolyglotUse,
    pos: int,
    s: (bool, Language, bool, Seq<char>),
) -> bool {
    &&& pu.position == pos
    &&& pu.language == s.1
    &&& if s.0 {
        pu.aux is Import
    } else if s.2 {
        pu.aux matches Aux::EvalPath { path } && path@ == s.3
    } else {
        pu.aux matches Aux::EvalSource { code } && code@ == s.3
    }
}

/// Whether `pu` is the successful resolution of one of the uses in `us`.
pub open spec fn solved_from<A: java::ReferenceAnalysis>(
    cst: crate::cst::Cst,
    ana: A,
    owner: Language,
    us: Seq<UnSolvedPolyglotUse>,
    pu: PolyglotUse,
) -> bool {
    exists|j: int|
        0 <= j < us.len() && #[trigger] java::solved_matches(
            Ok(pu),
            java::spec_solve_use(cst, ana, us[j], owner),
            us[j],
        )
}

/// Whether `pu`'s position is the call site of one of the first `i` uses
/// in `us`.
pub open spec fn pos_from_prefix(
    us: Seq<UnSolvedPolyglotUse>,
    i: int,
    pu: PolyglotUse,
) -> bool {
    exists|j: int| 0 <= j < i && (pu.position as int) == (#[trigger] us[j]).spec_call()
}

/// Resolves every classified use in turn, dropping the ones that fail;
/// the survivors keep their document order, so their positions are
/// strictly increasing.
pub fn solve_all<A: java::ReferenceAnalysis>(
    cst: &crate::cst::Cst,
    ana: &A,
    us: &Vec<UnSolvedPolyglotUse>,
    owner: Language,
) -> (r: Vec<PolyglotUse>)
    requires
        cst.wf(),
        forall|k: int| 0 <= k < us@.len() ==> (#[trigger] us@[k]).valid_in(*cst),
        forall|k1: int, k2: int|
            0 <= k1 < k2 < us@.len() ==> (#[trigger] us@[k1]).spec_call() < (
            #[trigger] us@[k2]).spec_call(),
    ensures
        forall|k1: int, k2: int|
            0 <= k1 < k2 < r@.len() ==> (#[trigger] r@[k1]).position < (
            #[trigger] r@[k2]).position,
        forall|k: int|
            0 <= k < r@.len() ==> solved_from(*cst, *ana, owner, us@, #[trigger] r@[k]),
        r@.len() == solved_seq(*cst, *ana, us@, owner, us@.len() as int).len(),
        forall|e: int|
            0 <= e < r@.len() ==> pu_matches(
                #[trigger] r@[e],
                solved_seq(*cst, *ana, us@, owner, us@.len() as int)[e].0,
                solved_seq(*cst, *ana, us@, owner, us@.len() as int)[e].1,
            ),
{
    let mut r: Vec<PolyglotUse> = Vec::new();
    let mut i: usize = 0;
    while i < us.len()
        invariant
            i <= us@.len(),
            cst.wf(),
            forall|k: int| 0 <= k < us@.len() ==> (#[trigger] us@[k]).valid_in(*cst),
            forall|k1: int, k2: int|
                0 <= k1 < k2 < us@.len() ==> (#[trigger] us@[k1]).spec_call() < (
                #[trigger] us@[k2]).spec_call(),
            forall|k1: int, k2: int|
                0 <= k1 < k2 < r@.len() ==> (#[trigger] r@[k1]).position < (
                #[trigger] r@[k2]).position,
            forall|k: int|
                0 <= k < r@.len() ==> solved_from(*cst, *ana, owner, us@, #[trigger] r@[k]),
            forall|k: int| 0 <= k < r@.len() ==> pos_from_prefix(us@, i as int, #[trigger] r@[k]),
            r@.len() == solved_seq(*cst, *ana, us@, owner, i as int).len(),
            forall|e: int|
                0 <= e < r@.len() ==> pu_matches(
                    #[trigger] r@[e],
                    solved_seq(*cst, *ana, us@, owner, i as int)[e].0,
                    solved_seq(*cst, *ana, us@, owner, i as int)[e].1,
                ),
        decreases us@.len() - i,
    {
        let u = &us[i];
        let ghost ss_pre = solved_seq(*cst, *ana, us@, owner, i as int);
        match java::solve_use(cst, ana, u, owner) {
            Err(_) => {
                proof {
                    assert(solved_seq(*cst, *ana, us@, owner, i as int + 1) == ss_pre);
                }
            },
            Ok(pu) => {
                let ghost pre = r@;
                proof {
                    assert(java::solved_matches(
                        Ok(pu),
                        java::spec_solve_use(*cst, *ana, us@[i as int], owner),
                        us@[i as int],
                    ));
                }
                r.push(pu);
                proof {
                    let ss_post = solved_seq(*cst, *ana, us@, owner, i as int + 1);
                    match java::spec_solve_use(*cst, *ana, us@[i as int], owner) {
                        Ok(s) => {
                            assert(ss_post == ss_pre.push((us@[i as int].spec_call(), s)));
                            assert forall|e: int| 0 <= e < r@.len() implies pu_matches(
                                #[trigger] r@[e],
                                ss_post[e].0,
                                ss_post[e].1,
                            ) by {
                                if e + 1 == r@.len() {
                                    assert(r@[e] == pu);
                                    assert(ss_post[e] == (us@[i as int].spec_call(), s));
                                } else {
                                    assert(r@[e] == pre[e]);
                                    assert(ss_post[e] == ss_pre[e]);
                                }
                            };
                        },
                        Err(_) => {
                            assert(false);
                        },
                    }
                    assert forall|k: int| 0 <= k < r@.len() implies solved_from(
                        *cst,
                        *ana,
                        owner,
                        us@,
                        #[trigger] r@[k],
                    ) && pos_from_prefix(us@, i as int + 1, r@[k]) by {
                        if k + 1 == r@.len() {
                            assert(r@[k] == pu);
                            assert((pu.position as int) == us@[i as int].spec_call());
                        } else {
                            assert(r@[k] == pre[k]);
                            let j = choose|j: int|
                                0 <= j < i && (pre[k].position as int) == (
                                #[trigger] us@[j]).spec_call();
                            assert((r@[k].position as int) == us@[j].spec_call());
                        }
                    };
                    assert forall|k1: int, k2: int|
                        0 <= k1 < k2 < r@.len() implies (#[trigger] r@[k1]).position < (
                    #[trigger] r@[k2]).position by {
                        if k2 + 1 == r@.len() {
                            assert(r@[k1] == pre[k1]);
                            let j = choose|j: int|
                                0 <= j < i && (pre[k1].position as int) == (
                                #[trigger] us@[j]).spec_call();
                            assert(us@[j].spec_call() < us@[i as int].spec_call());
                        } else {
                            assert(r@[k1] == pre[k1] && r@[k2] == pre[k2]);
                        }
                    };
                }
            },
        }
        i = i + 1;
    }
    r
}

} // verus!
