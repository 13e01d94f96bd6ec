//! Analysis of polyglot programs: programs in one language that hand source
//! text or file paths, tagged with a target language, to an embedded
//! evaluator for another language.
//!
//! The crate detects such call sites in a concrete syntax tree, resolves
//! indirect arguments down to concrete `(language, source)` pairs, registers
//! the discovered sources in a deduplicating registry driven by a worklist
//! fixpoint, and exposes a zipper cursor that walks the composed trees as one
//! logical tree.

use vstd::prelude::*;

pub mod builder;
pub mod building;
pub mod context;
pub mod cst;
pub mod polyglot_tree;
pub mod tree_sitter_utils;
pub mod util;

pub use builder::PolyglotAstBuilder;
pub use polyglot_tree::polyglot_processor::PolygotProcessor;
pub use polyglot_tree::polyglot_processor::TreePrinter;
pub use polyglot_tree::polyglot_zipper::PolyglotZipper;
pub use polyglot_tree::PolyglotTree;

verus! {

/// The languages supported by this crate.
#[derive(Debug, Clone, Copy, PartialEq, Eq, Hash, Structural)]
pub enum Language {
    Python,
    JavaScript,
    Java,
}

/// The outcome of parsing one source text: the language it was parsed as,
/// the text itself, and the concrete syntax tree, absent when parsing
/// failed.
#[derive(Debug)]
pub struct RawParseResult {
    pub language: Language,
    pub cst: Option<cst::Cst>,
    pub source: String,
}

/// Whether two parse results carry the same data.
pub open spec fn raw_like(a: RawParseResult, b: RawParseResult) -> bool {
    &&& a.language == b.language
    &&& a.source@ == b.source@
    &&& match (a.cst, b.cst) {
        (Some(ca), Some(cb)) => cst::cst_like(ca, cb),
        (None, None) => true,
        _ => false,
    }
}

/// Well-formedness of a parse result: if a tree is present, it is a
/// well-formed arena.
pub open spec fn raw_wf(r: RawParseResult) -> bool {
    r.cst matches Some(c) ==> c.wf()
}

impl RawParseResult {
    /// A copy of this parse result carrying the same data.
    pub fn duplicate(&self) -> (r: RawParseResult)
        ensures
            raw_like(r, *self),
            raw_wf(*self) ==> raw_wf(r),
    {
        RawParseResult {
            language: self.language,
            cst: match &self.cst {
                Some(c) => Some(c.duplicate()),
                None => None,
            },
            source: self.source.clone(),
        }
    }
}

impl RawParseResult {
    /// Classifies and resolves every polyglot use of this parse result,
    /// in document order, or `None` if parsing had failed. Uses that fail
    /// to resolve are dropped; the survivors' positions are strictly
    /// increasing.
    pub fn compute_polyglot_stuff(&self) -> (r: Option<Vec<building::PolyglotUse>>)
        requires
            raw_wf(*self),
        ensures
            r is Some <==> self.cst is Some,
            r matches Some(v) ==> {
                let us = building::uses_of(self.cst->0, self.language);
                let ss = building::solved_seq(
                    self.cst->0,
                    building::java::DefaultRefAna,
                    us,
                    self.language,
                    us.len() as int,
                );
                &&& forall|k1: int, k2: int|
                    0 <= k1 < k2 < v@.len() ==> (#[trigger] v@[k1]).position < (
                    #[trigger] v@[k2]).position
                &&& forall|k: int|
                    0 <= k < v@.len() ==> building::solved_from(
                        self.cst->0,
                        building::java::DefaultRefAna,
                        self.language,
                        us,
                        #[trigger] v@[k],
                    )
                &&& v@.len() == ss.len()
                &&& forall|e: int|
                    0 <= e < v@.len() ==> building::pu_matches(
                        #[trigger] v@[e],
                        ss[e].0,
                        ss[e].1,
                    )
            },
    {
        match &self.cst {
            None => None,
            Some(cst) => {
                let ana = building::java::DefaultRefAna;
                let us: Vec<building::UnSolvedPolyglotUse> = match self.language {
                    Language::Java => building::java::JavaBuilder::init(
                        cst,
                    ).find_polyglot_uses(),
                    Language::JavaScript => building::javascript::JavaScriptBuilder::init(
                        cst,
                    ).find_polyglot_uses(),
                    Language::Python => building::python::PythonBuilder::init(
                        cst,
                    ).find_polyglot_uses(),
                };
                let node_count = cst.len();
                proof {
                    let n = node_count as int;
                    match self.language {
                        Language::Java => building::java::lemma_java_uses_increasing(*cst, n),
                        Language::JavaScript => building::javascript::lemma_js_uses_increasing(
                            *cst,
                            n,
                        ),
                        Language::Python => building::python::lemma_py_uses_increasing(*cst, n),
                    }
                    assert(us@ == building::uses_of(*cst, self.language));
                }
                Some(building::solve_all(cst, &ana, &us, self.language))
            },
        }
    }
}

/// Parses `code` as `language`. A parse failure is recorded as an absent
/// tree, not an error.
pub fn parse(code: String, language: Language) -> (r: RawParseResult)
    ensures
        r.language == language,
        r.source@ == code@,
        raw_wf(r),
{
    let cst = tree_sitter_utils::parse_text(code.as_str(), &language);
    RawParseResult { language, cst, source: code }
}

/// What downstream consumers need to know of a resolved polyglot element.
pub trait PolyStuff {
    /// The kind of the element, as a specification.
    spec fn kind_spec(&self) -> building::PolyglotKind;

    /// The target language of the element, as a specification.
    spec fn lang_spec(&self) -> Language;

    /// The file path of the target, as a specification.
    spec fn path_spec(&self) -> Option<Seq<char>>;

    /// The inline source text of the target, as a specification.
    spec fn source_spec(&self) -> Option<Seq<char>>;

    /// The document position of the call site, as a specification.
    spec fn position_spec(&self) -> int;

    /// The kind of the element.
    fn kind(&self) -> (r: building::PolyglotKind)
        ensures
            r == self.kind_spec(),
    ;

    /// The target language of the element.
    fn lang(&self) -> (r: Language)
        ensures
            r == self.lang_spec(),
    ;

    /// The file path of the target, for path-based uses.
    fn path(&self) -> (r: Option<&String>)
        ensures
            match r {
                Some(p) => self.path_spec() == Some(p@),
                None => self.path_spec() is None,
            },
    ;

    /// The inline source text of the target, for inline uses.
    fn source(&self) -> (r: Option<&String>)
        ensures
            match r {
                Some(c) => self.source_spec() == Some(c@),
                None => self.source_spec() is None,
            },
    ;

    /// The document position of the call site.
    fn position(&self) -> (r: context::TopoOrder)
        ensures
            r.0 as int == self.position_spec(),
    ;
}

/// Enumeration of the polyglot elements a per-language analysis finds.
pub trait PolyBuilder {
    /// Validity of the analysis input.
    spec fn inv(&self) -> bool;

    /// All resolved polyglot uses of the analysed tree, in document order.
    fn polyglot_stuff(&self) -> (r: Vec<building::PolyglotUse>)
        requires
            self.inv(),
        ensures
            forall|k1: int, k2: int|
                0 <= k1 < k2 < r@.len() ==> (#[trigger] r@[k1]).position < (
                #[trigger] r@[k2]).position,
    ;
}

impl<'t> PolyBuilder for building::java::JavaBuilder<'t> {
    open spec fn inv(&self) -> bool {
        self.payload.wf()
    }

    fn polyglot_stuff(&self) -> (r: Vec<building::PolyglotUse>) {
        let us = self.find_polyglot_uses();
        let n = self.payload.len();
        proof {
            building::java::lemma_java_uses_increasing(*self.payload, n as int);
        }
        building::solve_all(self.payload, &building::java::DefaultRefAna, &us, Language::Java)
    }
}

impl<'t> PolyBuilder for building::javascript::JavaScriptBuilder<'t> {
    open spec fn inv(&self) -> bool {
        self.payload.wf()
    }

    fn polyglot_stuff(&self) -> (r: Vec<building::PolyglotUse>) {
        let us = self.find_polyglot_uses();
        let n = self.payload.len();
        proof {
            building::javascript::lemma_js_uses_increasing(*self.payload, n as int);
        }
        building::solve_all(
            self.payload,
            &building::java::DefaultRefAna,
            &us,
            Language::JavaScript,
        )
    }
}

impl<'t> PolyBuilder for building::python::PythonBuilder<'t> {
    open spec fn inv(&self) -> bool {
        self.payload.wf()
    }

    fn polyglot_stuff(&self) -> (r: Vec<building::PolyglotUse>) {
        let us = self.find_polyglot_uses();
        let n = self.payload.len();
        proof {
            building::python::lemma_py_uses_increasing(*self.payload, n as int);
        }
        building::solve_all(self.payload, &building::java::DefaultRefAna, &us, Language::Python)
    }
}

} // verus!
