//! One parsed source together with its text and language, and the
//! consumers that walk it: the zipper cursor and the processors.

use vstd::prelude::*;

pub mod polyglot_processor;
pub mod polyglot_zipper;

use crate::cst::cst_like;
use crate::cst::Cst;

verus! {

/// One successfully parsed source: its concrete syntax tree, its text,
/// and the language it was parsed as.
#[derive(Debug)]
pub struct PolyglotTree {
    pub tree: Cst,
    pub code: String,
    pub language: crate::Language,
}

impl PolyglotTree {
    /// Whether the held tree is a well-formed arena.
    pub open spec fn wf(self) -> bool {
        self.tree.wf()
    }

    /// Builds a tree from a parse result; `None` if parsing had failed.
    pub fn from_raw(value: &crate::RawParseResult) -> (r: Option<PolyglotTree>)
        requires
            crate::raw_wf(*value),
        ensures
            r is Some <==> value.cst is Some,
            r matches Some(t) ==> {
                &&& t.wf()
                &&& cst_like(t.tree, value.cst->0)
                &&& t.code@ == value.source@
                &&& t.language == value.language
            },
    {
        match &value.cst {
            None => None,
            Some(c) => Some(
                PolyglotTree {
                    tree: c.duplicate(),
                    code: value.source.clone(),
                    language: value.language,
                },
            ),
        }
    }

    /// Parses `code` as `language`; a parse failure yields a result
    /// without a tree.
    pub fn parse(code: String, language: crate::Language) -> (r: ParsingResult)
        ensures
            r.tree matches Some(t) ==> t.wf() && t.code@ == code@ && t.language == language,
    {
        let raw = crate::parse(code, language);
        ParsingResult::of_raw(raw)
    }

    /// Applies the given processor to this tree, starting from the root.
    pub fn apply<P: polyglot_processor::PolygotProcessor>(&self, processor: &mut P)
        requires
            self.wf(),
    {
        processor.process(self);
    }

    /// The source text of one node of this tree.
    pub fn node_to_code(&self, node: usize) -> (r: &String)
        requires
            self.tree.valid(node as int),
        ensures
            r == self.tree.nodes@[node as int].text,
    {
        self.tree.text(node)
    }

    /// The root node of this tree.
    pub fn root_node(&self) -> (r: usize)
        ensures
            r == 0,
    {
        0
    }
}

/// The outcome of parsing one source: the tree if parsing succeeded, and
/// the accumulated warnings.
#[derive(Debug)]
pub struct ParsingResult {
    pub tree: Option<PolyglotTree>,
    pub errors: Vec<String>,
}

impl ParsingResult {
    /// The parsed tree, if parsing succeeded.
    pub fn tree(&self) -> (r: &Option<PolyglotTree>)
        ensures
            r == self.tree,
    {
        &self.tree
    }

    /// Repackages a parse result.
    pub fn of_raw(value: crate::RawParseResult) -> (r: ParsingResult)
        requires
            crate::raw_wf(value),
        ensures
            r.tree is Some <==> value.cst is Some,
            r.tree matches Some(t) ==> t.wf() && t.code@ == value.source@ && t.language
                == value.language,
    {
        let tree = match value.cst {
            None => None,
            Some(c) => Some(PolyglotTree { tree: c, code: value.source, language: value.language }),
        };
        ParsingResult { tree, errors: Vec::new() }
    }
}

} // verus!
