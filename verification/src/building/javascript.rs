//! Classification of polyglot call sites in JavaScript sources.
//!
//! JavaScript uses member-access calls on the polyglot object:
//! `Polyglot.eval(lang, code)` for inline code, `Polyglot.evalFile(lang,
//! path)` for files, and `import`/`export` member calls for bindings.

use vstd::prelude::*;

use crate::building::AnaError;
use crate::building::LangArg;
use crate::building::PolyglotDef;
use crate::building::UnSolvedPolyglotUse;
use crate::building::java::kids;
use crate::building::java::knd;
use crate::building::java::txt;
use crate::cst::Cst;
use crate::util::language_of_tag;
use crate::util::str_eq;
use crate::util::strip_quotes;
use crate::util::strip_quotes_spec;

verus! {

/// The property name node of a member call, if `i` has that shape:
/// `obj.name(args)` is a call expression whose callee is a member
/// expression carrying the name as its third child.
pub open spec fn js_call_name(cst: Cst, i: int) -> Option<int> {
    if knd(cst, i) == "call_expression"@ && kids(cst, i).len() == 2 && knd(
        cst,
        kids(cst, i)[0] as int,
    ) == "member_expression"@ && kids(cst, kids(cst, i)[0] as int).len() > 2 && knd(
        cst,
        kids(cst, kids(cst, i)[0] as int)[2] as int,
    ) == "property_identifier"@ {
        Some(kids(cst, kids(cst, i)[0] as int)[2] as int)
    } else {
        None
    }
}

/// The argument list node of a call expression.
pub open spec fn js_args(cst: Cst, i: int) -> int {
    kids(cst, i)[1] as int
}

/// The language argument of a JavaScript eval: a valid literal tag
/// becomes a language value at once; everything else is left to the
/// resolver.
pub open spec fn js_lang_arg(cst: Cst, n: int) -> LangArg {
    if knd(cst, n) == "string"@ {
        match language_of_tag(strip_quotes_spec(txt(cst, n))) {
            Some(l) => LangArg::Value(l),
            None => LangArg::Node(n as usize),
        }
    } else {
        LangArg::Node(n as usize)
    }
}

/// What classification makes of node `i` in a JavaScript source. A shape
/// mismatch of any sort is a miss, never an error.
pub open spec fn classify_js(cst: Cst, i: int) -> Option<UnSolvedPolyglotUse> {
    match js_call_name(cst, i) {
        None => None,
        Some(c) => {
            let a = js_args(cst, i);
            if knd(cst, a) != "arguments"@ {
                None
            } else if txt(cst, c) == "eval"@ {
                if kids(cst, a).len() == 5 {
                    Some(
                        UnSolvedPolyglotUse::EvalInline {
                            call: i as usize,
                            inline: kids(cst, a)[3],
                            lang: js_lang_arg(cst, kids(cst, a)[1] as int),
                        },
                    )
                } else {
                    None
                }
            } else if txt(cst, c) == "evalFile"@ {
                if kids(cst, a).len() == 5 {
                    Some(
                        UnSolvedPolyglotUse::EvalPath {
                            call: i as usize,
                            path: kids(cst, a)[3],
                            lang: js_lang_arg(cst, kids(cst, a)[1] as int),
                        },
                    )
                } else {
                    None
                }
            } else if txt(cst, c) == "import"@ {
                if kids(cst, a).len() == 3 {
                    Some(
                        UnSolvedPolyglotUse::Import { call: i as usize, name: kids(cst, a)[1] },
                    )
                } else {
                    None
                }
            } else {
                None
            }
        },
    }
}

/// What export classification makes of node `i`: an
/// `export(name, value)` member call.
pub open spec fn classify_js_def(cst: Cst, i: int) -> Option<(Seq<char>, Seq<char>)> {
    match js_call_name(cst, i) {
        None => None,
        Some(c) => {
            let a = js_args(cst, i);
            if knd(cst, a) == "arguments"@ && txt(cst, c) == "export"@ && kids(cst, a).len()
                == 5 {
                Some(
                    (
                        strip_quotes_spec(txt(cst, kids(cst, a)[1] as int)),
                        txt(cst, kids(cst, a)[3] as int),
                    ),
                )
            } else {
                None
            }
        },
    }
}

/// The analysis of one JavaScript source over the crate's arena
/// representation.
pub struct JavaScriptBuilder<'tree> {
    pub payload: &'tree Cst,
}

impl<'tree> JavaScriptBuilder<'tree> {
    /// Wraps a parsed tree for analysis.
    pub fn init(payload: &'tree Cst) -> (r: JavaScriptBuilder<'tree>)
        ensures
            r.payload == payload,
    {
        JavaScriptBuilder { payload }
    }

    /// The source text of one node.
    pub fn node_to_code(&self, node: usize) -> (r: &String)
        requires
            self.payload.valid(node as int),
        ensures
            r@ == txt(*self.payload, node as int),
    {
        self.payload.text(node)
    }

    /// The property name node of a member call, as classification sees
    /// it.
    pub fn get_polyglot_call(&self, node: usize) -> (r: Option<usize>)
        requires
            self.payload.wf(),
            self.payload.valid(node as int),
        ensures
            match r {
                Some(c) => js_call_name(*self.payload, node as int) == Some(c as int)
                    && self.payload.valid(c as int),
                None => js_call_name(*self.payload, node as int) is None,
            },
    {
        let cst = self.payload;
        if !str_eq(cst.kind(node).as_str(), "call_expression") {
            return None;
        }
        if cst.child_count(node) != 2 {
            return None;
        }
        let m = cst.child(node, 0).unwrap();
        if !str_eq(cst.kind(m).as_str(), "member_expression") {
            return None;
        }
        if cst.child_count(m) <= 2 {
            return None;
        }
        let c = cst.child(m, 2).unwrap();
        if str_eq(cst.kind(c).as_str(), "property_identifier") {
            Some(c)
        } else {
            None
        }
    }

    /// Classifies one node, returning the shape of the polyglot use it
    /// forms, if any.
    pub fn try_compute_polyglot_use(&self, node: usize) -> (r: Option<
        Result<UnSolvedPolyglotUse, AnaError>,
    >)
        requires
            self.payload.wf(),
            self.payload.valid(node as int),
        ensures
            match r {
                Some(u) => u is Ok && classify_js(*self.payload, node as int) == Some(u->Ok_0)
                    && u->Ok_0.valid_in(*self.payload),
                None => classify_js(*self.payload, node as int) is None,
            },
    {
        let cst = self.payload;
        let c = match self.get_polyglot_call(node) {
            Some(c) => c,
            None => {
                return None;
            },
        };
        let a = cst.child(node, 1).unwrap();
        if !str_eq(cst.kind(a).as_str(), "arguments") {
            return None;
        }
        let is_eval = str_eq(cst.text(c).as_str(), "eval");
        let is_eval_file = str_eq(cst.text(c).as_str(), "evalFile");
        if is_eval || is_eval_file {
            if cst.child_count(a) == 5 {
                let lang_node = cst.child(a, 1).unwrap();
                let payload_node = cst.child(a, 3).unwrap();
                let lang = if str_eq(cst.kind(lang_node).as_str(), "string") {
                    let tag = strip_quotes(cst.text(lang_node).as_str());
                    match crate::util::language_string_to_enum(tag.as_str()) {
                        Ok(l) => LangArg::Value(l),
                        Err(_) => LangArg::Node(lang_node),
                    }
                } else {
                    LangArg::Node(lang_node)
                };
                if is_eval {
                    Some(
                        Ok(
                            UnSolvedPolyglotUse::EvalInline {
                                call: node,
                                inline: payload_node,
                                lang,
                            },
                        ),
                    )
                } else {
                    Some(
                        Ok(
                            UnSolvedPolyglotUse::EvalPath {
                                call: node,
                                path: payload_node,
                                lang,
                            },
                        ),
                    )
                }
            } else {
                None
            }
        } else if str_eq(cst.text(c).as_str(), "import") {
            if cst.child_count(a) == 3 {
                let name = cst.child(a, 1).unwrap();
                Some(Ok(UnSolvedPolyglotUse::Import { call: node, name }))
            } else {
                None
            }
        } else {
            None
        }
    }

    /// What a whole-tree scan finds up to node `n`: every classified use,
    /// in document order.
    pub open spec fn js_uses_upto(cst: Cst, n: int) -> Seq<UnSolvedPolyglotUse>
        decreases n,
    {
        if n <= 0 {
            Seq::empty()
        } else {
            match classify_js(cst, n - 1) {
                Some(u) => Self::js_uses_upto(cst, n - 1).push(u),
                None => Self::js_uses_upto(cst, n - 1),
            }
        }
    }

    /// Scans the whole tree in document order and returns every
    /// classified use.
    pub fn find_polyglot_uses(&self) -> (r: Vec<UnSolvedPolyglotUse>)
        requires
            self.payload.wf(),
        ensures
            r@ == Self::js_uses_upto(*self.payload, self.payload.nodes@.len() as int),
    {
        let cst = self.payload;
        let n = cst.len();
        let mut uses: Vec<UnSolvedPolyglotUse> = Vec::new();
        let mut i: usize = 0;
        while i < n
            invariant
                i <= n,
                n == cst.nodes@.len(),
                self.payload.wf(),
                cst == self.payload,
                uses@ == Self::js_uses_upto(*cst, i as int),
            decreases n - i,
        {
            match self.try_compute_polyglot_use(i) {
                Some(Ok(u)) => uses.push(u),
                Some(Err(_)) => (),
                None => (),
            }
            i = i + 1;
        }
        uses
    }

    /// Classifies one node as a polyglot definition, if it matches the
    /// export convention.
    pub fn try_compute_polyglot_def(&self, node: usize) -> (r: Option<
        Result<PolyglotDef, AnaError>,
    >)
        requires
            self.payload.wf(),
            self.payload.valid(node as int),
        ensures
            match r {
                Some(d) => d is Ok && (classify_js_def(*self.payload, node as int) matches Some(s)
                    && crate::building::java::def_matches(d->Ok_0, s)),
                None => classify_js_def(*self.payload, node as int) is None,
            },
    {
        let cst = self.payload;
        let c = match self.get_polyglot_call(node) {
            Some(c) => c,
            None => {
                return None;
            },
        };
        let a = cst.child(node, 1).unwrap();
        if !str_eq(cst.kind(a).as_str(), "arguments") {
            return None;
        }
        if str_eq(cst.text(c).as_str(), "export") && cst.child_count(a) == 5 {
            let name_node = cst.child(a, 1).unwrap();
            let value_node = cst.child(a, 3).unwrap();
            Some(
                Ok(
                    PolyglotDef::ExportValue {
                        name: strip_quotes(cst.text(name_node).as_str()),
                        value: cst.text(value_node).clone(),
                    },
                ),
            )
        } else {
            None
        }
    }
}

/// Classification reports the classified node itself as the call site,
/// and every node it refers to is valid; so a whole-tree scan yields
/// strictly increasing call sites.
pub proof fn lemma_js_uses_increasing(cst: Cst, n: int)
    requires
        0 <= n <= usize::MAX,
        n <= cst.nodes@.len(),
        cst.wf(),
    ensures
        forall|k1: int, k2: int|
            0 <= k1 < k2 < JavaScriptBuilder::js_uses_upto(cst, n).len()
                ==> (#[trigger] JavaScriptBuilder::js_uses_upto(cst, n)[k1]).spec_call() < (
            #[trigger] JavaScriptBuilder::js_uses_upto(cst, n)[k2]).spec_call(),
        forall|k: int|
            0 <= k < JavaScriptBuilder::js_uses_upto(cst, n).len()
                ==> (#[trigger] JavaScriptBuilder::js_uses_upto(cst, n)[k]).spec_call() < n,
        forall|k: int|
            0 <= k < JavaScriptBuilder::js_uses_upto(cst, n).len() ==> (#[trigger] JavaScriptBuilder::js_uses_upto(cst, n)[k]).valid_in(cst),
    decreases n,
{
    if n > 0 {
        lemma_js_uses_increasing(cst, n - 1);
        let prev = JavaScriptBuilder::js_uses_upto(cst, n - 1);
        let cur = JavaScriptBuilder::js_uses_upto(cst, n);
        match classify_js(cst, n - 1) {
            Some(u) => {
                assert(cur == prev.push(u));
                assert(u.valid_in(cst));
                assert forall|k: int| 0 <= k < cur.len() implies (#[trigger] cur[k]).spec_call()
                    < n && (#[trigger] cur[k]).valid_in(cst) by {
                    if k < prev.len() {
                        assert(cur[k] == prev[k]);
                    } else {
                        assert(cur[k] == u);
                    }
                };
                assert forall|k1: int, k2: int|
                    0 <= k1 < k2 < cur.len() implies (#[trigger] cur[k1]).spec_call() < (
                #[trigger] cur[k2]).spec_call() by {
                    assert(cur[k1] == prev[k1]);
                    if k2 < prev.len() {
                        assert(cur[k2] == prev[k2]);
                    } else {
                        assert(cur[k2] == u);
                    }
                };
            },
            None => {
                assert(cur == prev);
            },
        }
    }
}

} // verus!
