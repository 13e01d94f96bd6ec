//! Classification of polyglot call sites in Python sources.
//!
//! Python uses keyword arguments on a single eval function:
//! `polyglot.eval(language=..., string=...)` for inline code and
//! `polyglot.eval(language=..., path=...)` for files, together with
//! `import_value`/`export_value` calls for bindings.

use vstd::prelude::*;

use crate::building::AnaError;
use crate::building::LangArg;
use crate::building::PolyglotDef;
use crate::building::UnSolvedPolyglotUse;
use crate::building::java::kids;
use crate::building::java::knd;
use crate::building::java::txt;
use crate::cst::Cst;
use crate::util::language_of_tag;
use crate::util::str_eq;
use crate::util::strip_quotes;
use crate::util::strip_quotes_spec;

verus! {

/// The attribute name node of an attribute call, if `i` has that shape:
/// `obj.name(args)` is a call whose callee is an attribute carrying the
/// name as its third child.
pub open spec fn py_call_name(cst: Cst, i: int) -> Option<int> {
    if knd(cst, i) == "call"@ && kids(cst, i).len() == 2 && knd(cst, kids(cst, i)[0] as int)
        == "attribute"@ && kids(cst, kids(cst, i)[0] as int).len() > 2 && knd(
        cst,
        kids(cst, kids(cst, i)[0] as int)[2] as int,
    ) == "identifier"@ {
        Some(kids(cst, kids(cst, i)[0] as int)[2] as int)
    } else {
        None
    }
}

/// The argument list node of a call.
pub open spec fn py_args(cst: Cst, i: int) -> int {
    kids(cst, i)[1] as int
}

/// Whether node `k` is a keyword argument `name=value`.
pub open spec fn is_kwarg(cst: Cst, k: int, name: Seq<char>) -> bool {
    &&& knd(cst, k) == "keyword_argument"@
    &&& kids(cst, k).len() == 3
    &&& knd(cst, kids(cst, k)[0] as int) == "identifier"@
    &&& txt(cst, kids(cst, k)[0] as int) == name
}

/// The value node of a keyword argument.
pub open spec fn kwarg_value(cst: Cst, k: int) -> int {
    kids(cst, k)[2] as int
}

/// The language argument of a Python eval: a valid literal tag becomes a
/// language value at once; everything else is left to the resolver.
pub open spec fn py_lang_arg(cst: Cst, n: int) -> LangArg {
    if knd(cst, n) == "string"@ {
        match language_of_tag(strip_quotes_spec(txt(cst, n))) {
            Some(l) => LangArg::Value(l),
            None => LangArg::Node(n as usize),
        }
    } else {
        LangArg::Node(n as usize)
    }
}

/// What an eval with a language keyword argument and one payload keyword
/// argument classifies to.
pub open spec fn classify_py_eval(cst: Cst, i: int, lang_kw: int, payload_kw: int) -> Option<
    UnSolvedPolyglotUse,
> {
    if is_kwarg(cst, payload_kw, "string"@) {
        Some(
            UnSolvedPolyglotUse::EvalInline {
                call: i as usize,
                inline: kwarg_value(cst, payload_kw) as usize,
                lang: py_lang_arg(cst, kwarg_value(cst, lang_kw)),
            },
        )
    } else if is_kwarg(cst, payload_kw, "path"@) {
        Some(
            UnSolvedPolyglotUse::EvalPath {
                call: i as usize,
                path: kwarg_value(cst, payload_kw) as usize,
                lang: py_lang_arg(cst, kwarg_value(cst, lang_kw)),
            },
        )
    } else {
        None
    }
}

/// What classification makes of node `i` in a Python source. A shape
/// mismatch of any sort is a miss, never an error. The two keyword
/// arguments of an eval may come in either order.
pub open spec fn classify_py(cst: Cst, i: int) -> Option<UnSolvedPolyglotUse> {
    match py_call_name(cst, i) {
        None => None,
        Some(c) => {
            let a = py_args(cst, i);
            if knd(cst, a) != "argument_list"@ {
                None
            } else if txt(cst, c) == "eval"@ {
                if kids(cst, a).len() == 5 {
                    let k1 = kids(cst, a)[1] as int;
                    let k2 = kids(cst, a)[3] as int;
                    if is_kwarg(cst, k1, "language"@) {
                        classify_py_eval(cst, i, k1, k2)
                    } else if is_kwarg(cst, k2, "language"@) {
                        classify_py_eval(cst, i, k2, k1)
                    } else {
                        None
                    }
                } else {
                    None
                }
            } else if txt(cst, c) == "import_value"@ {
                if kids(cst, a).len() == 3 {
                    Some(
                        UnSolvedPolyglotUse::Import { call: i as usize, name: kids(cst, a)[1] },
                    )
                } else {
                    None
                }
            } else {
                None
            }
        },
    }
}

/// What export classification makes of node `i`: an
/// `export_value(name, value)` call.
pub open spec fn classify_py_def(cst: Cst, i: int) -> Option<(Seq<char>, Seq<char>)> {
    match py_call_name(cst, i) {
        None => None,
        Some(c) => {
            let a = py_args(cst, i);
            if knd(cst, a) == "argument_list"@ && txt(cst, c) == "export_value"@ && kids(
                cst,
                a,
            ).len() == 5 {
                Some(
                    (
                        strip_quotes_spec(txt(cst, kids(cst, a)[1] as int)),
                        txt(cst, kids(cst, a)[3] as int),
                    ),
                )
            } else {
                None
            }
        },
    }
}

/// The analysis of one Python source over the crate's arena
/// representation.
pub struct PythonBuilder<'tree> {
    pub payload: &'tree Cst,
}

impl<'tree> PythonBuilder<'tree> {
    /// Wraps a parsed tree for analysis.
    pub fn init(payload: &'tree Cst) -> (r: PythonBuilder<'tree>)
        ensures
            r.payload == payload,
    {
        PythonBuilder { payload }
    }

    /// The attribute name node of an attribute call, as classification
    /// sees it.
    pub fn get_polyglot_call(&self, node: usize) -> (r: Option<usize>)
        requires
            self.payload.wf(),
            self.payload.valid(node as int),
        ensures
            match r {
                Some(c) => py_call_name(*self.payload, node as int) == Some(c as int)
                    && self.payload.valid(c as int),
                None => py_call_name(*self.payload, node as int) is None,
            },
    {
        let cst = self.payload;
        if !str_eq(cst.kind(node).as_str(), "call") {
            return None;
        }
        if cst.child_count(node) != 2 {
            return None;
        }
        let m = cst.child(node, 0).unwrap();
        if !str_eq(cst.kind(m).as_str(), "attribute") {
            return None;
        }
        if cst.child_count(m) <= 2 {
            return None;
        }
        let c = cst.child(m, 2).unwrap();
        if str_eq(cst.kind(c).as_str(), "identifier") {
            Some(c)
        } else {
            None
        }
    }

    /// Tests whether `k` is a keyword argument with the given name.
    fn is_kwarg_exec(&self, k: usize, name: &str) -> (r: bool)
        requires
            self.payload.wf(),
            self.payload.valid(k as int),
        ensures
            r == is_kwarg(*self.payload, k as int, name@),
    {
        let cst = self.payload;
        if !str_eq(cst.kind(k).as_str(), "keyword_argument") {
            return false;
        }
        if cst.child_count(k) != 3 {
            return false;
        }
        let n = cst.child(k, 0).unwrap();
        str_eq(cst.kind(n).as_str(), "identifier") && str_eq(cst.text(n).as_str(), name)
    }

    /// Classifies an eval once its language keyword argument is known.
    fn classify_eval_exec(&self, node: usize, lang_kw: usize, payload_kw: usize) -> (r: Option<
        Result<UnSolvedPolyglotUse, AnaError>,
    >)
        requires
            self.payload.wf(),
            self.payload.valid(node as int),
            self.payload.valid(lang_kw as int),
            self.payload.valid(payload_kw as int),
            is_kwarg(*self.payload, lang_kw as int, "language"@),
        ensures
            match r {
                Some(u) => u is Ok && classify_py_eval(
                    *self.payload,
                    node as int,
                    lang_kw as int,
                    payload_kw as int,
                ) == Some(u->Ok_0) && u->Ok_0.valid_in(*self.payload),
                None => classify_py_eval(
                    *self.payload,
                    node as int,
                    lang_kw as int,
                    payload_kw as int,
                ) is None,
            },
    {
        let cst = self.payload;
        let want_string = self.is_kwarg_exec(payload_kw, "string");
        let want_path = self.is_kwarg_exec(payload_kw, "path");
        if !(want_string || want_path) {
            return None;
        }
        let lang_value = cst.child(lang_kw, 2).unwrap();
        let payload_value = cst.child(payload_kw, 2).unwrap();
        let lang = if str_eq(cst.kind(lang_value).as_str(), "string") {
            let tag = strip_quotes(cst.text(lang_value).as_str());
            match crate::util::language_string_to_enum(tag.as_str()) {
                Ok(l) => LangArg::Value(l),
                Err(_) => LangArg::Node(lang_value),
            }
        } else {
            LangArg::Node(lang_value)
        };
        if want_string {
            Some(Ok(UnSolvedPolyglotUse::EvalInline { call: node, inline: payload_value, lang }))
        } else {
            Some(Ok(UnSolvedPolyglotUse::EvalPath { call: node, path: payload_value, lang }))
        }
    }

    /// Classifies one node, returning the shape of the polyglot use it
    /// forms, if any.
    pub fn try_compute_polyglot_use(&self, node: usize) -> (r: Option<
        Result<UnSolvedPolyglotUse, AnaError>,
    >)
        requires
            self.payload.wf(),
            self.payload.valid(node as int),
        ensures
            match r {
                Some(u) => u is Ok && classify_py(*self.payload, node as int) == Some(u->Ok_0)
                    && u->Ok_0.valid_in(*self.payload),
                None => classify_py(*self.payload, node as int) is None,
            },
    {
        let cst = self.payload;
        let c = match self.get_polyglot_call(node) {
            Some(c) => c,
            None => {
                return None;
            },
        };
        let a = cst.child(node, 1).unwrap();
        if !str_eq(cst.kind(a).as_str(), "argument_list") {
            return None;
        }
        if str_eq(cst.text(c).as_str(), "eval") {
            if cst.child_count(a) == 5 {
                let k1 = cst.child(a, 1).unwrap();
                let k2 = cst.child(a, 3).unwrap();
                if self.is_kwarg_exec(k1, "language") {
                    self.classify_eval_exec(node, k1, k2)
                } else if self.is_kwarg_exec(k2, "language") {
                    self.classify_eval_exec(node, k2, k1)
                } else {
                    None
                }
            } else {
                None
            }
        } else if str_eq(cst.text(c).as_str(), "import_value") {
            if cst.child_count(a) == 3 {
                let name = cst.child(a, 1).unwrap();
                Some(Ok(UnSolvedPolyglotUse::Import { call: node, name }))
            } else {
                None
            }
        } else {
            None
        }
    }

    /// What a whole-tree scan finds up to node `n`: every classified use,
    /// in document order.
    pub open spec fn py_uses_upto(cst: Cst, n: int) -> Seq<UnSolvedPolyglotUse>
        decreases n,
    {
        if n <= 0 {
            Seq::empty()
        } else {
            match classify_py(cst, n - 1) {
                Some(u) => Self::py_uses_upto(cst, n - 1).push(u),
                None => Self::py_uses_upto(cst, n - 1),
            }
        }
    }

    /// Scans the whole tree in document order and returns every
    /// classified use.
    pub fn find_polyglot_uses(&self) -> (r: Vec<UnSolvedPolyglotUse>)
        requires
            self.payload.wf(),
        ensures
            r@ == Self::py_uses_upto(*self.payload, self.payload.nodes@.len() as int),
    {
        let cst = self.payload;
        let n = cst.len();
        let mut uses: Vec<UnSolvedPolyglotUse> = Vec::new();
        let mut i: usize = 0;
        while i < n
            invariant
                i <= n,
                n == cst.nodes@.len(),
                self.payload.wf(),
                cst == self.payload,
                uses@ == Self::py_uses_upto(*cst, i as int),
            decreases n - i,
        {
            match self.try_compute_polyglot_use(i) {
                Some(Ok(u)) => uses.push(u),
                Some(Err(_)) => (),
                None => (),
            }
            i = i + 1;
        }
        uses
    }

    /// Classifies one node as a polyglot definition, if it matches the
    /// export convention.
    pub fn try_compute_polyglot_def(&self, node: usize) -> (r: Option<
        Result<PolyglotDef, AnaError>,
    >)
        requires
            self.payload.wf(),
            self.payload.valid(node as int),
        ensures
            match r {
                Some(d) => d is Ok && (classify_py_def(*self.payload, node as int) matches Some(s)
                    && crate::building::java::def_matches(d->Ok_0, s)),
                None => classify_py_def(*self.payload, node as int) is None,
            },
    {
        let cst = self.payload;
        let c = match self.get_polyglot_call(node) {
            Some(c) => c,
            None => {
                return None;
            },
        };
        let a = cst.child(node, 1).unwrap();
        if !str_eq(cst.kind(a).as_str(), "argument_list") {
            return None;
        }
        if str_eq(cst.text(c).as_str(), "export_value") && cst.child_count(a) == 5 {
            let name_node = cst.child(a, 1).unwrap();
            let value_node = cst.child(a, 3).unwrap();
            Some(
                Ok(
                    PolyglotDef::ExportValue {
                        name: strip_quotes(cst.text(name_node).as_str()),
                        value: cst.text(value_node).clone(),
                    },
                ),
            )
        } else {
            None
        }
    }
}

/// Classification reports the classified node itself as the call site;
/// so a whole-tree scan yields strictly increasing call sites.
pub proof fn lemma_py_uses_increasing(cst: Cst, n: int)
    requires
        0 <= n <= usize::MAX,
        n <= cst.nodes@.len(),
        cst.wf(),
    ensures
        forall|k1: int, k2: int|
            0 <= k1 < k2 < PythonBuilder::py_uses_upto(cst, n).len()
                ==> (#[trigger] PythonBuilder::py_uses_upto(cst, n)[k1]).spec_call() < (
            #[trigger] PythonBuilder::py_uses_upto(cst, n)[k2]).spec_call(),
        forall|k: int|
            0 <= k < PythonBuilder::py_uses_upto(cst, n).len()
                ==> (#[trigger] PythonBuilder::py_uses_upto(cst, n)[k]).spec_call() < n,
        forall|k: int|
            0 <= k < PythonBuilder::py_uses_upto(cst, n).len() ==> (#[trigger] PythonBuilder::py_uses_upto(cst, n)[k]).valid_in(cst),
    decreases n,
{
    if n > 0 {
        lemma_py_uses_increasing(cst, n - 1);
        let prev = PythonBuilder::py_uses_upto(cst, n - 1);
        let cur = PythonBuilder::py_uses_upto(cst, n);
        match classify_py(cst, n - 1) {
            Some(u) => {
                assert(cur == prev.push(u));
                assert(u.valid_in(cst));
                assert forall|k: int| 0 <= k < cur.len() implies (#[trigger] cur[k]).spec_call()
                    < n && (#[trigger] cur[k]).valid_in(cst) by {
                    if k < prev.len() {
                        assert(cur[k] == prev[k]);
                    } else {
                        assert(cur[k] == u);
                    }
                };
                assert forall|k1: int, k2: int|
                    0 <= k1 < k2 < cur.len() implies (#[trigger] cur[k1]).spec_call() < (
                #[trigger] cur[k2]).spec_call() by {
                    assert(cur[k1] == prev[k1]);
                    if k2 < prev.len() {
                        assert(cur[k2] == prev[k2]);
                    } else {
                        assert(cur[k2] == u);
                    }
                };
            },
            None => {
                assert(cur == prev);
            },
        }
    }
}

} // verus!
