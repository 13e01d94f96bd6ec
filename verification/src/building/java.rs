//! Classification and resolution of polyglot call sites in Java sources.
//!
//! Classification matches structural shapes of the Java grammar: an
//! `eval` method invocation with a literal language tag and inline code,
//! with a bare reference, or with a builder-pattern argument, and
//! `getMember` / `putMember` calls for imports and exports. Resolution
//! follows local variable aliases to their declarations until a terminal
//! literal or file construction is reached, with a visited set that turns
//! reference cycles into an error instead of divergence.

use vstd::prelude::*;

use crate::building::Aux;
use crate::building::AnaError;
use crate::building::LangArg;
use crate::building::PolyglotDef;
use crate::building::PolyglotUse;
use crate::building::UnSolvedPolyglotUse;
use crate::cst::Cst;
use crate::util::language_of_tag;
use crate::util::str_eq;
use crate::util::strip_quotes;
use crate::util::strip_quotes_spec;
use vstd::set_lib::lemma_int_range;
use vstd::set_lib::lemma_len_subset;
use vstd::set_lib::set_int_range;

verus! {

/// The grammar kind of node `i`.
pub open spec fn knd(cst: Cst, i: int) -> Seq<char> {
    cst.nodes@[i].kind@
}

/// The source text of node `i`.
pub open spec fn txt(cst: Cst, i: int) -> Seq<char> {
    cst.nodes@[i].text@
}

/// The child list of node `i`.
pub open spec fn kids(cst: Cst, i: int) -> Seq<usize> {
    cst.nodes@[i].children@
}

/// The callee name node of a method invocation, if `i` has that shape:
/// `recv.name(...)` carries the name as its third child. Whether an
/// argument list follows is classification's concern, not this guard's.
pub open spec fn java_call_name(cst: Cst, i: int) -> Option<int> {
    if knd(cst, i) == "method_invocation"@ && kids(cst, i).len() > 2 && knd(
        cst,
        kids(cst, i)[2] as int,
    ) == "identifier"@ {
        Some(kids(cst, i)[2] as int)
    } else {
        None
    }
}

/// The argument list node of a method invocation, if it has one.
pub open spec fn java_args(cst: Cst, i: int) -> int {
    kids(cst, i)[3] as int
}

/// Whether node `n` is a `b.build()`-shaped invocation.
pub open spec fn is_build_call(cst: Cst, n: int) -> bool {
    java_call_name(cst, n) matches Some(b) && txt(cst, b) == "build"@
}

/// Whether node `n` is a `Source.newBuilder(lang, code)` call.
pub open spec fn is_new_builder(cst: Cst, n: int) -> bool {
    &&& java_call_name(cst, n) matches Some(b) && txt(cst, b) == "newBuilder"@
    &&& kids(cst, n).len() > 3
    &&& knd(cst, kids(cst, n)[0] as int) == "identifier"@
    &&& txt(cst, kids(cst, n)[0] as int) == "Source"@
    &&& knd(cst, java_args(cst, n)) == "argument_list"@
    &&& kids(cst, java_args(cst, n)).len() == 5
}

/// The language argument of an inline eval: a valid literal tag becomes a
/// language value at once; everything else is left to the resolver.
pub open spec fn java_lang_arg(cst: Cst, n: int) -> LangArg {
    if knd(cst, n) == "string_literal"@ {
        match language_of_tag(strip_quotes_spec(txt(cst, n))) {
            Some(l) => LangArg::Value(l),
            None => LangArg::Node(n as usize),
        }
    } else {
        LangArg::Node(n as usize)
    }
}

/// What classification makes of node `i`, if anything: the structural
/// shapes of polyglot call sites in Java sources. A shape mismatch of any
/// sort — wrong callee, wrong argument count, wrong argument nodes — is a
/// miss, never an error.
pub open spec fn classify_java(cst: Cst, i: int) -> Option<UnSolvedPolyglotUse> {
    match java_call_name(cst, i) {
        None => None,
        Some(c) => {
            let a = java_args(cst, i);
            if kids(cst, i).len() <= 3 || knd(cst, a) != "argument_list"@ {
                None
            } else if txt(cst, c) == "eval"@ {
                let argc = kids(cst, a).len();
                if argc == 5 {
                    Some(
                        UnSolvedPolyglotUse::EvalInline {
                            call: i as usize,
                            inline: kids(cst, a)[3],
                            lang: java_lang_arg(cst, kids(cst, a)[1] as int),
                        },
                    )
                } else if argc == 3 {
                    let arg = kids(cst, a)[1] as int;
                    if knd(cst, arg) == "identifier"@ {
                        Some(
                            UnSolvedPolyglotUse::EvalSource {
                                eval: i as usize,
                                name: arg as usize,
                            },
                        )
                    } else if is_build_call(cst, arg) {
                        Some(
                            UnSolvedPolyglotUse::EvalBuilder {
                                call: i as usize,
                                name: kids(cst, arg)[0],
                            },
                        )
                    } else {
                        None
                    }
                } else {
                    None
                }
            } else if txt(cst, c) == "getMember"@ {
                if kids(cst, a).len() == 3 {
                    Some(
                        UnSolvedPolyglotUse::Import { call: i as usize, name: kids(cst, a)[1] },
                    )
                } else {
                    None
                }
            } else {
                None
            }
        },
    }
}

/// The analysis of one Java source over the crate's arena representation.
pub struct JavaBuilder<'tree> {
    pub payload: &'tree Cst,
}

impl<'tree> JavaBuilder<'tree> {
    /// Wraps a parsed tree for analysis.
    pub fn init(payload: &'tree Cst) -> (r: JavaBuilder<'tree>)
        ensures
            r.payload == payload,
    {
        JavaBuilder { payload }
    }

    /// The source text of one node.
    pub fn node_to_code(&self, node: usize) -> (r: &String)
        requires
            self.payload.valid(node as int),
        ensures
            r@ == txt(*self.payload, node as int),
    {
        self.payload.text(node)
    }

    /// The callee name node of a method invocation, as classification sees
    /// it.
    pub fn get_polyglot_call(&self, node: usize) -> (r: Option<usize>)
        requires
            self.payload.wf(),
            self.payload.valid(node as int),
        ensures
            match r {
                Some(c) => java_call_name(*self.payload, node as int) == Some(c as int)
                    && self.payload.valid(c as int),
                None => java_call_name(*self.payload, node as int) is None,
            },
    {
        let cst = self.payload;
        if !str_eq(cst.kind(node).as_str(), "method_invocation") {
            return None;
        }
        if cst.child_count(node) <= 2 {
            return None;
        }
        let c = cst.child(node, 2).unwrap();
        if str_eq(cst.kind(c).as_str(), "identifier") {
            Some(c)
        } else {
            None
        }
    }

    /// Classifies one node, returning the shape of the polyglot use it
    /// forms, if any. Nodes that match no shape — among them calls with
    /// the wrong number of arguments, such as an `eval()` without
    /// arguments — are misses: the scan over the remaining nodes
    /// continues.
    pub fn try_compute_polyglot_use(&self, node: usize) -> (r: Option<
        Result<UnSolvedPolyglotUse, AnaError>,
    >)
        requires
            self.payload.wf(),
            self.payload.valid(node as int),
        ensures
            match r {
                Some(u) => u is Ok && classify_java(*self.payload, node as int) == Some(u->Ok_0)
                    && u->Ok_0.valid_in(*self.payload),
                None => classify_java(*self.payload, node as int) is None,
            },
    {
        let cst = self.payload;
        let c = match self.get_polyglot_call(node) {
            Some(c) => c,
            None => {
                return None;
            },
        };
        if cst.child_count(node) <= 3 {
            return None;
        }
        let a = cst.child(node, 3).unwrap();
        if !str_eq(cst.kind(a).as_str(), "argument_list") {
            return None;
        }
        if str_eq(cst.text(c).as_str(), "eval") {
            let argc = cst.child_count(a);
            if argc == 5 {
                let lang_node = cst.child(a, 1).unwrap();
                let code_node = cst.child(a, 3).unwrap();
                let lang = if str_eq(cst.kind(lang_node).as_str(), "string_literal") {
                    let tag = strip_quotes(cst.text(lang_node).as_str());
                    match crate::util::language_string_to_enum(tag.as_str()) {
                        Ok(l) => LangArg::Value(l),
                        Err(_) => LangArg::Node(lang_node),
                    }
                } else {
                    LangArg::Node(lang_node)
                };
                Some(Ok(UnSolvedPolyglotUse::EvalInline { call: node, inline: code_node, lang }))
            } else if argc == 3 {
                let arg = cst.child(a, 1).unwrap();
                if str_eq(cst.kind(arg).as_str(), "identifier") {
                    Some(Ok(UnSolvedPolyglotUse::EvalSource { eval: node, name: arg }))
                } else {
                    match self.get_polyglot_call(arg) {
                        Some(b) => {
                            if str_eq(cst.text(b).as_str(), "build") {
                                let recv = cst.child(arg, 0).unwrap();
                                Some(
                                    Ok(
                                        UnSolvedPolyglotUse::EvalBuilder {
                                            call: node,
                                            name: recv,
                                        },
                                    ),
                                )
                            } else {
                                None
                            }
                        },
                        None => None,
                    }
                }
            } else {
                None
            }
        } else if str_eq(cst.text(c).as_str(), "getMember") {
            if cst.child_count(a) == 3 {
                let name = cst.child(a, 1).unwrap();
                Some(Ok(UnSolvedPolyglotUse::Import { call: node, name }))
            } else {
                None
            }
        } else {
            None
        }
    }

    /// What a whole-tree scan finds up to node `n`: every classified use,
    /// in document order.
    pub open spec fn java_uses_upto(cst: Cst, n: int) -> Seq<UnSolvedPolyglotUse>
        decreases n,
    {
        if n <= 0 {
            Seq::empty()
        } else {
            match classify_java(cst, n - 1) {
                Some(u) => Self::java_uses_upto(cst, n - 1).push(u),
                None => Self::java_uses_upto(cst, n - 1),
            }
        }
    }

    /// Scans the whole tree in document order and returns every
    /// classified use. Classification failure is always local: a node
    /// that matches no shape is skipped and the scan continues.
    pub fn find_polyglot_uses(&self) -> (r: Vec<UnSolvedPolyglotUse>)
        requires
            self.payload.wf(),
        ensures
            r@ == Self::java_uses_upto(*self.payload, self.payload.nodes@.len() as int),
    {
        let cst = self.payload;
        let n = cst.len();
        let mut uses: Vec<UnSolvedPolyglotUse> = Vec::new();
        let mut i: usize = 0;
        while i < n
            invariant
                i <= n,
                n == cst.nodes@.len(),
                self.payload.wf(),
                cst == self.payload,
                uses@ == Self::java_uses_upto(*cst, i as int),
            decreases n - i,
        {
            match self.try_compute_polyglot_use(i) {
                Some(Ok(u)) => uses.push(u),
                Some(Err(_)) => (),
                None => (),
            }
            i = i + 1;
        }
        uses
    }
}

/// Errors of resolving one classified use. Each is scoped to that use:
/// the use is dropped and the analysis of other uses continues.
#[derive(Debug, Clone, Copy, PartialEq, Eq, Structural)]
pub enum SolvingError {
    /// The reference has no local same-scope declaration; anything that
    /// would need deeper dataflow surfaces as this.
    Unresolvable,
    /// A language tag literal names no supported language.
    LanguageTagInvalid,
    /// A node on the resolution path does not match the expected shape.
    StructuralMismatch,
    /// The reference chain revisits a node; resolution stops instead of
    /// looping.
    Cyclic,
}

/// Local, same-lexical-scope reference lookup, as the resolver consumes
/// it: a pure mapping from a reference node to the initializer node of
/// its declaration.
pub trait ReferenceAnalysis {
    /// Which declaration initializer the reference resolves to, if any.
    spec fn spec_solve(&self, cst: Cst, reference: int) -> Option<int>;

    /// Resolves a local reference node to the initializer node of its
    /// declaration, or reports that it cannot.
    fn solve(&self, cst: &Cst, reference: usize) -> (r: Result<usize, SolvingError>)
        requires
            cst.wf(),
            (reference as int) < cst.nodes@.len(),
        ensures
            match r {
                Ok(d) => self.spec_solve(*cst, reference as int) == Some(d as int) && (d as int)
                    < cst.nodes@.len(),
                Err(_) => self.spec_solve(*cst, reference as int) is None,
            },
    ;
}

/// Whether node `d` declares a variable named `name`: a declarator or
/// assignment whose first child is an identifier with that text.
pub open spec fn is_decl_of(cst: Cst, d: int, name: Seq<char>) -> bool {
    &&& (knd(cst, d) == "variable_declarator"@ || knd(cst, d) == "assignment"@)
    &&& kids(cst, d).len() == 3
    &&& knd(cst, kids(cst, d)[0] as int) == "identifier"@
    &&& txt(cst, kids(cst, d)[0] as int) == name
}

/// The initializer node of the first declaration of `name` at or after
/// node `j`, if any.
pub open spec fn find_decl_from(cst: Cst, name: Seq<char>, j: int) -> Option<int>
    decreases cst.nodes@.len() - j,
{
    if j < 0 || j >= cst.nodes@.len() {
        None
    } else if is_decl_of(cst, j, name) {
        Some(kids(cst, j)[2] as int)
    } else {
        find_decl_from(cst, name, j + 1)
    }
}

/// The default reference lookup: a scan of the whole tree for a
/// declarator of the referenced name, which covers local aliasing within
/// one source. Anything beyond that is out of scope and reported as
/// unresolvable.
pub struct DefaultRefAna;

impl Default for DefaultRefAna {
    fn default() -> (r: Self)
        ensures
            r == DefaultRefAna,
    {
        DefaultRefAna
    }
}

impl ReferenceAnalysis for DefaultRefAna {
    open spec fn spec_solve(&self, cst: Cst, reference: int) -> Option<int> {
        find_decl_from(cst, txt(cst, reference), 0)
    }

    fn solve(&self, cst: &Cst, reference: usize) -> (r: Result<usize, SolvingError>) {
        let name = cst.text(reference);
        let n = cst.len();
        let mut j: usize = 0;
        while j < n
            invariant
                j <= n,
                n == cst.nodes@.len(),
                cst.wf(),
                (reference as int) < cst.nodes@.len(),
                name == cst.nodes@[reference as int].text,
                find_decl_from(*cst, name@, 0) == find_decl_from(*cst, name@, j as int),
            decreases n - j,
        {
            let k = cst.kind(j);
            if (str_eq(k.as_str(), "variable_declarator") || str_eq(k.as_str(), "assignment"))
                && cst.child_count(j) == 3 {
                let c0 = cst.child(j, 0).unwrap();
                if str_eq(cst.kind(c0).as_str(), "identifier") && str_eq(
                    cst.text(c0).as_str(),
                    name.as_str(),
                ) {
                    let v = cst.child(j, 2).unwrap();
                    return Ok(v);
                }
            }
            j = j + 1;
        }
        Err(SolvingError::Unresolvable)
    }
}

/// The set of indices marked in a visited map.
pub open spec fn bits(v: Seq<bool>) -> Set<int> {
    Set::new(|i: int| 0 <= i < v.len() && v[i])
}

/// The fuel that makes a chase from a visited set never run out: one more
/// than the number of unvisited nodes.
pub open spec fn fuel_for(cst: Cst, v: Set<int>) -> nat {
    (cst.nodes@.len() + 1 - v.len()) as nat
}

/// What following a chain of local references from `node` reaches: the
/// first node on the chain that is not an identifier, the updated visited
/// set, or the error that stopped the chain. Revisiting a node fails with
/// `Cyclic`, so the chain length is bounded by the number of nodes.
pub open spec fn spec_chase<A: ReferenceAnalysis>(
    cst: Cst,
    ana: A,
    node: int,
    visited: Set<int>,
    fuel: nat,
) -> (Result<int, SolvingError>, Set<int>)
    decreases fuel,
{
    if visited.contains(node) {
        (Err(SolvingError::Cyclic), visited)
    } else if knd(cst, node) != "identifier"@ {
        (Ok(node), visited)
    } else {
        match ana.spec_solve(cst, node) {
            None => (Err(SolvingError::Unresolvable), visited),
            Some(d) => {
                if fuel == 0 {
                    (Err(SolvingError::Cyclic), visited)
                } else {
                    spec_chase(cst, ana, d, visited.insert(node), (fuel - 1) as nat)
                }
            },
        }
    }
}

/// Whether an executable result agrees with a specification-level one.
pub open spec fn res_matches(r: Result<usize, SolvingError>, sr: Result<int, SolvingError>) -> bool {
    match (r, sr) {
        (Ok(t), Ok(st)) => t as int == st,
        (Err(a), Err(b)) => a == b,
        _ => false,
    }
}

/// Follows local references from `start` until a non-identifier node is
/// reached, sharing the visited map with the rest of the chain.
pub fn chase<A: ReferenceAnalysis>(
    cst: &Cst,
    ana: &A,
    start: usize,
    visited: &mut Vec<bool>,
) -> (r: Result<usize, SolvingError>)
    requires
        cst.wf(),
        (start as int) < cst.nodes@.len(),
        old(visited)@.len() == cst.nodes@.len(),
    ensures
        final(visited)@.len() == cst.nodes@.len(),
        ({
            let (sr, sv) = spec_chase(
                *cst,
                *ana,
                start as int,
                bits(old(visited)@),
                fuel_for(*cst, bits(old(visited)@)),
            );
            res_matches(r, sr) && bits(final(visited)@) == sv
        }),
        r matches Ok(t) ==> (t as int) < cst.nodes@.len() && knd(*cst, t as int) != "identifier"@,
{
    let n = cst.len();
    let ghost v0 = bits(visited@);
    let ghost f0 = fuel_for(*cst, v0);
    let mut cur = start;
    proof {
        lemma_bits_in_range(visited@);
        lemma_int_range(0, n as int);
        lemma_len_subset(bits(visited@), set_int_range(0, n as int));
    }
    loop
        invariant
            cst.wf(),
            n == cst.nodes@.len(),
            (cur as int) < n,
            visited@.len() == n,
            v0 == bits(old(visited)@),
            f0 == fuel_for(*cst, v0),
            spec_chase(*cst, *ana, start as int, v0, f0) == spec_chase(
                *cst,
                *ana,
                cur as int,
                bits(visited@),
                fuel_for(*cst, bits(visited@)),
            ),
        decreases fuel_for(*cst, bits(visited@)),
    {
        proof {
            lemma_bits_in_range(visited@);
            lemma_int_range(0, n as int);
            lemma_len_subset(bits(visited@), set_int_range(0, n as int));
        }
        if visited[cur] {
            proof {
                assert(bits(visited@).contains(cur as int));
            }
            return Err(SolvingError::Cyclic);
        }
        proof {
            assert(!bits(visited@).contains(cur as int));
        }
        if !str_eq(cst.kind(cur).as_str(), "identifier") {
            return Ok(cur);
        }
        match ana.solve(cst, cur) {
            Err(_) => {
                return Err(SolvingError::Unresolvable);
            },
            Ok(d) => {
                let ghost pre = visited@;
                visited.set(cur, true);
                proof {
                    assert(bits(visited@) =~= bits(pre).insert(cur as int));
                    lemma_bits_in_range(pre);
                    lemma_bits_in_range(visited@);
                    lemma_int_range(0, n as int);
                    lemma_len_subset(bits(pre), set_int_range(0, n as int));
                    lemma_len_subset(bits(visited@), set_int_range(0, n as int));
                    assert(bits(visited@).len() == bits(pre).len() + 1);
                }
                cur = d;
            },
        }
    }
}

/// Everything a visited map marks is a valid node index.
pub proof fn lemma_bits_in_range(v: Seq<bool>)
    ensures
        bits(v).subset_of(set_int_range(0, v.len() as int)),
{
}

/// What resolving the language axis yields: the chased node must be a
/// string literal naming a supported language.
pub open spec fn spec_resolve_lang<A: ReferenceAnalysis>(
    cst: Cst,
    ana: A,
    arg: LangArg,
    v0: Set<int>,
) -> (Result<crate::Language, SolvingError>, Set<int>) {
    match arg {
        LangArg::Value(l) => (Ok(l), v0),
        LangArg::Node(nd) => {
            let (cr, cv) = spec_chase(cst, ana, nd as int, v0, fuel_for(cst, v0));
            match cr {
                Err(e) => (Err(e), cv),
                Ok(t) => {
                    if is_str_lit(cst, t) {
                        match language_of_tag(strip_quotes_spec(txt(cst, t))) {
                            Some(l) => (Ok(l), cv),
                            None => (Err(SolvingError::LanguageTagInvalid), cv),
                        }
                    } else {
                        (Err(SolvingError::StructuralMismatch), cv)
                    }
                },
            }
        },
    }
}

/// Resolves the language axis of a use.
pub fn resolve_lang<A: ReferenceAnalysis>(
    cst: &Cst,
    ana: &A,
    arg: LangArg,
    visited: &mut Vec<bool>,
) -> (r: Result<crate::Language, SolvingError>)
    requires
        cst.wf(),
        old(visited)@.len() == cst.nodes@.len(),
        arg matches LangArg::Node(nd) ==> (nd as int) < cst.nodes@.len(),
    ensures
        final(visited)@.len() == cst.nodes@.len(),
        ({
            let (sr, sv) = spec_resolve_lang(*cst, *ana, arg, bits(old(visited)@));
            r == sr && bits(final(visited)@) == sv
        }),
{
    match arg {
        LangArg::Value(l) => Ok(l),
        LangArg::Node(nd) => {
            match chase(cst, ana, nd, visited) {
                Err(e) => Err(e),
                Ok(t) => {
                    if is_str_lit_exec(cst, t) {
                        let tag = strip_quotes(cst.text(t).as_str());
                        match crate::util::language_string_to_enum(tag.as_str()) {
                            Ok(l) => Ok(l),
                            Err(_) => Err(SolvingError::LanguageTagInvalid),
                        }
                    } else {
                        Err(SolvingError::StructuralMismatch)
                    }
                },
            }
        },
    }
}

/// Whether node `t` is a string literal, in any of the grammars' shapes.
pub open spec fn is_str_lit(cst: Cst, t: int) -> bool {
    knd(cst, t) == "string_literal"@ || knd(cst, t) == "string"@
}

/// Tests [`is_str_lit`].
pub(crate) fn is_str_lit_exec(cst: &Cst, t: usize) -> (r: bool)
    requires
        cst.wf(),
        (t as int) < cst.nodes@.len(),
    ensures
        r == is_str_lit(*cst, t as int),
{
    str_eq(cst.kind(t).as_str(), "string_literal") || str_eq(cst.kind(t).as_str(), "string")
}

/// Whether node `t` is a `new File(arg)` construction.
pub open spec fn is_new_file(cst: Cst, t: int) -> bool {
    &&& knd(cst, t) == "object_creation_expression"@
    &&& kids(cst, t).len() == 3
    &&& knd(cst, kids(cst, t)[1] as int) == "type_identifier"@
    &&& txt(cst, kids(cst, t)[1] as int) == "File"@
    &&& knd(cst, kids(cst, t)[2] as int) == "argument_list"@
    &&& kids(cst, kids(cst, t)[2] as int).len() == 3
}

/// The argument node of a `new File(arg)` construction.
pub open spec fn file_arg(cst: Cst, t: int) -> int {
    kids(cst, kids(cst, t)[2] as int)[1] as int
}

/// What resolving the code axis yields: the payload with its quotes
/// stripped, marked as a file path (`true`) when the use itself names a
/// file (`as_path`) or when the payload is a `new File` construction.
pub open spec fn spec_resolve_code<A: ReferenceAnalysis>(
    cst: Cst,
    ana: A,
    node: int,
    as_path: bool,
    v0: Set<int>,
) -> (Result<(bool, Seq<char>), SolvingError>, Set<int>) {
    let (cr, cv) = spec_chase(cst, ana, node, v0, fuel_for(cst, v0));
    match cr {
        Err(e) => (Err(e), cv),
        Ok(t) => {
            if is_str_lit(cst, t) {
                (Ok((as_path, strip_quotes_spec(txt(cst, t)))), cv)
            } else if is_new_file(cst, t) {
                let (fr, fv) = spec_chase(cst, ana, file_arg(cst, t), cv, fuel_for(cst, cv));
                match fr {
                    Err(e) => (Err(e), fv),
                    Ok(t2) => {
                        if is_str_lit(cst, t2) {
                            (Ok((true, strip_quotes_spec(txt(cst, t2)))), fv)
                        } else {
                            (Err(SolvingError::StructuralMismatch), fv)
                        }
                    },
                }
            } else {
                (Err(SolvingError::StructuralMismatch), cv)
            }
        },
    }
}

/// Whether an executable code resolution agrees with a
/// specification-level one: same error, or the same payload with a path
/// exactly when the specification says path.
pub open spec fn code_matches(
    r: Result<Aux, SolvingError>,
    sr: Result<(bool, Seq<char>), SolvingError>,
) -> bool {
    match (r, sr) {
        (Ok(aux), Ok(p)) => {
            if p.0 {
                aux matches Aux::EvalPath { path } && path@ == p.1
            } else {
                aux matches Aux::EvalSource { code } && code@ == p.1
            }
        },
        (Err(a), Err(b)) => a == b,
        _ => false,
    }
}

/// Resolves the code axis of a use down to inline text or a file path.
pub fn resolve_code<A: ReferenceAnalysis>(
    cst: &Cst,
    ana: &A,
    node: usize,
    as_path: bool,
    visited: &mut Vec<bool>,
) -> (r: Result<Aux, SolvingError>)
    requires
        cst.wf(),
        old(visited)@.len() == cst.nodes@.len(),
        (node as int) < cst.nodes@.len(),
    ensures
        final(visited)@.len() == cst.nodes@.len(),
        ({
            let (sr, sv) = spec_resolve_code(*cst, *ana, node as int, as_path, bits(old(visited)@));
            code_matches(r, sr) && bits(final(visited)@) == sv
        }),
{
    match chase(cst, ana, node, visited) {
        Err(e) => Err(e),
        Ok(t) => {
            if is_str_lit_exec(cst, t) {
                if as_path {
                    Ok(Aux::EvalPath { path: strip_quotes(cst.text(t).as_str()) })
                } else {
                    Ok(Aux::EvalSource { code: strip_quotes(cst.text(t).as_str()) })
                }
            } else if str_eq(cst.kind(t).as_str(), "object_creation_expression")
                && cst.child_count(t) == 3 {
                let ty = cst.child(t, 1).unwrap();
                let args = cst.child(t, 2).unwrap();
                if str_eq(cst.kind(ty).as_str(), "type_identifier") && str_eq(
                    cst.text(ty).as_str(),
                    "File",
                ) && str_eq(cst.kind(args).as_str(), "argument_list") && cst.child_count(args)
                    == 3 {
                    let inner = cst.child(args, 1).unwrap();
                    match chase(cst, ana, inner, visited) {
                        Err(e) => Err(e),
                        Ok(t2) => {
                            if is_str_lit_exec(cst, t2) {
                                Ok(Aux::EvalPath { path: strip_quotes(cst.text(t2).as_str()) })
                            } else {
                                Err(SolvingError::StructuralMismatch)
                            }
                        },
                    }
                } else {
                    Err(SolvingError::StructuralMismatch)
                }
            } else {
                Err(SolvingError::StructuralMismatch)
            }
        },
    }
}

/// Creates a fresh visited map for one resolution chain.
fn make_visited(n: usize) -> (r: Vec<bool>)
    ensures
        r@.len() == n,
        bits(r@) == Set::<int>::empty(),
{
    let mut r: Vec<bool> = Vec::new();
    let mut i: usize = 0;
    while i < n
        invariant
            i <= n,
            r@.len() == i,
            forall|j: int| 0 <= j < i ==> !r@[j],
        decreases n - i,
    {
        r.push(false);
        i = i + 1;
    }
    proof {
        assert(bits(r@) =~= Set::<int>::empty());
    }
    r
}

/// What chasing the receiver of a builder-pattern eval reaches: the
/// `Source.newBuilder(lang, code)` call, unwrapping one `.build()` along
/// the way.
pub open spec fn spec_builder_args<A: ReferenceAnalysis>(
    cst: Cst,
    ana: A,
    name: int,
    v0: Set<int>,
) -> (Result<int, SolvingError>, Set<int>) {
    let (r1, v1) = spec_chase(cst, ana, name, v0, fuel_for(cst, v0));
    match r1 {
        Err(e) => (Err(e), v1),
        Ok(t) => {
            if is_build_call(cst, t) {
                let (r2, v2) = spec_chase(cst, ana, kids(cst, t)[0] as int, v1, fuel_for(cst, v1));
                match r2 {
                    Err(e) => (Err(e), v2),
                    Ok(t2) => {
                        if is_new_builder(cst, t2) {
                            (Ok(t2), v2)
                        } else {
                            (Err(SolvingError::StructuralMismatch), v2)
                        }
                    },
                }
            } else if is_new_builder(cst, t) {
                (Ok(t), v1)
            } else {
                (Err(SolvingError::StructuralMismatch), v1)
            }
        },
    }
}

/// Chases the receiver of a builder-pattern eval down to the
/// `Source.newBuilder` call.
fn resolve_builder<A: ReferenceAnalysis>(
    p: &JavaBuilder,
    ana: &A,
    name: usize,
    visited: &mut Vec<bool>,
) -> (r: Result<usize, SolvingError>)
    requires
        p.payload.wf(),
        old(visited)@.len() == p.payload.nodes@.len(),
        (name as int) < p.payload.nodes@.len(),
    ensures
        final(visited)@.len() == p.payload.nodes@.len(),
        ({
            let (sr, sv) = spec_builder_args(*p.payload, *ana, name as int, bits(old(visited)@));
            res_matches(r, sr) && bits(final(visited)@) == sv
        }),
        r matches Ok(t) ==> is_new_builder(*p.payload, t as int) && (t as int)
            < p.payload.nodes@.len(),
{
    let cst = p.payload;
    let t = match chase(cst, ana, name, visited) {
        Err(e) => {
            return Err(e);
        },
        Ok(t) => t,
    };
    let t2 = match p.get_polyglot_call(t) {
        Some(b) => {
            if str_eq(cst.text(b).as_str(), "build") {
                let recv = cst.child(t, 0).unwrap();
                match chase(cst, ana, recv, visited) {
                    Err(e) => {
                        return Err(e);
                    },
                    Ok(t2) => t2,
                }
            } else {
                t
            }
        },
        None => t,
    };
    if is_new_builder_exec(p, t2) {
        Ok(t2)
    } else {
        Err(SolvingError::StructuralMismatch)
    }
}

/// Tests the `Source.newBuilder(lang, code)` shape.
fn is_new_builder_exec(p: &JavaBuilder, n: usize) -> (r: bool)
    requires
        p.payload.wf(),
        (n as int) < p.payload.nodes@.len(),
    ensures
        r == is_new_builder(*p.payload, n as int),
{
    let cst = p.payload;
    match p.get_polyglot_call(n) {
        None => false,
        Some(b) => {
            if !str_eq(cst.text(b).as_str(), "newBuilder") {
                return false;
            }
            if cst.child_count(n) <= 3 {
                return false;
            }
            let recv = cst.child(n, 0).unwrap();
            if !(str_eq(cst.kind(recv).as_str(), "identifier") && str_eq(
                cst.text(recv).as_str(),
                "Source",
            )) {
                return false;
            }
            let a = cst.child(n, 3).unwrap();
            str_eq(cst.kind(a).as_str(), "argument_list") && cst.child_count(a) == 5
        },
    }
}

/// What resolving a whole classified use yields: an import marker, or the
/// target language together with the payload (`true` for a file path) —
/// or the error that dropped the use.
pub open spec fn spec_solve_use<A: ReferenceAnalysis>(
    cst: Cst,
    ana: A,
    u: UnSolvedPolyglotUse,
    owner: crate::Language,
) -> Result<(bool, crate::Language, bool, Seq<char>), SolvingError> {
    match u {
        UnSolvedPolyglotUse::Import { call, name } => Ok((true, owner, false, Seq::empty())),
        UnSolvedPolyglotUse::EvalInline { call, inline, lang } => spec_solve_axes(
            cst,
            ana,
            lang,
            inline as int,
            false,
            Set::empty(),
        ),
        UnSolvedPolyglotUse::EvalPath { call, path, lang } => spec_solve_axes(
            cst,
            ana,
            lang,
            path as int,
            true,
            Set::empty(),
        ),
        UnSolvedPolyglotUse::EvalSource { eval, name } => spec_solve_via_builder(
            cst,
            ana,
            name as int,
        ),
        UnSolvedPolyglotUse::EvalBuilder { call, name } => spec_solve_via_builder(
            cst,
            ana,
            name as int,
        ),
    }
}

/// Resolves the two axes of an eval with explicit language and code
/// arguments.
pub open spec fn spec_solve_axes<A: ReferenceAnalysis>(
    cst: Cst,
    ana: A,
    lang: LangArg,
    code: int,
    as_path: bool,
    v0: Set<int>,
) -> Result<(bool, crate::Language, bool, Seq<char>), SolvingError> {
    let (lr, v1) = spec_resolve_lang(cst, ana, lang, v0);
    match lr {
        Err(e) => Err(e),
        Ok(l) => {
            let (cr, v2) = spec_resolve_code(cst, ana, code, as_path, v1);
            match cr {
                Err(e) => Err(e),
                Ok(p) => Ok((false, l, p.0, p.1)),
            }
        },
    }
}

/// Resolves an eval whose single argument leads to a builder-pattern
/// construction.
pub open spec fn spec_solve_via_builder<A: ReferenceAnalysis>(
    cst: Cst,
    ana: A,
    name: int,
) -> Result<(bool, crate::Language, bool, Seq<char>), SolvingError> {
    let (br, v1) = spec_builder_args(cst, ana, name, Set::empty());
    match br {
        Err(e) => Err(e),
        Ok(t2) => spec_solve_axes(
            cst,
            ana,
            LangArg::Node(kids(cst, java_args(cst, t2))[1]),
            kids(cst, java_args(cst, t2))[3] as int,
            false,
            v1,
        ),
    }
}

/// Whether an executable resolution agrees with a specification-level
/// one, for the use `u`: the same error, or a use at `u`'s call site with
/// the language and payload the specification names.
pub open spec fn solved_matches(
    r: Result<PolyglotUse, SolvingError>,
    sr: Result<(bool, crate::Language, bool, Seq<char>), SolvingError>,
    u: UnSolvedPolyglotUse,
) -> bool {
    match (r, sr) {
        (Ok(pu), Ok(s)) => {
            &&& pu.position == u.spec_call()
            &&& pu.language == s.1
            &&& if s.0 {
                pu.aux is Import
            } else if s.2 {
                pu.aux matches Aux::EvalPath { path } && path@ == s.3
            } else {
                pu.aux matches Aux::EvalSource { code } && code@ == s.3
            }
        },
        (Err(a), Err(b)) => a == b,
        _ => false,
    }
}

impl UnSolvedPolyglotUse {
    /// Resolves this classified Java use down to a terminal form: the
    /// target language and either inline text or a file path.
    pub fn solve<A: ReferenceAnalysis>(&self, p: &JavaBuilder, ana: &A) -> (r: Result<
        PolyglotUse,
        SolvingError,
    >)
        requires
            p.payload.wf(),
            self.valid_in(*p.payload),
        ensures
            solved_matches(
                r,
                spec_solve_use(*p.payload, *ana, *self, crate::Language::Java),
                *self,
            ),
    {
        solve_use(p.payload, ana, self, crate::Language::Java)
    }
}

/// Resolves one classified use down to a terminal form: the target
/// language and either inline text or a file path. Every failure is
/// scoped to this use; in particular a reference cycle yields `Cyclic`
/// after at most as many steps as the tree has nodes.
pub fn solve_use<A: ReferenceAnalysis>(
    cst: &Cst,
    ana: &A,
    u: &UnSolvedPolyglotUse,
    owner: crate::Language,
) -> (r: Result<PolyglotUse, SolvingError>)
    requires
        cst.wf(),
        u.valid_in(*cst),
    ensures
        solved_matches(r, spec_solve_use(*cst, *ana, *u, owner), *u),
{
    let p = JavaBuilder::init(cst);
    match u {
        UnSolvedPolyglotUse::Import { call, name } => Ok(
            PolyglotUse { aux: Aux::Import {}, language: owner, position: *call },
        ),
        UnSolvedPolyglotUse::EvalInline { call, inline, lang } => solve_axes(
            &p,
            ana,
            *lang,
            *inline,
            false,
            *call,
        ),
        UnSolvedPolyglotUse::EvalPath { call, path, lang } => solve_axes(
            &p,
            ana,
            *lang,
            *path,
            true,
            *call,
        ),
        UnSolvedPolyglotUse::EvalSource { eval, name } => solve_via_builder(&p, ana, *name, *eval),
        UnSolvedPolyglotUse::EvalBuilder { call, name } => solve_via_builder(&p, ana, *name, *call),
    }
}

/// Resolves the two axes of an eval with explicit language and code
/// arguments.
fn solve_axes<A: ReferenceAnalysis>(
    p: &JavaBuilder,
    ana: &A,
    lang: LangArg,
    code: usize,
    as_path: bool,
    call: usize,
) -> (r: Result<PolyglotUse, SolvingError>)
    requires
        p.payload.wf(),
        lang matches LangArg::Node(nd) ==> (nd as int) < p.payload.nodes@.len(),
        (code as int) < p.payload.nodes@.len(),
    ensures
        ({
            let sr = spec_solve_axes(*p.payload, *ana, lang, code as int, as_path, Set::empty());
            match (r, sr) {
                (Ok(pu), Ok(s)) => {
                    &&& pu.position == call
                    &&& pu.language == s.1
                    &&& if s.2 {
                        pu.aux matches Aux::EvalPath { path } && path@ == s.3
                    } else {
                        pu.aux matches Aux::EvalSource { code } && code@ == s.3
                    }
                },
                (Err(a), Err(b)) => a == b,
                _ => false,
            }
        }),
{
    let cst = p.payload;
    let mut visited = make_visited(cst.len());
    match resolve_lang(cst, ana, lang, &mut visited) {
        Err(e) => Err(e),
        Ok(l) => {
            match resolve_code(cst, ana, code, as_path, &mut visited) {
                Err(e) => Err(e),
                Ok(aux) => Ok(PolyglotUse { aux, language: l, position: call }),
            }
        },
    }
}

/// Resolves an eval whose single argument leads to a builder-pattern
/// construction.
fn solve_via_builder<A: ReferenceAnalysis>(
    p: &JavaBuilder,
    ana: &A,
    name: usize,
    call: usize,
) -> (r: Result<PolyglotUse, SolvingError>)
    requires
        p.payload.wf(),
        (name as int) < p.payload.nodes@.len(),
    ensures
        ({
            let sr = spec_solve_via_builder(*p.payload, *ana, name as int);
            match (r, sr) {
                (Ok(pu), Ok(s)) => {
                    &&& pu.position == call
                    &&& pu.language == s.1
                    &&& if s.2 {
                        pu.aux matches Aux::EvalPath { path } && path@ == s.3
                    } else {
                        pu.aux matches Aux::EvalSource { code } && code@ == s.3
                    }
                },
                (Err(a), Err(b)) => a == b,
                _ => false,
            }
        }),
{
    let cst = p.payload;
    let mut visited = make_visited(cst.len());
    let t2 = match resolve_builder(p, ana, name, &mut visited) {
        Err(e) => {
            return Err(e);
        },
        Ok(t2) => t2,
    };
    let a = cst.child(t2, 3).unwrap();
    let lang_node = cst.child(a, 1).unwrap();
    let code_node = cst.child(a, 3).unwrap();
    match resolve_lang(cst, ana, LangArg::Node(lang_node), &mut visited) {
        Err(e) => Err(e),
        Ok(l) => {
            match resolve_code(cst, ana, code_node, false, &mut visited) {
                Err(e) => Err(e),
                Ok(aux) => Ok(PolyglotUse { aux, language: l, position: call }),
            }
        },
    }
}

/// What export classification makes of node `i`: a
/// `putMember(name, value)` call exports `value` under `name` (with the
/// name's quotes stripped).
pub open spec fn classify_java_def(cst: Cst, i: int) -> Option<(Seq<char>, Seq<char>)> {
    match java_call_name(cst, i) {
        None => None,
        Some(c) => {
            let a = java_args(cst, i);
            if kids(cst, i).len() > 3 && knd(cst, a) == "argument_list"@ && txt(cst, c)
                == "putMember"@ && kids(cst, a).len() == 5 {
                Some(
                    (
                        strip_quotes_spec(txt(cst, kids(cst, a)[1] as int)),
                        txt(cst, kids(cst, a)[3] as int),
                    ),
                )
            } else {
                None
            }
        },
    }
}

/// Whether a definition value carries the given name and value texts.
pub open spec fn def_matches(d: PolyglotDef, s: (Seq<char>, Seq<char>)) -> bool {
    d matches PolyglotDef::ExportValue { name, value } && name@ == s.0 && value@ == s.1
}

/// Whether `d` is the definition that classification reads off node `j`.
pub open spec fn def_at(cst: Cst, j: int, d: PolyglotDef) -> bool {
    classify_java_def(cst, j) matches Some(s) && def_matches(d, s)
}

/// Whether some node of the tree classifies to the definition `d`.
pub open spec fn def_witnessed(cst: Cst, d: PolyglotDef) -> bool {
    exists|j: int| 0 <= j < cst.nodes@.len() && #[trigger] def_at(cst, j, d)
}

impl<'tree> JavaBuilder<'tree> {
    /// Classifies one node as a polyglot definition, if it matches the
    /// export convention.
    pub fn try_compute_polyglot_def(&self, node: usize) -> (r: Option<
        Result<PolyglotDef, AnaError>,
    >)
        requires
            self.payload.wf(),
            self.payload.valid(node as int),
        ensures
            match r {
                Some(d) => d is Ok && (classify_java_def(*self.payload, node as int) matches Some(
                    s,
                ) && def_matches(d->Ok_0, s)),
                None => classify_java_def(*self.payload, node as int) is None,
            },
    {
        let cst = self.payload;
        let c = match self.get_polyglot_call(node) {
            Some(c) => c,
            None => {
                return None;
            },
        };
        if cst.child_count(node) <= 3 {
            return None;
        }
        let a = cst.child(node, 3).unwrap();
        if !str_eq(cst.kind(a).as_str(), "argument_list") {
            return None;
        }
        if str_eq(cst.text(c).as_str(), "putMember") && cst.child_count(a) == 5 {
            let name_node = cst.child(a, 1).unwrap();
            let value_node = cst.child(a, 3).unwrap();
            Some(
                Ok(
                    PolyglotDef::ExportValue {
                        name: strip_quotes(cst.text(name_node).as_str()),
                        value: cst.text(value_node).clone(),
                    },
                ),
            )
        } else {
            None
        }
    }

    /// Scans the whole tree and returns every polyglot definition, in
    /// document order.
    pub fn find_polyglot_exports(&self) -> (r: Vec<PolyglotDef>)
        requires
            self.payload.wf(),
        ensures
            forall|k: int| 0 <= k < r@.len() ==> def_witnessed(*self.payload, #[trigger] r@[k]),
    {
        let cst = self.payload;
        let n = cst.len();
        let mut defs: Vec<PolyglotDef> = Vec::new();
        let mut i: usize = 0;
        while i < n
            invariant
                i <= n,
                n == cst.nodes@.len(),
                self.payload.wf(),
                cst == self.payload,
                forall|k: int| 0 <= k < defs@.len() ==> def_witnessed(*cst, #[trigger] defs@[k]),
            decreases n - i,
        {
            match self.try_compute_polyglot_def(i) {
                Some(Ok(d)) => {
                    proof {
                        assert(def_at(*cst, i as int, d));
                    }
                    let ghost pre = defs@;
                    defs.push(d);
                    proof {
                        assert forall|k: int| 0 <= k < defs@.len() implies def_witnessed(
                            *cst,
                            #[trigger] defs@[k],
                        ) by {
                            if k + 1 == defs@.len() {
                                assert(def_at(*cst, i as int, defs@[k]));
                            } else {
                                assert(defs@[k] == pre[k]);
                            }
                        };
                    }
                },
                Some(Err(_)) => (),
                None => (),
            }
            i = i + 1;
        }
        defs
    }
}

/// Classification reports the classified node itself as the call site.
pub proof fn lemma_classify_call(cst: Cst, i: int)
    requires
        0 <= i <= usize::MAX,
    ensures
        classify_java(cst, i) matches Some(u) ==> u.spec_call() == i,
{
}

/// The uses of a whole-tree scan stand in strictly increasing document
/// order: their call sites are distinct nodes in scan order. This is what
/// makes the recorded edge positions of one source strictly increasing.
pub proof fn lemma_java_uses_increasing(cst: Cst, n: int)
    requires
        0 <= n <= usize::MAX,
        n <= cst.nodes@.len(),
        cst.wf(),
    ensures
        forall|k1: int, k2: int|
            0 <= k1 < k2 < JavaBuilder::java_uses_upto(cst, n).len()
                ==> (#[trigger] JavaBuilder::java_uses_upto(cst, n)[k1]).spec_call() < (
            #[trigger] JavaBuilder::java_uses_upto(cst, n)[k2]).spec_call(),
        forall|k: int|
            0 <= k < JavaBuilder::java_uses_upto(cst, n).len()
                ==> (#[trigger] JavaBuilder::java_uses_upto(cst, n)[k]).spec_call() < n,
        forall|k: int|
            0 <= k < JavaBuilder::java_uses_upto(cst, n).len() ==> (#[trigger] JavaBuilder::java_uses_upto(cst, n)[k]).valid_in(cst),
    decreases n,
{
    if n > 0 {
        lemma_java_uses_increasing(cst, n - 1);
        lemma_classify_call(cst, n - 1);
        let prev = JavaBuilder::java_uses_upto(cst, n - 1);
        let cur = JavaBuilder::java_uses_upto(cst, n);
        match classify_java(cst, n - 1) {
            Some(u) => {
                assert(cur == prev.push(u));
                assert(u.valid_in(cst));
                assert forall|k: int| 0 <= k < cur.len() implies (#[trigger] cur[k]).spec_call()
                    < n && (#[trigger] cur[k]).valid_in(cst) by {
                    if k < prev.len() {
                        assert(cur[k] == prev[k]);
                    } else {
                        assert(cur[k] == u);
                    }
                };
                assert forall|k1: int, k2: int|
                    0 <= k1 < k2 < cur.len() implies (#[trigger] cur[k1]).spec_call() < (
                #[trigger] cur[k2]).spec_call() by {
                    assert(cur[k1] == prev[k1]);
                    if k2 < prev.len() {
                        assert(cur[k2] == prev[k2]);
                    } else {
                        assert(cur[k2] == u);
                        assert(prev[k1].spec_call() < n - 1 || prev[k1].spec_call() == n - 1
                            || prev[k1].spec_call() > n - 1);
                    }
                };
            },
            None => {
                assert(cur == prev);
            },
        }
    }
}

} // verus!
