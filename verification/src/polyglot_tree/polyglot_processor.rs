//! Consumers that walk a parsed tree or the composed source graph: the
//! pretty-printers, the serializer with cross-handle markers, and the
//! import/export consistency builder.
//!
//! The rendered text of the printers is a human-facing convenience, not a
//! compatibility surface; their contracts state validity, not the exact
//! characters.

use vstd::prelude::*;
use vstd::string::StringExecFns;

use crate::context::GlobalContext;
use crate::context::InternalHandle;
use crate::cst::Cst;
use crate::polyglot_tree::polyglot_zipper::Direction;
use crate::polyglot_tree::polyglot_zipper::PreOrder2;
use crate::polyglot_tree::PolyglotTree;

verus! {

/// A processing pass over a parsed tree, starting at its root.
pub trait PolygotProcessor {
    /// Runs the pass over the tree.
    fn process(&mut self, tree: &PolyglotTree)
        requires
            tree.wf(),
    ;
}

/// Renders an indented `kind` / `kind : text` line view of one tree.
pub struct TreePrinter {
    pub indent_level: usize,
    pub result: String,
}

impl Default for TreePrinter {
    fn default() -> (r: Self)
        ensures
            r.indent_level == 0,
            r.result@ == Seq::<char>::empty(),
    {
        Self::new()
    }
}

/// Appends `level` levels of indentation to `out`.
fn push_indent(out: &mut String, level: usize) {
    let mut k: usize = 0;
    while k < level
        decreases level - k,
    {
        out.append(" ");
        k = k + 1;
    }
}

impl TreePrinter {
    /// A printer with nothing rendered yet.
    pub fn new() -> (r: TreePrinter)
        ensures
            r.indent_level == 0,
            r.result@ == Seq::<char>::empty(),
    {
        TreePrinter { indent_level: 0, result: String::new() }
    }

    /// The rendering of the last processed tree; empty if no tree was
    /// processed yet.
    pub fn get_result(&self) -> (r: &str)
        ensures
            r@ == self.result@,
    {
        self.result.as_str()
    }

    /// Renders the tree into this printer's result: one line per node in
    /// pre-order, indented by depth, leaves with their source text.
    pub fn process_impl(&mut self, tree: &PolyglotTree) -> (r: Result<(), ()>)
        requires
            tree.wf(),
        ensures
            r is Ok,
    {
        let cst = &tree.tree;
        let mut walker = PreOrder2::new(cst);
        let mut fuel: usize = usize::MAX;
        while fuel > 0
            invariant
                walker.wf(),
                walker.cst == cst,
                tree.wf(),
            decreases fuel,
        {
            fuel = fuel - 1;
            match walker.next() {
                None => {
                    return Ok(());
                },
                Some((dir, n)) => {
                    match dir {
                        Direction::Down => {
                            let mut line = String::new();
                            push_indent(&mut line, self.indent_level);
                            line.append(cst.kind(n).as_str());
                            if cst.child_count(n) == 0 {
                                line.append(" : ");
                                line.append(cst.text(n).as_str());
                            } else {
                                self.indent_level = add_sat(self.indent_level, 1);
                            }
                            line.append("\n");
                            self.result.append(line.as_str());
                        },
                        Direction::Up => {
                            if cst.child_count(n) > 0 && self.indent_level > 0 {
                                self.indent_level = self.indent_level - 1;
                            }
                        },
                    }
                },
            }
        }
        Ok(())
    }
}

/// Saturating increment for indentation depths.
fn add_sat(a: usize, b: usize) -> (r: usize)
    ensures
        r == if a + b <= usize::MAX {
            a + b
        } else {
            usize::MAX as int
        },
{
    if a <= usize::MAX - b {
        a + b
    } else {
        usize::MAX
    }
}

impl PolygotProcessor for TreePrinter {
    // The accumulated result is reset first, so the rendering depends on
    // the given tree alone, not on printer history.
    fn process(&mut self, tree: &PolyglotTree) {
        self.result = String::new();
        let _ = self.process_impl(tree);
    }
}

/// Renders an indented line view of the whole composed source graph,
/// crossing recorded use edges transparently and marking the boundaries.
pub struct TreePrinterGlobal<'g> {
    pub global: &'g GlobalContext,
    pub indent_level: usize,
    pub result: String,
}

impl<'g> TreePrinterGlobal<'g> {
    /// A printer over the given registry with nothing rendered yet.
    pub fn new(global: &'g GlobalContext) -> (r: TreePrinterGlobal<'g>)
        ensures
            r.global == global,
            r.indent_level == 0,
            r.result@ == Seq::<char>::empty(),
    {
        TreePrinterGlobal { global, indent_level: 0, result: String::new() }
    }

    /// The rendering of the registry; empty before `process_impl` ran.
    pub fn get_result(&self) -> (r: &str)
        ensures
            r@ == self.result@,
    {
        self.result.as_str()
    }

    /// Renders the whole graph into this printer's result, starting from
    /// the root source.
    pub fn process_impl(&mut self) -> (r: Result<(), ()>)
        requires
            old(self).global.wf(),
        ensures
            final(self).global == old(self).global,
    {
        let ser = PolyglotTreeSerializer { global: self.global };
        let text = ser.to_text();
        self.result.append(text.as_str());
        Ok(())
    }
}

/// Serializes the composed source graph as indented `kind : text` lines,
/// with explicit markers where the rendering crosses from a call site
/// into the target source and back.
pub struct PolyglotTreeSerializer<'g> {
    pub global: &'g GlobalContext,
}

impl<'g> From<&'g GlobalContext> for PolyglotTreeSerializer<'g> {
    fn from(global: &'g GlobalContext) -> (r: Self) {
        PolyglotTreeSerializer { global }
    }
}

impl<'g> vstd::std_specs::convert::FromSpecImpl<&'g GlobalContext> for PolyglotTreeSerializer<'g> {
    open spec fn obeys_from_spec() -> bool {
        true
    }

    open spec fn from_spec(global: &'g GlobalContext) -> Self {
        PolyglotTreeSerializer { global }
    }
}

impl<'g> PolyglotTreeSerializer<'g> {
    /// Renders one source's remaining nodes until either a recorded use
    /// edge is reached — returning its target so the caller can descend —
    /// or the walk of this source ends.
    pub fn local(
        &self,
        out: &mut String,
        handle: usize,
        cst: &'g Cst,
        walker: &mut PreOrder2<'g>,
        indent: &mut usize,
    ) -> (r: Option<InternalHandle>)
        requires
            self.global.wf(),
            (handle as int) < self.global.sources@.len(),
            old(walker).wf(),
            old(walker).cst == cst,
        ensures
            final(walker).wf(),
            final(walker).cst == cst,
            r matches Some(t) ==> (t.0 as int) < self.global.sources@.len(),
    {
        let mut fuel: usize = usize::MAX;
        while fuel > 0
            invariant
                walker.wf(),
                walker.cst == cst,
                self.global.wf(),
                (handle as int) < self.global.sources@.len(),
            decreases fuel,
        {
            fuel = fuel - 1;
            match walker.next() {
                None => {
                    return None;
                },
                Some((dir, n)) => {
                    match dir {
                        Direction::Down => {
                            match edge_target(self.global, handle, n) {
                                Some(t) => {
                                    walker.skip_subtree();
                                    return Some(t);
                                },
                                None => {
                                    if cst.child_count(n) > 0 {
                                        push_indent(out, *indent);
                                        out.append(cst.kind(n).as_str());
                                        out.append("\n");
                                        *indent = add_sat(*indent, 1);
                                    } else {
                                        push_indent(out, *indent);
                                        out.append(cst.kind(n).as_str());
                                        if !crate::util::str_eq(
                                            cst.kind(n).as_str(),
                                            cst.text(n).as_str(),
                                        ) {
                                            out.append(" : ");
                                            out.append(cst.text(n).as_str());
                                        }
                                        out.append("\n");
                                    }
                                },
                            }
                        },
                        Direction::Up => {
                            if cst.child_count(n) > 0 && *indent > 0 {
                                *indent = *indent - 1;
                            }
                        },
                    }
                },
            }
        }
        None
    }

    /// Renders the whole composed graph, with `==== start/end ====`
    /// markers at cross-handle boundaries.
    pub fn to_text(&self) -> (r: String)
        requires
            self.global.wf(),
    {
        let g = self.global;
        let mut out = String::new();
        let root_cst = match &g.sources[0].1.cst {
            Some(c) => c,
            None => {
                return out;
            },
        };
        let mut indent: usize = 0;
        let mut stack: Vec<(usize, PreOrder2<'g>)> = Vec::new();
        stack.push((0, PreOrder2::new(root_cst)));
        let mut fuel: usize = usize::MAX;
        while fuel > 0
            invariant
                self.global.wf(),
                g == self.global,
                forall|s: int|
                    0 <= s < stack@.len() ==> ((#[trigger] stack@[s]).0 as int)
                        < self.global.sources@.len() && (stack@[s]).1.wf(),
            decreases fuel,
        {
            fuel = fuel - 1;
            let (handle, mut walker) = match stack.pop() {
                None => {
                    return out;
                },
                Some(f) => f,
            };
            let cst = walker.cst;
            match self.local(&mut out, handle, cst, &mut walker, &mut indent) {
                Some(t) => {
                    stack.push((handle, walker));
                    push_indent(&mut out, indent);
                    out.append("==== start of ");
                    out.append(handle_label(g, t.0).as_str());
                    out.append(" ====\n");
                    let target_cst = match &g.sources[t.0].1.cst {
                        Some(c) => c,
                        None => {
                            continue ;
                        },
                    };
                    stack.push((t.0, PreOrder2::new(target_cst)));
                },
                None => {
                    if stack.len() > 0 {
                        push_indent(&mut out, indent);
                        out.append("==== end of ");
                        out.append(handle_label(g, handle).as_str());
                        out.append(" ====\n");
                    }
                },
            }
        }
        out
    }
}

/// A short human-readable label for a registered source: its origin.
fn handle_label(global: &GlobalContext, h: usize) -> (r: String)
    requires
        global.wf(),
        (h as int) < global.sources@.len(),
{
    let mut out = String::new();
    match &global.sources[h].0.path {
        crate::context::SrcOrPath::Source(s) => {
            out.append("inline ");
            out.append(s.as_str());
        },
        crate::context::SrcOrPath::Path(p) => {
            out.append("file ");
            out.append(p.as_str());
        },
    }
    out
}

/// The recorded use edge of entry `handle` at document position `pos`,
/// if any.
fn edge_target(global: &GlobalContext, handle: usize, pos: usize) -> (r: Option<InternalHandle>)
    requires
        global.wf(),
        (handle as int) < global.sources@.len(),
    ensures
        r matches Some(t) ==> (t.0 as int) < global.sources@.len(),
{
    let edges = &global.sources[handle].2;
    let mut e: usize = 0;
    while e < edges.len()
        invariant
            e <= edges@.len(),
            global.wf(),
            (handle as int) < global.sources@.len(),
            edges == (global.sources@[handle as int]).2,
        decreases edges@.len() - e,
    {
        if edges[e].0.0 == pos {
            return Some(edges[e].1);
        }
        e = e + 1;
    }
    None
}

/// Collects the imported and exported polyglot bindings of processed
/// trees and reports names that are imported without being exported.
pub struct DUBuilder {
    pub imports: Vec<(String, Vec<(usize, usize)>)>,
    pub exports: Vec<(String, (usize, usize))>,
}

impl Default for DUBuilder {
    fn default() -> (r: Self)
        ensures
            r.imports@.len() == 0,
            r.exports@.len() == 0,
    {
        Self::new()
    }
}

impl DUBuilder {
    /// A builder with no bindings collected yet.
    pub fn new() -> (r: DUBuilder)
        ensures
            r.imports@.len() == 0,
            r.exports@.len() == 0,
    {
        DUBuilder { imports: Vec::new(), exports: Vec::new() }
    }

    /// The collected imported names, each with the byte ranges of its
    /// import sites.
    pub fn get_imports(&self) -> (r: &Vec<(String, Vec<(usize, usize)>)>)
        ensures
            r == self.imports,
    {
        &self.imports
    }

    /// The collected exported names, each with the byte range of its
    /// export site.
    pub fn get_exports(&self) -> (r: &Vec<(String, (usize, usize))>)
        ensures
            r == self.exports,
    {
        &self.exports
    }

    /// Folds another builder's collected bindings into this one: the
    /// existing entries stay in place and the other builder's entries
    /// follow them, carrying the same names and sites.
    pub fn update_maps(&mut self, son: &DUBuilder)
        ensures
            final(self).imports@.len() == old(self).imports@.len() + son.imports@.len(),
            final(self).exports@.len() == old(self).exports@.len() + son.exports@.len(),
            forall|k: int|
                0 <= k < old(self).imports@.len() ==> final(self).imports@[k] == old(
                    self,
                ).imports@[k],
            forall|k: int|
                0 <= k < old(self).exports@.len() ==> final(self).exports@[k] == old(
                    self,
                ).exports@[k],
            forall|k: int|
                0 <= k < son.imports@.len() ==> (((#[trigger] final(self).imports@[old(
                    self,
                ).imports@.len() + k]).0)@ == ((son.imports@[k]).0)@ && ((final(self).imports@[old(
                    self,
                ).imports@.len() + k]).1)@ == ((son.imports@[k]).1)@),
            forall|k: int|
                0 <= k < son.exports@.len() ==> #[trigger] final(self).exports@[old(
                    self,
                ).exports@.len() + k] == son.exports@[k],
    {
        let mut k: usize = 0;
        while k < son.imports.len()
            invariant
                k <= son.imports@.len(),
                self.imports@.len() == old(self).imports@.len() + k,
                self.exports@ == old(self).exports@,
                forall|e: int|
                    0 <= e < old(self).imports@.len() ==> self.imports@[e] == old(
                        self,
                    ).imports@[e],
                forall|e: int|
                    0 <= e < k ==> (((#[trigger] self.imports@[old(self).imports@.len() + e]).0)@
                        == ((son.imports@[e]).0)@ && ((self.imports@[old(self).imports@.len()
                        + e]).1)@ == ((son.imports@[e]).1)@),
            decreases son.imports@.len() - k,
        {
            let name = son.imports[k].0.clone();
            let sites = copy_sites(&son.imports[k].1);
            self.imports.push((name, sites));
            k = k + 1;
        }
        let mut k2: usize = 0;
        while k2 < son.exports.len()
            invariant
                k2 <= son.exports@.len(),
                self.exports@.len() == old(self).exports@.len() + k2,
                self.imports@.len() == old(self).imports@.len() + son.imports@.len(),
                forall|e: int|
                    0 <= e < old(self).imports@.len() ==> self.imports@[e] == old(
                        self,
                    ).imports@[e],
                forall|e: int|
                    0 <= e < son.imports@.len() ==> (((#[trigger] self.imports@[old(
                        self,
                    ).imports@.len() + e]).0)@ == ((son.imports@[e]).0)@ && ((self.imports@[old(
                        self,
                    ).imports@.len() + e]).1)@ == ((son.imports@[e]).1)@),
                forall|e: int|
                    0 <= e < old(self).exports@.len() ==> self.exports@[e] == old(
                        self,
                    ).exports@[e],
                forall|e: int|
                    0 <= e < k2 ==> #[trigger] self.exports@[old(self).exports@.len() + e]
                        == son.exports@[e],
            decreases son.exports@.len() - k2,
        {
            let name = son.exports[k2].0.clone();
            let site = son.exports[k2].1;
            self.exports.push((name, site));
            k2 = k2 + 1;
        }
    }

    /// The names that are imported somewhere but exported nowhere: a
    /// warning line stands in the result exactly for those imports.
    pub fn inconsistencies(&self) -> (r: Vec<String>)
        ensures
            r@.len() <= self.imports@.len(),
            forall|k: int|
                0 <= k < r@.len() ==> warning_of(
                    self.imports@,
                    self.exports@,
                    ((#[trigger] r@[k])@),
                ),
            forall|j: int|
                0 <= j < self.imports@.len() && !exported(
                    self.exports@,
                    ((#[trigger] self.imports@[j]).0)@,
                ) ==> warns_about(r@, ((self.imports@[j]).0)@),
    {
        let mut out: Vec<String> = Vec::new();
        let mut k: usize = 0;
        while k < self.imports.len()
            invariant
                k <= self.imports@.len(),
                out@.len() <= k,
                forall|e: int|
                    0 <= e < out@.len() ==> warning_of(
                        self.imports@,
                        self.exports@,
                        ((#[trigger] out@[e])@),
                    ),
                forall|j: int|
                    0 <= j < k && !exported(
                        self.exports@,
                        ((#[trigger] self.imports@[j]).0)@,
                    ) ==> warns_about(out@, ((self.imports@[j]).0)@),
            decreases self.imports@.len() - k,
        {
            let name = &self.imports[k].0;
            let mut found = false;
            let mut j: usize = 0;
            while j < self.exports.len()
                invariant
                    j <= self.exports@.len(),
                    name == (self.imports@[k as int]).0,
                    k < self.imports@.len(),
                    found ==> exported(self.exports@, name@),
                    !found ==> forall|e: int|
                        0 <= e < j ==> ((#[trigger] self.exports@[e]).0)@ != name@,
                decreases self.exports@.len() - j,
            {
                if crate::util::str_eq(self.exports[j].0.as_str(), name.as_str()) {
                    found = true;
                }
                j = j + 1;
            }
            proof {
                if !found {
                    assert(!exported(self.exports@, name@));
                }
            }
            let ghost out_pre = out@;
            if !found {
                let mut line = String::new();
                line.append("Imported but not exported: ");
                line.append(name.as_str());
                proof {
                    assert(line@ == warning_line(name@));
                }
                out.push(line);
                proof {
                    assert(warning_of(self.imports@, self.exports@, line@));
                }
            }
            proof {
                assert forall|j2: int|
                    0 <= j2 < k + 1 && !exported(
                        self.exports@,
                        ((#[trigger] self.imports@[j2]).0)@,
                    ) implies warns_about(out@, ((self.imports@[j2]).0)@) by {
                    if j2 < k {
                        let w = choose|w: int|
                            0 <= w < out_pre.len() && ((#[trigger] out_pre[w])@) == warning_line(
                                ((self.imports@[j2]).0)@,
                            );
                        assert(out@[w] == out_pre[w]);
                    } else {
                        assert(((out@[out@.len() - 1])@) == warning_line(
                            ((self.imports@[j2]).0)@,
                        ));
                    }
                };
            }
            k = k + 1;
        }
        out
    }
}

/// Whether some collected export carries the name.
pub open spec fn exported(exports: Seq<(String, (usize, usize))>, name: Seq<char>) -> bool {
    exists|j: int| 0 <= j < exports.len() && ((#[trigger] exports[j]).0)@ == name
}

/// The warning line reported for an import of `name` that no export
/// answers.
pub open spec fn warning_line(name: Seq<char>) -> Seq<char> {
    "Imported but not exported: "@ + name
}

/// Whether `line` is the warning for some collected import that no
/// export answers.
pub open spec fn warning_of(
    imports: Seq<(String, Vec<(usize, usize)>)>,
    exports: Seq<(String, (usize, usize))>,
    line: Seq<char>,
) -> bool {
    exists|j: int|
        0 <= j < imports.len() && line == warning_line(((#[trigger] imports[j]).0)@) && !exported(
            exports,
            ((imports[j]).0)@,
        )
}

/// Whether the warnings `r` hold a line about `name`.
pub open spec fn warns_about(r: Seq<String>, name: Seq<char>) -> bool {
    exists|k: int| 0 <= k < r.len() && ((#[trigger] r[k])@) == warning_line(name)
}

/// Copies a vector of byte ranges.
fn copy_sites(v: &Vec<(usize, usize)>) -> (r: Vec<(usize, usize)>)
    ensures
        r@ == v@,
{
    let mut r: Vec<(usize, usize)> = Vec::new();
    let mut i: usize = 0;
    while i < v.len()
        invariant
            i <= v@.len(),
            r@ == v@.take(i as int),
        decreases v@.len() - i,
    {
        r.push(v[i]);
        i = i + 1;
    }
    proof {
        assert(r@ =~= v@);
    }
    r
}

} // verus!
