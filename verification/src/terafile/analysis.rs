//! Diagnostic collection for a parsed Tera template.
//!
//! Syntax diagnostics come from the parser's missing and error nodes; the
//! semantic passes look for misplaced `extends` statements, content outside
//! blocks in child templates, misplaced macros and blocks, and includes
//! whose path is not static.

use vstd::prelude::*;

use crate::editor::{node_text, SourceTree};
use crate::syntax::{forest, named_only, SyntaxNode};
use crate::terafile::checks::{
    contains, contains_mismatched_end_tag, contains_str, dynamic_include_start, has_unclosed_tag_start,
    mismatched_end_tag, starts_with_any_end_tag, starts_with_dynamic_include, starts_with_end_tag,
    tag_appears_inside_macro, tag_inside_macro, unclosed_tag_start,
};
use crate::terafile::diagnostics::{Diagnostic, DiagnosticCode, Severity};
use crate::terafile::lowering::{lowered, model_view, strings_closed};
use crate::terafile::model::TeraFile;
use crate::text::{chars_of, is_white_space, leading_white_space, str_eq, trim_start, TextRange};

verus! {

/// A diagnostic as its code and range; its severity, message and help are
/// the code's defaults.
pub type DiagnosticView = (DiagnosticCode, TextRange);

/// Whether `d` is the default diagnostic for code `v.0` at range `v.1`.
pub open spec fn is_default_diagnostic(d: Diagnostic, v: DiagnosticView) -> bool {
    &&& d.spec_code() == v.0
    &&& d.spec_range() == v.1
    &&& d.spec_severity() == v.0.spec_severity()
    &&& d.spec_message() == v.0.spec_message()
    &&& d.spec_help() == Some(v.0.spec_help())
}

/// Whether the diagnostics `ds` are the default diagnostics `vs`, in order.
pub open spec fn diagnostics_are(ds: Seq<Diagnostic>, vs: Seq<DiagnosticView>) -> bool {
    ds.len() == vs.len() && forall|i: int| 0 <= i < ds.len() ==> is_default_diagnostic(#[trigger] ds[i], vs[i])
}

/// The view `v` when `cond` holds, nothing otherwise.
pub open spec fn view_if(cond: bool, v: DiagnosticView) -> Seq<DiagnosticView> {
    if cond {
        seq![v]
    } else {
        Seq::empty()
    }
}

/// The code for a node the parser inserted: a missing end keyword is an
/// unexpected end tag, a missing tag delimiter an unterminated tag.
pub open spec fn missing_code(kind: Seq<char>) -> DiagnosticCode {
    if kind == "endif"@ || kind == "endfor"@ || kind == "endblock"@ || kind == "endmacro"@ || kind
        == "endfilter"@ || kind == "endraw"@ {
        DiagnosticCode::UnexpectedEndTag
    } else if kind == "}}"@ || kind == "%}"@ || kind == "-}}"@ || kind == "-%}"@ || kind == "#}"@
        || kind == "-#}"@ {
        DiagnosticCode::UnterminatedTag
    } else {
        DiagnosticCode::SyntaxError
    }
}

/// The code for unparsable text, by what the text looks like.
pub open spec fn error_code(text: Seq<char>) -> DiagnosticCode {
    if dynamic_include_start(text) {
        DiagnosticCode::DynamicIncludePath
    } else if starts_with_end_tag(text) {
        DiagnosticCode::UnexpectedEndTag
    } else if mismatched_end_tag(text) {
        DiagnosticCode::MismatchedEndTag
    } else if unclosed_tag_start(text) {
        DiagnosticCode::UnterminatedTag
    } else {
        DiagnosticCode::SyntaxError
    }
}

/// Syntax diagnostics of the subtree at `n`: one for a missing or error
/// node, whose subtree is not searched further.
pub open spec fn syntax_diagnostics(source: Seq<char>, nodes: Seq<SyntaxNode>, n: int) -> Seq<
    DiagnosticView,
>
    decreases nodes.len() - n, 1nat, 0nat,
{
    if !(0 <= n < nodes.len()) {
        Seq::empty()
    } else if nodes[n].missing {
        seq![(missing_code(nodes[n].kind@), nodes[n].range)]
    } else if nodes[n].error {
        seq![(error_code(node_text(source, nodes[n])), nodes[n].range)]
    } else {
        syntax_forest(source, nodes, nodes[n].children@, n)
    }
}

/// Syntax diagnostics of the subtrees at `kids`, children of `parent`.
pub open spec fn syntax_forest(source: Seq<char>, nodes: Seq<SyntaxNode>, kids: Seq<usize>, parent: int) -> Seq<
    DiagnosticView,
>
    decreases nodes.len() - parent, 0nat, kids.len(),
{
    if kids.len() == 0 {
        Seq::empty()
    } else {
        let c = kids.last() as int;
        let tail = if parent < c < nodes.len() {
            syntax_diagnostics(source, nodes, c)
        } else {
            Seq::empty()
        };
        syntax_forest(source, nodes, kids.drop_last(), parent) + tail
    }
}

/// Blocks and `extends` inside a macro, found in the text (this catches
/// macros the parser could not recover), reported on the whole template.
pub open spec fn source_macro_diagnostics(source: Seq<char>, nodes: Seq<SyntaxNode>) -> Seq<DiagnosticView> {
    view_if(tag_inside_macro(source, "{% block"@), (DiagnosticCode::BlockNotAllowedInMacro, nodes[0].range))
        + view_if(
        tag_inside_macro(source, "{% extends"@),
        (DiagnosticCode::ExtendsNotAllowedInMacro, nodes[0].range),
    )
}

/// Whether text is empty or white space only.
pub open spec fn blank(t: Seq<char>) -> bool {
    trim_start(t).len() == 0
}

/// One step of the scan over the template's top-level items: the new
/// "saw renderable content" and "saw extends" flags and what is reported.
pub open spec fn extends_step(source: Seq<char>, nodes: Seq<SyntaxNode>, c: int, renderable: bool, extends: bool) -> (
    bool,
    bool,
    Seq<DiagnosticView>,
) {
    let kind = nodes[c].kind@;
    let empty = blank(node_text(source, nodes[c]));
    if kind == "comment_tag"@ || kind == "frontmatter"@ {
        (renderable, extends, Seq::empty())
    } else if kind == "content"@ && empty {
        (renderable, extends, Seq::empty())
    } else if kind == "extends_statement"@ {
        (renderable, true, view_if(renderable, (DiagnosticCode::ExtendsNotFirst, nodes[c].range)))
    } else if kind == "content"@ && extends {
        (renderable, extends, seq![(DiagnosticCode::ContentOutsideBlockInChildTemplate, nodes[c].range)])
    } else if kind == "content"@ {
        (true, extends, Seq::empty())
    } else if !extends {
        (true, extends, Seq::empty())
    } else {
        (renderable, extends, Seq::empty())
    }
}

/// The scan over top-level items `kids`: an `extends` after renderable
/// content is not first, and non-blank content after `extends` lies outside
/// any block.
pub open spec fn extends_scan(source: Seq<char>, nodes: Seq<SyntaxNode>, kids: Seq<usize>) -> (
    bool,
    bool,
    Seq<DiagnosticView>,
)
    decreases kids.len(),
{
    if kids.len() == 0 {
        (false, false, Seq::empty())
    } else {
        let (r, e, ds) = extends_scan(source, nodes, kids.drop_last());
        let (r2, e2, more) = extends_step(source, nodes, kids.last() as int, r, e);
        (r2, e2, ds + more)
    }
}

/// Text made of white space only, or empty, trims to nothing.
proof fn lemma_white_space_trims_away(t: Seq<char>)
    requires
        forall|i: int| 0 <= i < t.len() ==> is_white_space(#[trigger] t[i]),
    ensures
        trim_start(t).len() == 0,
    decreases t.len(),
{
    if t.len() > 0 {
        let rest = t.drop_first();
        assert forall|i: int| 0 <= i < rest.len() implies is_white_space(#[trigger] rest[i]) by {
            assert(rest[i] == t[i + 1]);
        }
        lemma_white_space_trims_away(rest);
    }
}

/// Top-level content whose text is empty or white space only (such as the
/// line break after `{% extends %}`, or blank lines before it) plays no part
/// in the scan of a template's top-level items: inserting it anywhere among
/// them leaves both flags and every reported diagnostic as they were.
pub proof fn lemma_blank_content_is_ignored(
    source: Seq<char>,
    nodes: Seq<SyntaxNode>,
    before: Seq<usize>,
    c: usize,
    after: Seq<usize>,
)
    requires
        nodes[c as int].kind@ == "content"@,
        forall|i: int|
            0 <= i < node_text(source, nodes[c as int]).len() ==> is_white_space(
                #[trigger] node_text(source, nodes[c as int])[i],
            ),
    ensures
        extends_scan(source, nodes, before + seq![c] + after) == extends_scan(source, nodes, before + after),
    decreases after.len(),
{
    lemma_white_space_trims_away(node_text(source, nodes[c as int]));
    reveal_strlit("content");
    reveal_strlit("comment_tag");
    reveal_strlit("frontmatter");
    reveal_strlit("extends_statement");
    let with = before + seq![c] + after;
    let without = before + after;
    if after.len() == 0 {
        assert(with.drop_last() =~= before);
        assert(with.last() == c);
        assert(without =~= before);
        let (r, e, ds) = extends_scan(source, nodes, before);
        assert(ds + Seq::<DiagnosticView>::empty() =~= ds);
    } else {
        lemma_blank_content_is_ignored(source, nodes, before, c, after.drop_last());
        assert(with.drop_last() =~= before + seq![c] + after.drop_last());
        assert(without.drop_last() =~= before + after.drop_last());
        assert(with.last() == after.last());
        assert(without.last() == after.last());
    }
}

/// Blocks and `extends` statements among the nodes `ds` below a macro.
pub open spec fn nested_in_macro(nodes: Seq<SyntaxNode>, ds: Seq<usize>) -> Seq<DiagnosticView>
    decreases ds.len(),
{
    if ds.len() == 0 {
        Seq::empty()
    } else {
        let d = ds.last() as int;
        let kind = nodes[d].kind@;
        nested_in_macro(nodes, ds.drop_last()) + if kind == "block_statement"@ {
            seq![(DiagnosticCode::BlockNotAllowedInMacro, nodes[d].range)]
        } else if kind == "extends_statement"@ {
            seq![(DiagnosticCode::ExtendsNotAllowedInMacro, nodes[d].range)]
        } else {
            Seq::empty()
        }
    }
}

/// Diagnostics of one macro statement `n`: not at the top level, and the
/// blocks and `extends` below it.
pub open spec fn macro_node_diagnostics(nodes: Seq<SyntaxNode>, n: int) -> Seq<DiagnosticView> {
    if nodes[n].error || nodes[n].kind@ != "macro_statement"@ {
        Seq::empty()
    } else {
        let misplaced = match nodes[n].parent {
            Some(p) => nodes[p as int].kind@ != "source_file"@,
            None => false,
        };
        view_if(misplaced, (DiagnosticCode::MacroNotTopLevel, nodes[n].range)) + nested_in_macro(
            nodes,
            forest(nodes, nodes[n].children@, n, true),
        )
    }
}

/// Macro diagnostics over the nodes `ds`.
pub open spec fn macro_diagnostics(nodes: Seq<SyntaxNode>, ds: Seq<usize>) -> Seq<DiagnosticView>
    decreases ds.len(),
{
    if ds.len() == 0 {
        Seq::empty()
    } else {
        macro_diagnostics(nodes, ds.drop_last()) + macro_node_diagnostics(nodes, ds.last() as int)
    }
}

/// Error nodes whose text holds a macro together with a block or `extends`.
pub open spec fn error_macro_diagnostics(source: Seq<char>, nodes: Seq<SyntaxNode>, ds: Seq<usize>) -> Seq<
    DiagnosticView,
>
    decreases ds.len(),
{
    if ds.len() == 0 {
        Seq::empty()
    } else {
        let d = ds.last() as int;
        let text = node_text(source, nodes[d]);
        let has_macro = contains(text, "{% macro"@);
        error_macro_diagnostics(source, nodes, ds.drop_last()) + if nodes[d].error {
            view_if(has_macro && contains(text, "{% block"@), (DiagnosticCode::BlockNotAllowedInMacro, nodes[d].range))
                + view_if(
                has_macro && contains(text, "{% extends"@),
                (DiagnosticCode::ExtendsNotAllowedInMacro, nodes[d].range),
            )
        } else {
            Seq::empty()
        }
    }
}

/// Whether some entry of `kids` is a string or an array.
pub open spec fn has_static_path(nodes: Seq<SyntaxNode>, kids: Seq<usize>) -> bool {
    exists|k: int|
        0 <= k < kids.len() && (#[trigger] nodes[kids[k] as int].kind@ == "string"@ || nodes[kids[k] as int].kind@
            == "array"@)
}

/// Include statements among `ds` without a string or array path.
pub open spec fn static_include_diagnostics(nodes: Seq<SyntaxNode>, ds: Seq<usize>) -> Seq<DiagnosticView>
    decreases ds.len(),
{
    if ds.len() == 0 {
        Seq::empty()
    } else {
        let d = ds.last() as int;
        static_include_diagnostics(nodes, ds.drop_last()) + view_if(
            nodes[d].kind@ == "include_statement"@ && !has_static_path(
                nodes,
                named_only(nodes, nodes[d].children@),
            ),
            (DiagnosticCode::DynamicIncludePath, nodes[d].range),
        )
    }
}

/// Every diagnostic of a template with root node 0: syntax first, then the
/// semantic passes in turn.
pub open spec fn template_diagnostics(source: Seq<char>, nodes: Seq<SyntaxNode>) -> Seq<DiagnosticView> {
    let root_kids = nodes[0].children@;
    syntax_diagnostics(source, nodes, 0) + source_macro_diagnostics(source, nodes) + extends_scan(
        source,
        nodes,
        named_only(nodes, root_kids),
    ).2 + macro_diagnostics(nodes, forest(nodes, root_kids, 0, true)) + error_macro_diagnostics(
        source,
        nodes,
        forest(nodes, root_kids, 0, false),
    ) + static_include_diagnostics(nodes, forest(nodes, root_kids, 0, true))
}

/// Appends the default diagnostic for `code` at `range` when `cond` holds.
fn push_diagnostic_if(
    out: &mut Vec<Diagnostic>,
    cond: bool,
    code: DiagnosticCode,
    range: TextRange,
    Ghost(vs): Ghost<Seq<DiagnosticView>>,
)
    requires
        diagnostics_are(old(out)@, vs),
    ensures
        diagnostics_are(final(out)@, vs + view_if(cond, (code, range))),
{
    if cond {
        out.push(Diagnostic::new(code, range));
        assert(vs + view_if(cond, (code, range)) =~= vs.push((code, range)));
    } else {
        assert(vs + view_if(cond, (code, range)) =~= vs);
    }
}

/// The code for a node of kind `kind` that the parser inserted.
fn missing_node_code(kind: &str) -> (res: DiagnosticCode)
    ensures
        res == missing_code(kind@),
{
    if str_eq(kind, "endif") || str_eq(kind, "endfor") || str_eq(kind, "endblock") || str_eq(kind, "endmacro")
        || str_eq(kind, "endfilter") || str_eq(kind, "endraw") {
        DiagnosticCode::UnexpectedEndTag
    } else if str_eq(kind, "}}") || str_eq(kind, "%}") || str_eq(kind, "-}}") || str_eq(kind, "-%}")
        || str_eq(kind, "#}") || str_eq(kind, "-#}") {
        DiagnosticCode::UnterminatedTag
    } else {
        DiagnosticCode::SyntaxError
    }
}

/// The code for unparsable text.
fn error_node_code(text: &str) -> (res: DiagnosticCode)
    ensures
        res == error_code(text@),
{
    if starts_with_dynamic_include(text) {
        return DiagnosticCode::DynamicIncludePath;
    }
    if starts_with_any_end_tag(text) {
        return DiagnosticCode::UnexpectedEndTag;
    }
    if contains_mismatched_end_tag(text) {
        return DiagnosticCode::MismatchedEndTag;
    }
    if has_unclosed_tag_start(text) {
        return DiagnosticCode::UnterminatedTag;
    }
    DiagnosticCode::SyntaxError
}

/// Appends the syntax diagnostics of the subtree at `n`.
fn collect_syntax_diagnostics(
    tree: &SourceTree,
    n: usize,
    out: &mut Vec<Diagnostic>,
    Ghost(vs): Ghost<Seq<DiagnosticView>>,
)
    requires
        n < tree.spec_nodes().len(),
        diagnostics_are(old(out)@, vs),
    ensures
        diagnostics_are(final(out)@, vs + syntax_diagnostics(tree.spec_source(), tree.spec_nodes(), n as int)),
    decreases tree.spec_nodes().len() - n,
{
    let t = tree.tree();
    t.reveal_wf();
    let ghost nodes = tree.spec_nodes();
    let ghost source = tree.spec_source();
    let node = t.node(n);
    if node.missing {
        push_diagnostic_if(out, true, missing_node_code(node.kind.as_str()), node.range, Ghost(vs));
        return;
    }
    if node.error {
        push_diagnostic_if(out, true, error_node_code(tree.text_for(n)), node.range, Ghost(vs));
        return;
    }
    let ghost kids = nodes[n as int].children@;
    let mut k: usize = 0;
    assert(kids.take(0) =~= Seq::<usize>::empty());
    assert(vs + Seq::<DiagnosticView>::empty() =~= vs);
    while k < node.children.len()
        invariant
            nodes == tree.spec_nodes(),
            source == tree.spec_source(),
            t.spec_nodes() == nodes,
            crate::syntax::nodes_wf(nodes),
            n < nodes.len(),
            *node == nodes[n as int],
            kids == nodes[n as int].children@,
            0 <= k <= kids.len(),
            diagnostics_are(out@, vs + syntax_forest(source, nodes, kids.take(k as int), n as int)),
        decreases kids.len() - k,
    {
        let c = node.children[k];
        assert(kids.take(k + 1).drop_last() =~= kids.take(k as int));
        assert(kids.take(k + 1).last() == c);
        let ghost before = vs + syntax_forest(source, nodes, kids.take(k as int), n as int);
        collect_syntax_diagnostics(tree, c, out, Ghost(before));
        proof {
            assert(syntax_forest(source, nodes, kids.take(k + 1), n as int) == syntax_forest(
                source,
                nodes,
                kids.take(k as int),
                n as int,
            ) + syntax_diagnostics(source, nodes, c as int));
            assert(before + syntax_diagnostics(source, nodes, c as int) =~= vs + syntax_forest(
                source,
                nodes,
                kids.take(k + 1),
                n as int,
            ));
        }
        k = k + 1;
    }
    assert(kids.take(k as int) =~= kids);
}

/// Appends the diagnostics for blocks and `extends` found inside macros in
/// the text.
fn collect_source_macro_diagnostics(tree: &SourceTree, out: &mut Vec<Diagnostic>, Ghost(vs): Ghost<Seq<DiagnosticView>>)
    requires
        diagnostics_are(old(out)@, vs),
    ensures
        diagnostics_are(final(out)@, vs + source_macro_diagnostics(tree.spec_source(), tree.spec_nodes())),
{
    let t = tree.tree();
    t.reveal_wf();
    let root = t.node(0).range;
    let block = tag_appears_inside_macro(tree.source(), "{% block");
    push_diagnostic_if(out, block, DiagnosticCode::BlockNotAllowedInMacro, root, Ghost(vs));
    let ghost vs1 = vs + view_if(block, (DiagnosticCode::BlockNotAllowedInMacro, root));
    let extends = tag_appears_inside_macro(tree.source(), "{% extends");
    push_diagnostic_if(out, extends, DiagnosticCode::ExtendsNotAllowedInMacro, root, Ghost(vs1));
    assert(vs1 + view_if(extends, (DiagnosticCode::ExtendsNotAllowedInMacro, root)) =~= vs
        + source_macro_diagnostics(tree.spec_source(), tree.spec_nodes()));
}

/// Whether text is empty or white space only.
fn is_blank(text: &str) -> (res: bool)
    ensures
        res == blank(text@),
{
    let chars = chars_of(text);
    let skip = leading_white_space(&chars);
    skip == chars.len()
}

/// Appends the diagnostics of the scan over the template's top-level items.
fn collect_extends_diagnostics(tree: &SourceTree, out: &mut Vec<Diagnostic>, Ghost(vs): Ghost<Seq<DiagnosticView>>)
    requires
        diagnostics_are(old(out)@, vs),
    ensures
        diagnostics_are(
            final(out)@,
            vs + extends_scan(tree.spec_source(), tree.spec_nodes(), named_only(tree.spec_nodes(), tree.spec_nodes()[0].children@)).2,
        ),
{
    let t = tree.tree();
    t.reveal_wf();
    let ghost nodes = tree.spec_nodes();
    let ghost source = tree.spec_source();
    let kids = t.named_children(0);
    let mut saw_renderable_item = false;
    let mut saw_extends = false;
    let mut i: usize = 0;
    assert(kids@.take(0) =~= Seq::<usize>::empty());
    assert(vs + Seq::<DiagnosticView>::empty() =~= vs);
    while i < kids.len()
        invariant
            nodes == tree.spec_nodes(),
            source == tree.spec_source(),
            t.spec_nodes() == nodes,
            forall|j: int| 0 <= j < kids@.len() ==> 0 < #[trigger] kids@[j] < nodes.len(),
            0 <= i <= kids@.len(),
            extends_scan(source, nodes, kids@.take(i as int)).0 == saw_renderable_item,
            extends_scan(source, nodes, kids@.take(i as int)).1 == saw_extends,
            diagnostics_are(out@, vs + extends_scan(source, nodes, kids@.take(i as int)).2),
        decreases kids@.len() - i,
    {
        let c = kids[i];
        assert(kids@.take(i + 1).drop_last() =~= kids@.take(i as int));
        assert(kids@.take(i + 1).last() == c);
        let ghost prev = vs + extends_scan(source, nodes, kids@.take(i as int)).2;
        let ghost step = extends_step(source, nodes, c as int, saw_renderable_item, saw_extends);
        let node = t.node(c);
        let kind = node.kind.as_str();
        let is_content = str_eq(kind, "content");
        if str_eq(kind, "comment_tag") || str_eq(kind, "frontmatter") {
            assert(prev + Seq::<DiagnosticView>::empty() =~= prev);
        } else if is_content && is_blank(tree.text_for(c)) {
            assert(prev + Seq::<DiagnosticView>::empty() =~= prev);
        } else if str_eq(kind, "extends_statement") {
            push_diagnostic_if(out, saw_renderable_item, DiagnosticCode::ExtendsNotFirst, node.range, Ghost(prev));
            saw_extends = true;
        } else if is_content && saw_extends {
            push_diagnostic_if(out, true, DiagnosticCode::ContentOutsideBlockInChildTemplate, node.range, Ghost(prev));
        } else if is_content {
            assert(prev + Seq::<DiagnosticView>::empty() =~= prev);
            saw_renderable_item = true;
        } else if !saw_extends {
            assert(prev + Seq::<DiagnosticView>::empty() =~= prev);
            saw_renderable_item = true;
        } else {
            assert(prev + Seq::<DiagnosticView>::empty() =~= prev);
        }
        proof {
            assert(prev + step.2 =~= vs + extends_scan(source, nodes, kids@.take(i + 1)).2);
        }
        i = i + 1;
    }
    assert(kids@.take(i as int) =~= kids@);
}

/// Appends the diagnostics for blocks and `extends` below macro `n`.
fn collect_nested_macro_diagnostics(
    tree: &SourceTree,
    n: usize,
    out: &mut Vec<Diagnostic>,
    Ghost(vs): Ghost<Seq<DiagnosticView>>,
)
    requires
        n < tree.spec_nodes().len(),
        diagnostics_are(old(out)@, vs),
    ensures
        diagnostics_are(
            final(out)@,
            vs + nested_in_macro(tree.spec_nodes(), forest(tree.spec_nodes(), tree.spec_nodes()[n as int].children@, n as int, true)),
        ),
{
    let t = tree.tree();
    let ghost nodes = tree.spec_nodes();
    let ds = t.descendants(n, true);
    let mut i: usize = 0;
    assert(ds@.take(0) =~= Seq::<usize>::empty());
    assert(vs + Seq::<DiagnosticView>::empty() =~= vs);
    while i < ds.len()
        invariant
            nodes == tree.spec_nodes(),
            t.spec_nodes() == nodes,
            forall|j: int| 0 <= j < ds@.len() ==> n < #[trigger] ds@[j] < nodes.len(),
            0 <= i <= ds@.len(),
            diagnostics_are(out@, vs + nested_in_macro(nodes, ds@.take(i as int))),
        decreases ds@.len() - i,
    {
        let d = ds[i];
        assert(ds@.take(i + 1).drop_last() =~= ds@.take(i as int));
        assert(ds@.take(i + 1).last() == d);
        let ghost prev = vs + nested_in_macro(nodes, ds@.take(i as int));
        let node = t.node(d);
        let block = str_eq(node.kind.as_str(), "block_statement");
        let extends = !block && str_eq(node.kind.as_str(), "extends_statement");
        if block {
            push_diagnostic_if(out, true, DiagnosticCode::BlockNotAllowedInMacro, node.range, Ghost(prev));
        } else if extends {
            push_diagnostic_if(out, true, DiagnosticCode::ExtendsNotAllowedInMacro, node.range, Ghost(prev));
        } else {
            assert(prev + Seq::<DiagnosticView>::empty() =~= prev);
        }
        proof {
            let step = if block {
                seq![(DiagnosticCode::BlockNotAllowedInMacro, nodes[d as int].range)]
            } else if extends {
                seq![(DiagnosticCode::ExtendsNotAllowedInMacro, nodes[d as int].range)]
            } else {
                Seq::<DiagnosticView>::empty()
            };
            assert(nested_in_macro(nodes, ds@.take(i + 1)) == nested_in_macro(nodes, ds@.take(i as int)) + step);
            assert(prev + step =~= vs + nested_in_macro(nodes, ds@.take(i + 1)));
        }
        i = i + 1;
    }
    assert(ds@.take(i as int) =~= ds@);
}

/// Appends the diagnostics of misplaced macros and of the blocks and
/// `extends` statements inside macros.
fn collect_macro_diagnostics(tree: &SourceTree, out: &mut Vec<Diagnostic>, Ghost(vs): Ghost<Seq<DiagnosticView>>)
    requires
        diagnostics_are(old(out)@, vs),
    ensures
        diagnostics_are(
            final(out)@,
            vs + macro_diagnostics(tree.spec_nodes(), forest(tree.spec_nodes(), tree.spec_nodes()[0].children@, 0, true)),
        ),
{
    let t = tree.tree();
    t.reveal_wf();
    let ghost nodes = tree.spec_nodes();
    let ds = t.descendants(0, true);
    let mut i: usize = 0;
    assert(ds@.take(0) =~= Seq::<usize>::empty());
    assert(vs + Seq::<DiagnosticView>::empty() =~= vs);
    while i < ds.len()
        invariant
            nodes == tree.spec_nodes(),
            t.spec_nodes() == nodes,
            crate::syntax::nodes_wf(nodes),
            forall|j: int| 0 <= j < ds@.len() ==> 0 < #[trigger] ds@[j] < nodes.len(),
            0 <= i <= ds@.len(),
            diagnostics_are(out@, vs + macro_diagnostics(nodes, ds@.take(i as int))),
        decreases ds@.len() - i,
    {
        let d = ds[i];
        assert(ds@.take(i + 1).drop_last() =~= ds@.take(i as int));
        assert(ds@.take(i + 1).last() == d);
        let ghost prev = vs + macro_diagnostics(nodes, ds@.take(i as int));
        let node = t.node(d);
        if node.error || !str_eq(node.kind.as_str(), "macro_statement") {
            assert(prev + Seq::<DiagnosticView>::empty() =~= prev);
            assert(macro_node_diagnostics(nodes, d as int) =~= Seq::<DiagnosticView>::empty());
        } else {
            let misplaced = match node.parent {
                Some(p) => !t.kind_is(p, "source_file"),
                None => false,
            };
            push_diagnostic_if(out, misplaced, DiagnosticCode::MacroNotTopLevel, node.range, Ghost(prev));
            let ghost mid = prev + view_if(misplaced, (DiagnosticCode::MacroNotTopLevel, node.range));
            collect_nested_macro_diagnostics(tree, d, out, Ghost(mid));
            proof {
                let nested = nested_in_macro(nodes, forest(nodes, nodes[d as int].children@, d as int, true));
                assert(macro_node_diagnostics(nodes, d as int) == view_if(
                    misplaced,
                    (DiagnosticCode::MacroNotTopLevel, nodes[d as int].range),
                ) + nested);
                assert(mid + nested =~= prev + macro_node_diagnostics(nodes, d as int));
            }
        }
        proof {
            assert(macro_diagnostics(nodes, ds@.take(i + 1)) == macro_diagnostics(nodes, ds@.take(i as int))
                + macro_node_diagnostics(nodes, d as int));
            assert(prev + macro_node_diagnostics(nodes, d as int) =~= vs + macro_diagnostics(nodes, ds@.take(i + 1)));
        }
        i = i + 1;
    }
    assert(ds@.take(i as int) =~= ds@);
}

/// Whether `text` contains `p`.
fn text_contains(text: &str, p: &str) -> (res: bool)
    ensures
        res == contains(text@, p@),
{
    contains_str(&chars_of(text), p)
}

/// Appends the diagnostics for error nodes holding a macro together with a
/// block or `extends`.
fn collect_error_macro_diagnostics(tree: &SourceTree, out: &mut Vec<Diagnostic>, Ghost(vs): Ghost<Seq<DiagnosticView>>)
    requires
        diagnostics_are(old(out)@, vs),
    ensures
        diagnostics_are(
            final(out)@,
            vs + error_macro_diagnostics(tree.spec_source(), tree.spec_nodes(), forest(tree.spec_nodes(), tree.spec_nodes()[0].children@, 0, false)),
        ),
{
    let t = tree.tree();
    t.reveal_wf();
    let ghost nodes = tree.spec_nodes();
    let ghost source = tree.spec_source();
    let ds = t.descendants(0, false);
    let mut i: usize = 0;
    assert(ds@.take(0) =~= Seq::<usize>::empty());
    assert(vs + Seq::<DiagnosticView>::empty() =~= vs);
    while i < ds.len()
        invariant
            nodes == tree.spec_nodes(),
            source == tree.spec_source(),
            t.spec_nodes() == nodes,
            forall|j: int| 0 <= j < ds@.len() ==> 0 < #[trigger] ds@[j] < nodes.len(),
            0 <= i <= ds@.len(),
            diagnostics_are(out@, vs + error_macro_diagnostics(source, nodes, ds@.take(i as int))),
        decreases ds@.len() - i,
    {
        let d = ds[i];
        assert(ds@.take(i + 1).drop_last() =~= ds@.take(i as int));
        assert(ds@.take(i + 1).last() == d);
        let ghost prev = vs + error_macro_diagnostics(source, nodes, ds@.take(i as int));
        let node = t.node(d);
        if node.error {
            let text = tree.text_for(d);
            let has_macro = text_contains(text, "{% macro");
            let block = has_macro && text_contains(text, "{% block");
            push_diagnostic_if(out, block, DiagnosticCode::BlockNotAllowedInMacro, node.range, Ghost(prev));
            let ghost mid = prev + view_if(block, (DiagnosticCode::BlockNotAllowedInMacro, node.range));
            let extends = has_macro && text_contains(text, "{% extends");
            push_diagnostic_if(out, extends, DiagnosticCode::ExtendsNotAllowedInMacro, node.range, Ghost(mid));
            proof {
                assert(mid + view_if(extends, (DiagnosticCode::ExtendsNotAllowedInMacro, node.range)) =~= vs
                    + error_macro_diagnostics(source, nodes, ds@.take(i + 1)));
            }
        } else {
            assert(prev + Seq::<DiagnosticView>::empty() =~= prev);
            assert(prev =~= vs + error_macro_diagnostics(source, nodes, ds@.take(i + 1)));
        }
        i = i + 1;
    }
    assert(ds@.take(i as int) =~= ds@);
}

/// Appends the diagnostics for include statements without a static path.
fn collect_static_include_diagnostics(tree: &SourceTree, out: &mut Vec<Diagnostic>, Ghost(vs): Ghost<Seq<DiagnosticView>>)
    requires
        diagnostics_are(old(out)@, vs),
    ensures
        diagnostics_are(
            final(out)@,
            vs + static_include_diagnostics(tree.spec_nodes(), forest(tree.spec_nodes(), tree.spec_nodes()[0].children@, 0, true)),
        ),
{
    let t = tree.tree();
    t.reveal_wf();
    let ghost nodes = tree.spec_nodes();
    let ds = t.descendants(0, true);
    let mut i: usize = 0;
    assert(ds@.take(0) =~= Seq::<usize>::empty());
    assert(vs + Seq::<DiagnosticView>::empty() =~= vs);
    while i < ds.len()
        invariant
            nodes == tree.spec_nodes(),
            t.spec_nodes() == nodes,
            forall|j: int| 0 <= j < ds@.len() ==> 0 < #[trigger] ds@[j] < nodes.len(),
            0 <= i <= ds@.len(),
            diagnostics_are(out@, vs + static_include_diagnostics(nodes, ds@.take(i as int))),
        decreases ds@.len() - i,
    {
        let d = ds[i];
        assert(ds@.take(i + 1).drop_last() =~= ds@.take(i as int));
        assert(ds@.take(i + 1).last() == d);
        let ghost prev = vs + static_include_diagnostics(nodes, ds@.take(i as int));
        let is_include = t.kind_is(d, "include_statement");
        let mut dynamic = false;
        if is_include {
            let kids = t.named_children(d);
            let mut k: usize = 0;
            let mut found = false;
            while k < kids.len()
                invariant
                    t.spec_nodes() == nodes,
                    forall|j: int| 0 <= j < kids@.len() ==> d < #[trigger] kids@[j] < nodes.len(),
                    0 <= k <= kids@.len(),
                    found == has_static_path(nodes, kids@.take(k as int)),
                decreases kids@.len() - k,
            {
                let c = kids[k];
                let hit = t.kind_is(c, "string") || t.kind_is(c, "array");
                proof {
                    let pre = kids@.take(k as int);
                    let next = kids@.take(k + 1);
                    if hit {
                        assert(next[k as int] == c);
                    }
                    if found {
                        let w = choose|w: int| 0 <= w < pre.len() && (#[trigger] nodes[pre[w] as int].kind@ == "string"@ || nodes[pre[w] as int].kind@ == "array"@);
                        assert(next[w] == pre[w]);
                    }
                    if !found && !hit {
                        assert forall|w: int| 0 <= w < next.len() implies !(#[trigger] nodes[next[w] as int].kind@ == "string"@ || nodes[next[w] as int].kind@ == "array"@) by {
                            if w < k {
                                assert(next[w] == pre[w]);
                            }
                        }
                    }
                }
                found = found || hit;
                k = k + 1;
            }
            assert(kids@.take(k as int) =~= kids@);
            dynamic = !found;
        }
        push_diagnostic_if(out, is_include && dynamic, DiagnosticCode::DynamicIncludePath, t.node(d).range, Ghost(prev));
        proof {
            assert(prev + view_if(is_include && dynamic, (DiagnosticCode::DynamicIncludePath, nodes[d as int].range)) =~= vs
                + static_include_diagnostics(nodes, ds@.take(i + 1)));
        }
        i = i + 1;
    }
    assert(ds@.take(i as int) =~= ds@);
}

/// Appends the semantic diagnostics of the template.
fn collect_semantic_diagnostics(tree: &SourceTree, out: &mut Vec<Diagnostic>, Ghost(vs): Ghost<Seq<DiagnosticView>>)
    requires
        diagnostics_are(old(out)@, vs),
    ensures
        diagnostics_are(final(out)@, vs + semantic_diagnostics(tree.spec_source(), tree.spec_nodes())),
{
    let ghost source = tree.spec_source();
    let ghost nodes = tree.spec_nodes();
    let ghost root_kids = nodes[0].children@;
    collect_source_macro_diagnostics(tree, out, Ghost(vs));
    let ghost v1 = vs + source_macro_diagnostics(source, nodes);
    collect_extends_diagnostics(tree, out, Ghost(v1));
    let ghost v2 = v1 + extends_scan(source, nodes, named_only(nodes, root_kids)).2;
    collect_macro_diagnostics(tree, out, Ghost(v2));
    let ghost v3 = v2 + macro_diagnostics(nodes, forest(nodes, root_kids, 0, true));
    collect_error_macro_diagnostics(tree, out, Ghost(v3));
    let ghost v4 = v3 + error_macro_diagnostics(source, nodes, forest(nodes, root_kids, 0, false));
    collect_static_include_diagnostics(tree, out, Ghost(v4));
    assert(v4 + static_include_diagnostics(nodes, forest(nodes, root_kids, 0, true)) =~= vs + semantic_diagnostics(
        source,
        nodes,
    ));
}

/// The semantic diagnostics of a template, pass by pass.
pub open spec fn semantic_diagnostics(source: Seq<char>, nodes: Seq<SyntaxNode>) -> Seq<DiagnosticView> {
    let root_kids = nodes[0].children@;
    source_macro_diagnostics(source, nodes) + extends_scan(source, nodes, named_only(nodes, root_kids)).2
        + macro_diagnostics(nodes, forest(nodes, root_kids, 0, true)) + error_macro_diagnostics(
        source,
        nodes,
        forest(nodes, root_kids, 0, false),
    ) + static_include_diagnostics(nodes, forest(nodes, root_kids, 0, true))
}

/// Collects the diagnostics of one parsed Tera template: syntax diagnostics
/// first, then the semantic passes.
pub fn collect_diagnostics(tree: &SourceTree) -> (res: Vec<Diagnostic>)
    ensures
        diagnostics_are(res@, template_diagnostics(tree.spec_source(), tree.spec_nodes())),
{
    tree.tree().reveal_wf();
    let mut out: Vec<Diagnostic> = Vec::new();
    let ghost vs = Seq::<DiagnosticView>::empty();
    collect_syntax_diagnostics(tree, 0, &mut out, Ghost(vs));
    let ghost v1 = vs + syntax_diagnostics(tree.spec_source(), tree.spec_nodes(), 0);
    collect_semantic_diagnostics(tree, &mut out, Ghost(v1));
    assert(v1 + semantic_diagnostics(tree.spec_source(), tree.spec_nodes()) =~= template_diagnostics(
        tree.spec_source(),
        tree.spec_nodes(),
    ));
    out
}

/// A forgiving analysis of a parsed Tera template: its recovered model and
/// every diagnostic found.
#[derive(Debug)]
pub struct Analysis {
    tree: SourceTree,
    file: TeraFile,
    diagnostics: Vec<Diagnostic>,
}

impl Analysis {
    /// The analyzed template's source text.
    pub closed spec fn spec_source(&self) -> Seq<char> {
        self.tree.spec_source()
    }

    /// The recovered model.
    pub closed spec fn spec_file(&self) -> TeraFile {
        self.file
    }

    /// The diagnostics found.
    pub closed spec fn spec_diagnostics(&self) -> Seq<Diagnostic> {
        self.diagnostics@
    }

    /// Returns the source text analyzed by this result.
    pub fn source(&self) -> (res: &str)
        ensures
            res@ == self.spec_source(),
    {
        self.tree.source()
    }

    /// Returns the recovered Tera semantic model.
    pub fn file(&self) -> (res: &TeraFile)
        ensures
            *res == self.spec_file(),
    {
        &self.file
    }

    /// Returns diagnostics discovered while analyzing the source.
    pub fn diagnostics(&self) -> (res: &[Diagnostic])
        ensures
            res@ == self.spec_diagnostics(),
    {
        self.diagnostics.as_slice()
    }

    /// Returns true when any diagnostic has error severity: every code but
    /// the hint for content outside a block in a child template is an error.
    pub fn has_errors(&self) -> (res: bool)
        ensures
            res == exists|i: int|
                0 <= i < self.spec_diagnostics().len() && #[trigger] self.spec_diagnostics()[i].spec_severity()
                    == Severity::Error,
            res == exists|i: int|
                0 <= i < self.spec_diagnostics().len() && #[trigger] self.spec_diagnostics()[i].spec_code()
                    != DiagnosticCode::ContentOutsideBlockInChildTemplate,
    {
        let mut i: usize = 0;
        while i < self.diagnostics.len()
            invariant
                0 <= i <= self.diagnostics@.len(),
                forall|j: int| 0 <= j < i ==> #[trigger] self.diagnostics@[j].spec_severity() != Severity::Error,
                forall|j: int|
                    0 <= j < i ==> #[trigger] self.diagnostics@[j].spec_code()
                        == DiagnosticCode::ContentOutsideBlockInChildTemplate,
            decreases self.diagnostics@.len() - i,
        {
            if self.diagnostics[i].severity() == Severity::Error {
                return true;
            }
            i = i + 1;
        }
        false
    }
}

/// Analyzes a parsed Tera template: its model and its diagnostics. Invalid
/// template source is reported through the diagnostics.
pub fn analyze(tree: SourceTree) -> (res: Analysis)
    requires
        strings_closed(tree.spec_source(), tree.spec_nodes()),
    ensures
        res.spec_source() == tree.spec_source(),
        model_view(res.spec_file()) == lowered(tree.spec_source(), tree.spec_nodes()),
        diagnostics_are(res.spec_diagnostics(), template_diagnostics(tree.spec_source(), tree.spec_nodes())),
{
    let file = TeraFile::from_tree(&tree);
    let diagnostics = collect_diagnostics(&tree);
    Analysis { tree, file, diagnostics }
}

/// Default diagnostics are errors except for content outside a block in a
/// child template, which is a hint: a template has errors exactly when it
/// has a diagnostic of another code.
pub proof fn lemma_errors_are_not_hints(ds: Seq<Diagnostic>, vs: Seq<DiagnosticView>)
    requires
        diagnostics_are(ds, vs),
    ensures
        (exists|i: int| 0 <= i < ds.len() && #[trigger] ds[i].spec_severity() == Severity::Error) <==> (exists|
            i: int,
        |
            0 <= i < vs.len() && #[trigger] vs[i].0 != DiagnosticCode::ContentOutsideBlockInChildTemplate),
{
    if exists|i: int| 0 <= i < ds.len() && #[trigger] ds[i].spec_severity() == Severity::Error {
        let i = choose|i: int| 0 <= i < ds.len() && #[trigger] ds[i].spec_severity() == Severity::Error;
        assert(is_default_diagnostic(ds[i], vs[i]));
        assert(vs[i].0 != DiagnosticCode::ContentOutsideBlockInChildTemplate);
    }
    if exists|i: int| 0 <= i < vs.len() && #[trigger] vs[i].0 != DiagnosticCode::ContentOutsideBlockInChildTemplate {
        let i = choose|i: int| 0 <= i < vs.len() && #[trigger] vs[i].0 != DiagnosticCode::ContentOutsideBlockInChildTemplate;
        assert(is_default_diagnostic(ds[i], vs[i]));
        assert(ds[i].spec_severity() == Severity::Error);
    }
}

} // verus!
