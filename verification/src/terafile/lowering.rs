//! Lowers a Tera syntax tree into the recovering Tera model.
//!
//! The walk visits the named nodes of the tree in pre-order and records, for
//! each construct, the facts that editor tooling uses: dependencies, macro
//! definitions, bindings, variable references, and callable references. It
//! does not decide whether those facts are valid.

use vstd::prelude::*;

use crate::editor::{field_child, node_text, SourceTree};
use crate::syntax::{lemma_subtree_in_bounds, named_only, nodes_wf, subtree, SyntaxNode};
use crate::terafile::checks::{contains, contains_str};
use crate::terafile::model::{
    Binding, BindingKind, Macro, MacroCall, MacroParameter, NamedReference, Spanned, TemplateDependency,
    TemplateDependencyKind, TemplatePath, TeraFile, VariableReference,
};
use crate::text::{chars_of, leading_white_space, starts_with, starts_with_at, str_eq, trim_start, TextRange};

verus! {

/// The path of a template dependency, as text.
pub enum PathView {
    /// One static path.
    Single(Seq<char>),
    /// A static fallback list.
    Choice(Seq<Seq<char>>),
}

/// The construct that declared a dependency, with texts.
pub enum DependencyKindView {
    /// `extends`.
    Extends,
    /// `include`, and whether it ignores a missing template.
    Include(bool),
    /// `import`, and its namespace.
    Import(Option<Seq<char>>),
}

/// A dependency: its kind, its path and its range.
pub type DependencyView = (DependencyKindView, PathView, TextRange);

/// A macro parameter: its name, whether it has a default, its range.
pub type ParameterView = (Seq<char>, bool, TextRange);

/// A macro: its name, its parameters and its range.
pub type MacroView = (Seq<char>, Seq<ParameterView>, TextRange);

/// A binding: its name, its kind and its range.
pub type BindingView = (Seq<char>, BindingKind, TextRange);

/// A variable reference: its path, its root and its range.
pub type VariableView = (Seq<char>, Seq<char>, TextRange);

/// A named reference: its name and its range.
pub type ReferenceView = (Seq<char>, TextRange);

/// A macro call: its namespace, its name, its keyword arguments, its range.
pub type CallView = (Seq<char>, Seq<char>, Seq<ReferenceView>, TextRange);

/// The facts of a Tera model, as texts.
#[verifier::ext_equal]
pub struct ModelView {
    /// Template dependencies.
    pub dependencies: Seq<DependencyView>,
    /// Macro definitions.
    pub macros: Seq<MacroView>,
    /// Local bindings.
    pub bindings: Seq<BindingView>,
    /// Variable references.
    pub variable_references: Seq<VariableView>,
    /// Filter references.
    pub filters: Seq<ReferenceView>,
    /// Test references.
    pub tests: Seq<ReferenceView>,
    /// Global function calls.
    pub functions: Seq<ReferenceView>,
    /// Namespaced macro calls.
    pub macro_calls: Seq<CallView>,
}

/// The model with no facts.
pub open spec fn empty_model() -> ModelView {
    ModelView {
        dependencies: Seq::empty(),
        macros: Seq::empty(),
        bindings: Seq::empty(),
        variable_references: Seq::empty(),
        filters: Seq::empty(),
        tests: Seq::empty(),
        functions: Seq::empty(),
        macro_calls: Seq::empty(),
    }
}

/// The facts of `a` followed by those of `b`, list by list.
pub open spec fn join_models(a: ModelView, b: ModelView) -> ModelView {
    ModelView {
        dependencies: a.dependencies + b.dependencies,
        macros: a.macros + b.macros,
        bindings: a.bindings + b.bindings,
        variable_references: a.variable_references + b.variable_references,
        filters: a.filters + b.filters,
        tests: a.tests + b.tests,
        functions: a.functions + b.functions,
        macro_calls: a.macro_calls + b.macro_calls,
    }
}

/// The texts of a list of strings.
pub open spec fn texts(v: Seq<String>) -> Seq<Seq<char>> {
    v.map_values(|s: String| s@)
}

/// A template path as text.
pub open spec fn path_view(p: TemplatePath) -> PathView {
    match p {
        TemplatePath::Single(s) => PathView::Single(s@),
        TemplatePath::Choice(v) => PathView::Choice(texts(v@)),
    }
}

/// A dependency kind as text.
pub open spec fn dependency_kind_view(k: TemplateDependencyKind) -> DependencyKindView {
    match k {
        TemplateDependencyKind::Extends => DependencyKindView::Extends,
        TemplateDependencyKind::Include { ignore_missing } => DependencyKindView::Include(ignore_missing),
        TemplateDependencyKind::Import { namespace } => DependencyKindView::Import(
            match namespace {
                Some(n) => Some(n@),
                None => None,
            },
        ),
    }
}

/// A spanned dependency as text.
pub open spec fn dependency_view(d: Spanned<TemplateDependency>) -> DependencyView {
    (dependency_kind_view(d.value.kind), path_view(d.value.path), d.range)
}

/// Spanned dependencies as text.
pub open spec fn dependencies_view(v: Seq<Spanned<TemplateDependency>>) -> Seq<DependencyView> {
    v.map_values(|d: Spanned<TemplateDependency>| dependency_view(d))
}

/// A spanned macro parameter as text.
pub open spec fn parameter_view(p: Spanned<MacroParameter>) -> ParameterView {
    (p.value.name@, p.value.has_default, p.range)
}

/// Spanned macro parameters as text.
pub open spec fn parameters_view(v: Seq<Spanned<MacroParameter>>) -> Seq<ParameterView> {
    v.map_values(|p: Spanned<MacroParameter>| parameter_view(p))
}

/// A spanned macro as text.
pub open spec fn macro_view(m: Spanned<Macro>) -> MacroView {
    (m.value.name@, parameters_view(m.value.parameters@), m.range)
}

/// Spanned macros as text.
pub open spec fn macros_view(v: Seq<Spanned<Macro>>) -> Seq<MacroView> {
    v.map_values(|m: Spanned<Macro>| macro_view(m))
}

/// A spanned binding as text.
pub open spec fn binding_view(b: Spanned<Binding>) -> BindingView {
    (b.value.name@, b.value.kind, b.range)
}

/// Spanned bindings as text.
pub open spec fn bindings_view(v: Seq<Spanned<Binding>>) -> Seq<BindingView> {
    v.map_values(|b: Spanned<Binding>| binding_view(b))
}

/// A spanned variable reference as text.
pub open spec fn variable_view(v: Spanned<VariableReference>) -> VariableView {
    (v.value.path@, v.value.root@, v.range)
}

/// Spanned variable references as text.
pub open spec fn variables_view(v: Seq<Spanned<VariableReference>>) -> Seq<VariableView> {
    v.map_values(|r: Spanned<VariableReference>| variable_view(r))
}

/// A spanned named reference as text.
pub open spec fn reference_view(r: Spanned<NamedReference>) -> ReferenceView {
    (r.value.name@, r.range)
}

/// Spanned named references as text.
pub open spec fn references_view(v: Seq<Spanned<NamedReference>>) -> Seq<ReferenceView> {
    v.map_values(|r: Spanned<NamedReference>| reference_view(r))
}

/// A spanned macro call as text.
pub open spec fn call_view(c: Spanned<MacroCall>) -> CallView {
    (c.value.namespace@, c.value.name@, references_view(c.value.arguments@), c.range)
}

/// Spanned macro calls as text.
pub open spec fn calls_view(v: Seq<Spanned<MacroCall>>) -> Seq<CallView> {
    v.map_values(|c: Spanned<MacroCall>| call_view(c))
}

/// A Tera model as text.
pub open spec fn model_view(f: TeraFile) -> ModelView {
    ModelView {
        dependencies: dependencies_view(f.spec_dependencies()),
        macros: macros_view(f.spec_macros()),
        bindings: bindings_view(f.spec_bindings()),
        variable_references: variables_view(f.spec_variable_references()),
        filters: references_view(f.spec_filters()),
        tests: references_view(f.spec_tests()),
        functions: references_view(f.spec_functions()),
        macro_calls: calls_view(f.spec_macro_calls()),
    }
}

/// The text of node `n`.
pub open spec fn text_at(source: Seq<char>, nodes: Seq<SyntaxNode>, n: int) -> Seq<char> {
    node_text(source, nodes[n])
}

/// Whether `c` opens a Tera string literal.
pub open spec fn is_quote(c: char) -> bool {
    c == '"' || c == '\'' || c == '`'
}

/// Whether text is a lone quote character, which no string literal can be.
pub open spec fn lone_quote(t: Seq<char>) -> bool {
    t.len() == 1 && is_quote(t[0])
}

/// Whether no string node of the tree is a lone quote character.
pub open spec fn strings_closed(source: Seq<char>, nodes: Seq<SyntaxNode>) -> bool {
    forall|d: int|
        0 <= d < nodes.len() && #[trigger] nodes[d].kind@ == "string"@ ==> !lone_quote(text_at(source, nodes, d))
}

/// The contents of a string literal: the text between a leading quote and
/// the same quote at the end.
pub open spec fn parsed_string(t: Seq<char>) -> Option<Seq<char>> {
    if t.len() >= 2 && is_quote(t[0]) && t.last() == t[0] {
        Some(t.subrange(1, t.len() - 1))
    } else {
        None
    }
}

/// The first of `kids` whose kind is `kind`.
pub open spec fn first_of_kind(nodes: Seq<SyntaxNode>, kids: Seq<usize>, kind: Seq<char>) -> Option<usize>
    decreases kids.len(),
{
    if kids.len() == 0 {
        None
    } else if nodes[kids[0] as int].kind@ == kind {
        Some(kids[0])
    } else {
        first_of_kind(nodes, kids.drop_first(), kind)
    }
}

/// The named children of node `n`.
pub open spec fn named_kids(nodes: Seq<SyntaxNode>, n: int) -> Seq<usize> {
    named_only(nodes, nodes[n].children@)
}

/// Whether `c` is the child of `p` under field `f`.
pub open spec fn is_field(nodes: Seq<SyntaxNode>, p: int, c: int, f: Seq<char>) -> bool {
    field_child(nodes, p, f) == Some(c as usize)
}

/// The contents of the first string literal among the named children of `n`.
pub open spec fn first_string(source: Seq<char>, nodes: Seq<SyntaxNode>, n: int) -> Option<Seq<char>> {
    match first_of_kind(nodes, named_kids(nodes, n), "string"@) {
        Some(c) => parsed_string(text_at(source, nodes, c as int)),
        None => None,
    }
}

/// The first of `kids` that is a string or an array.
pub open spec fn first_path_node(nodes: Seq<SyntaxNode>, kids: Seq<usize>) -> Option<usize>
    decreases kids.len(),
{
    if kids.len() == 0 {
        None
    } else if nodes[kids[0] as int].kind@ == "string"@ || nodes[kids[0] as int].kind@ == "array"@ {
        Some(kids[0])
    } else {
        first_path_node(nodes, kids.drop_first())
    }
}

/// The contents of the string literals among `kids`.
pub open spec fn string_items(source: Seq<char>, nodes: Seq<SyntaxNode>, kids: Seq<usize>) -> Seq<Seq<char>>
    decreases kids.len(),
{
    if kids.len() == 0 {
        Seq::empty()
    } else {
        let c = kids.last() as int;
        let prev = string_items(source, nodes, kids.drop_last());
        if nodes[c].kind@ == "string"@ {
            match parsed_string(text_at(source, nodes, c)) {
                Some(s) => prev.push(s),
                None => prev,
            }
        } else {
            prev
        }
    }
}

/// The path of an include: its first string literal, or the string literals
/// of its first array.
pub open spec fn template_path_of(source: Seq<char>, nodes: Seq<SyntaxNode>, n: int) -> Option<PathView> {
    match first_path_node(nodes, named_kids(nodes, n)) {
        Some(c) => if nodes[c as int].kind@ == "string"@ {
            match parsed_string(text_at(source, nodes, c as int)) {
                Some(s) => Some(PathView::Single(s)),
                None => None,
            }
        } else {
            Some(PathView::Choice(string_items(source, nodes, named_kids(nodes, c as int))))
        },
        None => None,
    }
}

/// The entries of `kids` under field `f`.
pub open spec fn with_field(nodes: Seq<SyntaxNode>, kids: Seq<usize>, f: Seq<char>) -> Seq<usize>
    decreases kids.len(),
{
    if kids.len() == 0 {
        Seq::empty()
    } else {
        let c = kids.last();
        let prev = with_field(nodes, kids.drop_last(), f);
        if nodes[c as int].field matches Some(g) && g@ == f {
            prev.push(c)
        } else {
            prev
        }
    }
}

/// Required macro parameters: one per node of `cs`.
pub open spec fn required_parameters(source: Seq<char>, nodes: Seq<SyntaxNode>, cs: Seq<usize>) -> Seq<ParameterView>
    decreases cs.len(),
{
    if cs.len() == 0 {
        Seq::empty()
    } else {
        let c = cs.last() as int;
        required_parameters(source, nodes, cs.drop_last()).push((text_at(source, nodes, c), false, nodes[c].range))
    }
}

/// Optional macro parameters among `cs`: each named by its `name` field.
pub open spec fn optional_parameters(source: Seq<char>, nodes: Seq<SyntaxNode>, cs: Seq<usize>) -> Seq<ParameterView>
    decreases cs.len(),
{
    if cs.len() == 0 {
        Seq::empty()
    } else {
        let c = cs.last() as int;
        let prev = optional_parameters(source, nodes, cs.drop_last());
        if nodes[c].kind@ == "optional_parameter"@ {
            match field_child(nodes, c, "name"@) {
                Some(m) => prev.push((text_at(source, nodes, m as int), true, nodes[m as int].range)),
                None => prev,
            }
        } else {
            prev
        }
    }
}

/// The parameters of a macro parameter list `p`: the required ones, then
/// the optional ones.
pub open spec fn macro_parameters(source: Seq<char>, nodes: Seq<SyntaxNode>, p: int) -> Seq<ParameterView> {
    required_parameters(source, nodes, with_field(nodes, nodes[p].children@, "parameter"@))
        + optional_parameters(source, nodes, named_kids(nodes, p))
}

/// The parameters of macro statement `n`.
pub open spec fn parameters_of(source: Seq<char>, nodes: Seq<SyntaxNode>, n: int) -> Seq<ParameterView> {
    match field_child(nodes, n, "parameters"@) {
        Some(p) => macro_parameters(source, nodes, p as int),
        None => Seq::empty(),
    }
}

/// Bindings for macro parameters.
pub open spec fn parameter_bindings(ps: Seq<ParameterView>) -> Seq<BindingView> {
    ps.map_values(|p: ParameterView| (p.0, BindingKind::MacroParameter, p.2))
}

/// Keyword argument names among `cs`.
pub open spec fn keyword_arguments(source: Seq<char>, nodes: Seq<SyntaxNode>, cs: Seq<usize>) -> Seq<ReferenceView>
    decreases cs.len(),
{
    if cs.len() == 0 {
        Seq::empty()
    } else {
        let c = cs.last() as int;
        let prev = keyword_arguments(source, nodes, cs.drop_last());
        if nodes[c].kind@ == "keyword_argument"@ {
            match field_child(nodes, c, "name"@) {
                Some(m) => prev.push((text_at(source, nodes, m as int), nodes[m as int].range)),
                None => prev,
            }
        } else {
            prev
        }
    }
}

/// Bindings of the assignments among `cs`.
pub open spec fn set_bindings(source: Seq<char>, nodes: Seq<SyntaxNode>, cs: Seq<usize>, global: bool) -> Seq<BindingView>
    decreases cs.len(),
{
    if cs.len() == 0 {
        Seq::empty()
    } else {
        let c = cs.last() as int;
        let prev = set_bindings(source, nodes, cs.drop_last(), global);
        if nodes[c].kind@ == "assignment_expression"@ {
            match field_child(nodes, c, "left"@) {
                Some(l) => if nodes[l as int].kind@ == "identifier"@ {
                    prev.push(
                        (
                            text_at(source, nodes, l as int),
                            if global {
                                BindingKind::SetGlobal
                            } else {
                                BindingKind::SetLocal
                            },
                            nodes[l as int].range,
                        ),
                    )
                } else {
                    prev
                },
                None => prev,
            }
        } else {
            prev
        }
    }
}

/// Loop-variable bindings among `cs`.
pub open spec fn for_bindings(source: Seq<char>, nodes: Seq<SyntaxNode>, cs: Seq<usize>) -> Seq<BindingView>
    decreases cs.len(),
{
    if cs.len() == 0 {
        Seq::empty()
    } else {
        let c = cs.last() as int;
        let prev = for_bindings(source, nodes, cs.drop_last());
        if nodes[c].kind@ == "identifier"@ {
            prev.push((text_at(source, nodes, c), BindingKind::ForVariable, nodes[c].range))
        } else {
            prev
        }
    }
}

/// Whether identifier `n` is a variable reference rather than a name that
/// its parent construct defines or calls.
pub open spec fn is_variable_reference_at(nodes: Seq<SyntaxNode>, n: int) -> bool {
    match nodes[n].parent {
        None => true,
        Some(q) => {
            let p = q as int;
            let k = nodes[p].kind@;
            if k == "call_expression"@ {
                !is_field(nodes, p, n, "name"@) && !is_field(nodes, p, n, "scope"@)
            } else if k == "filter_expression"@ {
                !is_field(nodes, p, n, "filter"@)
            } else if k == "test_expression"@ {
                !is_field(nodes, p, n, "test"@)
            } else if k == "import_statement"@ {
                !is_field(nodes, p, n, "scope"@)
            } else if k == "keyword_argument"@ || k == "optional_parameter"@ {
                !is_field(nodes, p, n, "name"@)
            } else if k == "macro_statement"@ {
                !is_field(nodes, p, n, "name"@)
            } else if k == "assignment_expression"@ {
                !is_field(nodes, p, n, "left"@)
            } else if k == "for_statement"@ {
                !is_field(nodes, p, n, "left"@)
            } else if k == "member_expression"@ {
                !is_field(nodes, p, n, "property"@) && !is_field(nodes, p, n, "index"@)
            } else {
                true
            }
        },
    }
}

/// The outermost member expression whose `value` chain leads down to `n`
/// (`n` itself when it is not such a value).
pub open spec fn reference_root(nodes: Seq<SyntaxNode>, n: int) -> int
    decreases n,
{
    if 0 <= n < nodes.len() {
        match nodes[n].parent {
            Some(q) => if q < n && nodes[q as int].kind@ == "member_expression"@ && is_field(
                nodes,
                q as int,
                n,
                "value"@,
            ) {
                reference_root(nodes, q as int)
            } else {
                n
            },
            None => n,
        }
    } else {
        n
    }
}

/// The dependency of extends statement `n`.
pub open spec fn extends_facts(source: Seq<char>, nodes: Seq<SyntaxNode>, n: int) -> ModelView {
    match first_string(source, nodes, n) {
        Some(p) => ModelView {
            dependencies: seq![(DependencyKindView::Extends, PathView::Single(p), nodes[n].range)],
            ..empty_model()
        },
        None => empty_model(),
    }
}

/// The dependency of include statement `n`.
pub open spec fn include_facts(source: Seq<char>, nodes: Seq<SyntaxNode>, n: int) -> ModelView {
    match template_path_of(source, nodes, n) {
        Some(p) => ModelView {
            dependencies: seq![
                (DependencyKindView::Include(contains(text_at(source, nodes, n), "ignore missing"@)), p, nodes[n].range),
            ],
            ..empty_model()
        },
        None => empty_model(),
    }
}

/// The dependency and namespace binding of import statement `n`.
pub open spec fn import_facts(source: Seq<char>, nodes: Seq<SyntaxNode>, n: int) -> ModelView {
    match first_string(source, nodes, n) {
        Some(p) => match field_child(nodes, n, "scope"@) {
            Some(s) => ModelView {
                dependencies: seq![
                    (DependencyKindView::Import(Some(text_at(source, nodes, s as int))), PathView::Single(p), nodes[n].range),
                ],
                bindings: seq![(text_at(source, nodes, s as int), BindingKind::ImportNamespace, nodes[s as int].range)],
                ..empty_model()
            },
            None => ModelView {
                dependencies: seq![(DependencyKindView::Import(None), PathView::Single(p), nodes[n].range)],
                ..empty_model()
            },
        },
        None => empty_model(),
    }
}

/// The definition and parameter bindings of macro statement `n`.
pub open spec fn macro_facts(source: Seq<char>, nodes: Seq<SyntaxNode>, n: int) -> ModelView {
    match field_child(nodes, n, "name"@) {
        Some(m) => {
            let ps = parameters_of(source, nodes, n);
            ModelView {
                macros: seq![(text_at(source, nodes, m as int), ps, nodes[n].range)],
                bindings: parameter_bindings(ps),
                ..empty_model()
            }
        },
        None => empty_model(),
    }
}

/// The bindings of set statement `n`; `set_global` makes global ones.
pub open spec fn set_facts(source: Seq<char>, nodes: Seq<SyntaxNode>, n: int) -> ModelView {
    let global = starts_with(trim_start(text_at(source, nodes, n)), "{% set_global"@);
    ModelView { bindings: set_bindings(source, nodes, named_kids(nodes, n), global), ..empty_model() }
}

/// The loop variables of for statement `n`, then the `loop` variable.
pub open spec fn for_facts(source: Seq<char>, nodes: Seq<SyntaxNode>, n: int) -> ModelView {
    ModelView {
        bindings: for_bindings(source, nodes, with_field(nodes, nodes[n].children@, "left"@)).push(
            ("loop"@, BindingKind::LoopVariable, nodes[n].range),
        ),
        ..empty_model()
    }
}

/// The filter named by filter statement `n`.
pub open spec fn filter_statement_facts(source: Seq<char>, nodes: Seq<SyntaxNode>, n: int) -> ModelView {
    match first_of_kind(nodes, named_kids(nodes, n), "identifier"@) {
        Some(f) => ModelView { filters: seq![(text_at(source, nodes, f as int), nodes[f as int].range)], ..empty_model() },
        None => empty_model(),
    }
}

/// The filter applied by filter expression `n`.
pub open spec fn filter_expression_facts(source: Seq<char>, nodes: Seq<SyntaxNode>, n: int) -> ModelView {
    match field_child(nodes, n, "filter"@) {
        Some(f) => ModelView { filters: seq![(text_at(source, nodes, f as int), nodes[f as int].range)], ..empty_model() },
        None => empty_model(),
    }
}

/// The test applied by test expression `n`.
pub open spec fn test_expression_facts(source: Seq<char>, nodes: Seq<SyntaxNode>, n: int) -> ModelView {
    match field_child(nodes, n, "test"@) {
        Some(t) => ModelView { tests: seq![(text_at(source, nodes, t as int), nodes[t as int].range)], ..empty_model() },
        None => empty_model(),
    }
}

/// Call expression `n`: a macro call when it has a namespace, a function
/// call otherwise.
pub open spec fn call_facts(source: Seq<char>, nodes: Seq<SyntaxNode>, n: int) -> ModelView {
    match field_child(nodes, n, "name"@) {
        Some(m) => {
            let args = match field_child(nodes, n, "arguments"@) {
                Some(a) => keyword_arguments(source, nodes, named_kids(nodes, a as int)),
                None => Seq::empty(),
            };
            match field_child(nodes, n, "scope"@) {
                Some(s) => ModelView {
                    macro_calls: seq![(text_at(source, nodes, s as int), text_at(source, nodes, m as int), args, nodes[n].range)],
                    ..empty_model()
                },
                None => ModelView {
                    functions: seq![(text_at(source, nodes, m as int), nodes[m as int].range)],
                    ..empty_model()
                },
            }
        },
        None => empty_model(),
    }
}

/// Identifier `n` as a variable reference, when it is one.
pub open spec fn identifier_facts(source: Seq<char>, nodes: Seq<SyntaxNode>, n: int) -> ModelView {
    if is_variable_reference_at(nodes, n) {
        let r = reference_root(nodes, n);
        ModelView {
            variable_references: seq![(text_at(source, nodes, r), text_at(source, nodes, n), nodes[r].range)],
            ..empty_model()
        }
    } else {
        empty_model()
    }
}

/// The facts that node `n` contributes, by its kind.
pub open spec fn node_facts(source: Seq<char>, nodes: Seq<SyntaxNode>, n: int) -> ModelView {
    let k = nodes[n].kind@;
    if k == "extends_statement"@ {
        extends_facts(source, nodes, n)
    } else if k == "include_statement"@ {
        include_facts(source, nodes, n)
    } else if k == "import_statement"@ {
        import_facts(source, nodes, n)
    } else if k == "macro_statement"@ {
        macro_facts(source, nodes, n)
    } else if k == "set_statement"@ {
        set_facts(source, nodes, n)
    } else if k == "for_statement"@ {
        for_facts(source, nodes, n)
    } else if k == "filter_statement"@ {
        filter_statement_facts(source, nodes, n)
    } else if k == "filter_expression"@ {
        filter_expression_facts(source, nodes, n)
    } else if k == "test_expression"@ {
        test_expression_facts(source, nodes, n)
    } else if k == "call_expression"@ {
        call_facts(source, nodes, n)
    } else if k == "identifier"@ {
        identifier_facts(source, nodes, n)
    } else {
        empty_model()
    }
}

/// The facts of the nodes `ds`, in order.
pub open spec fn facts_of(source: Seq<char>, nodes: Seq<SyntaxNode>, ds: Seq<usize>) -> ModelView
    decreases ds.len(),
{
    if ds.len() == 0 {
        empty_model()
    } else {
        join_models(facts_of(source, nodes, ds.drop_last()), node_facts(source, nodes, ds.last() as int))
    }
}

/// The model of a template with root node 0: the facts of its named nodes
/// in pre-order.
pub open spec fn lowered(source: Seq<char>, nodes: Seq<SyntaxNode>) -> ModelView {
    facts_of(source, nodes, subtree(nodes, 0, true))
}


/// Whether node `n` is the `value` of a member expression, its parent.
pub open spec fn is_member_value(nodes: Seq<SyntaxNode>, n: int) -> bool {
    0 <= n < nodes.len() && match nodes[n].parent {
        Some(q) => q < n && nodes[q as int].kind@ == "member_expression"@ && field_child(nodes, q as int, "value"@)
            == Some(n as usize),
        None => false,
    }
}

/// Whether climbing from `n` through member expressions of which it is the
/// `value` reaches `r`.
pub open spec fn value_chain(nodes: Seq<SyntaxNode>, r: int, n: int) -> bool
    decreases n,
{
    if n == r {
        true
    } else if is_member_value(nodes, n) && n >= 0 {
        match nodes[n].parent {
            Some(q) => q < n && value_chain(nodes, r, q as int),
            None => false,
        }
    } else {
        false
    }
}

/// The outermost member expression found from `n` is reached from `n`
/// through `value` fields, and is itself the value of no member expression.
proof fn lemma_reference_root_chain(nodes: Seq<SyntaxNode>, n: int)
    requires
        0 <= n < nodes.len(),
    ensures
        0 <= reference_root(nodes, n) <= n,
        value_chain(nodes, reference_root(nodes, n), n),
        !is_member_value(nodes, reference_root(nodes, n)),
    decreases n,
{
    if is_member_value(nodes, n) {
        let q = nodes[n].parent->0 as int;
        lemma_reference_root_chain(nodes, q);
    }
}

/// Each variable reference recorded for node `n` has, as its root, the text
/// of identifier `n` and, as its path, the text and range of a node reached
/// from `n` through `value` fields that is the value of no member expression.
proof fn lemma_node_variable_references(source: Seq<char>, nodes: Seq<SyntaxNode>, n: int, k: int)
    requires
        0 <= n < nodes.len(),
        0 <= k < node_facts(source, nodes, n).variable_references.len(),
    ensures
        nodes[n].kind@ == "identifier"@,
        value_chain(nodes, reference_root(nodes, n), n),
        !is_member_value(nodes, reference_root(nodes, n)),
        0 <= reference_root(nodes, n) <= n,
        node_facts(source, nodes, n).variable_references[k] == (
            node_text(source, nodes[reference_root(nodes, n)]),
            node_text(source, nodes[n]),
            nodes[reference_root(nodes, n)].range,
        ),
{
    lemma_reference_root_chain(nodes, n);
}

/// Whether `v` is a variable reference that starts at an identifier of the
/// tree: its root is the identifier's text and its path the text and range
/// of the outermost member expression whose `value` chain leads down to the
/// identifier (the identifier itself when there is none).
pub open spec fn starts_at_identifier(source: Seq<char>, nodes: Seq<SyntaxNode>, v: VariableView) -> bool {
    exists|r: int, n: int|
        0 <= r <= n < nodes.len() && nodes[n].kind@ == "identifier"@ && #[trigger] value_chain(nodes, r, n)
            && !is_member_value(nodes, r) && v == (
            node_text(source, nodes[r]),
            node_text(source, nodes[n]),
            nodes[r].range,
        )
}

/// Every variable reference gathered from the nodes `ds` starts at an
/// identifier of the tree.
proof fn lemma_facts_variable_references(source: Seq<char>, nodes: Seq<SyntaxNode>, ds: Seq<usize>)
    requires
        forall|i: int| 0 <= i < ds.len() ==> #[trigger] ds[i] < nodes.len(),
    ensures
        forall|k: int|
            0 <= k < facts_of(source, nodes, ds).variable_references.len() ==> starts_at_identifier(
                source,
                nodes,
                #[trigger] facts_of(source, nodes, ds).variable_references[k],
            ),
    decreases ds.len(),
{
    if ds.len() > 0 {
        let rest = ds.drop_last();
        assert forall|i: int| 0 <= i < rest.len() implies #[trigger] rest[i] < nodes.len() by {
            assert(rest[i] == ds[i]);
        }
        lemma_facts_variable_references(source, nodes, rest);
        let prev = facts_of(source, nodes, rest).variable_references;
        let n = ds.last() as int;
        let more = node_facts(source, nodes, n).variable_references;
        let all = facts_of(source, nodes, ds).variable_references;
        assert(all == prev + more);
        assert forall|k: int| 0 <= k < all.len() implies starts_at_identifier(source, nodes, #[trigger] all[k]) by {
            if k < prev.len() {
                assert(all[k] == prev[k]);
            } else {
                lemma_node_variable_references(source, nodes, n, k - prev.len());
                assert(all[k] == more[k - prev.len()]);
                let r = reference_root(nodes, n);
                assert(nodes[n].kind@ == "identifier"@);
                assert(all[k] == (node_text(source, nodes[r]), node_text(source, nodes[n]), nodes[r].range));
            }
        }
    }
}

/// Every variable reference of a template starts at an identifier: its
/// root is the identifier's text, and its path is the text, and its range
/// the range, of the outermost member expression whose chain of `value`
/// fields leads down to that identifier, or of the identifier itself when
/// it is not such a value. So `product.name` has root `product`.
pub proof fn lemma_variable_references_start_at_identifiers(source: Seq<char>, nodes: Seq<SyntaxNode>)
    requires
        nodes.len() > 0,
    ensures
        forall|k: int|
            0 <= k < lowered(source, nodes).variable_references.len() ==> starts_at_identifier(
                source,
                nodes,
                #[trigger] lowered(source, nodes).variable_references[k],
            ),
{
    lemma_subtree_in_bounds(nodes, 0, true);
    let ds = subtree(nodes, 0, true);
    assert forall|i: int| 0 <= i < ds.len() implies #[trigger] ds[i] < nodes.len() by {}
    lemma_facts_variable_references(source, nodes, ds);
}

/// A dependency view of an optional path.
pub open spec fn string_opt_view(o: Option<String>) -> Option<Seq<char>> {
    match o {
        Some(s) => Some(s@),
        None => None,
    }
}

/// An optional template path as text.
pub open spec fn path_opt_view(o: Option<TemplatePath>) -> Option<PathView> {
    match o {
        Some(p) => Some(path_view(p)),
        None => None,
    }
}

/// The first named child of `n` whose kind is `kind`.
fn first_named_child_of_kind(tree: &SourceTree, n: usize, kind: &str) -> (res: Option<usize>)
    requires
        n < tree.spec_nodes().len(),
    ensures
        res == first_of_kind(tree.spec_nodes(), named_kids(tree.spec_nodes(), n as int), kind@),
        res matches Some(c) ==> n < c < tree.spec_nodes().len(),
{
    let t = tree.tree();
    let ghost nodes = tree.spec_nodes();
    let kids = t.named_children(n);
    let mut k: usize = 0;
    assert(kids@.skip(0) =~= kids@);
    while k < kids.len()
        invariant
            nodes == tree.spec_nodes(),
            t.spec_nodes() == nodes,
            kids@ == named_kids(nodes, n as int),
            forall|j: int| 0 <= j < kids@.len() ==> n < #[trigger] kids@[j] < nodes.len(),
            0 <= k <= kids@.len(),
            first_of_kind(nodes, kids@, kind@) == first_of_kind(nodes, kids@.skip(k as int), kind@),
        decreases kids@.len() - k,
    {
        let c = kids[k];
        assert(kids@.skip(k as int).drop_first() =~= kids@.skip(k + 1));
        assert(kids@.skip(k as int)[0] == c);
        if t.kind_is(c, kind) {
            return Some(c);
        }
        k = k + 1;
    }
    None
}

/// The contents of string literal `n`.
fn parse_string(tree: &SourceTree, n: usize) -> (res: Option<String>)
    requires
        n < tree.spec_nodes().len(),
        !lone_quote(text_at(tree.spec_source(), tree.spec_nodes(), n as int)),
    ensures
        string_opt_view(res) == parsed_string(text_at(tree.spec_source(), tree.spec_nodes(), n as int)),
{
    let text = tree.text_for(n);
    let chars = chars_of(text);
    let len = chars.len();
    if len == 0 {
        return None;
    }
    let quote = chars[0];
    if !(quote == '"' || quote == '\'' || quote == '`') {
        return None;
    }
    if chars[len - 1] != quote {
        return None;
    }
    Some(text.substring_char(1, len - 1).to_owned())
}

/// The contents of the first string literal among the named children of `n`.
fn first_string_child(tree: &SourceTree, n: usize) -> (res: Option<String>)
    requires
        n < tree.spec_nodes().len(),
        strings_closed(tree.spec_source(), tree.spec_nodes()),
    ensures
        string_opt_view(res) == first_string(tree.spec_source(), tree.spec_nodes(), n as int),
{
    match first_named_child_of_kind(tree, n, "string") {
        Some(c) => {
            assert(tree.spec_nodes()[c as int].kind@ == "string"@) by {
                lemma_first_of_kind(tree.spec_nodes(), named_kids(tree.spec_nodes(), n as int), "string"@);
            }
            parse_string(tree, c)
        },
        None => None,
    }
}

/// What [`first_of_kind`] finds has that kind.
proof fn lemma_first_of_kind(nodes: Seq<SyntaxNode>, kids: Seq<usize>, kind: Seq<char>)
    ensures
        first_of_kind(nodes, kids, kind) matches Some(c) ==> nodes[c as int].kind@ == kind,
    decreases kids.len(),
{
    if kids.len() > 0 && nodes[kids[0] as int].kind@ != kind {
        lemma_first_of_kind(nodes, kids.drop_first(), kind);
    }
}

/// What [`first_path_node`] finds is a string or an array.
proof fn lemma_first_path_node(nodes: Seq<SyntaxNode>, kids: Seq<usize>)
    ensures
        first_path_node(nodes, kids) matches Some(c) ==> (nodes[c as int].kind@ == "string"@
            || nodes[c as int].kind@ == "array"@),
    decreases kids.len(),
{
    if kids.len() > 0 && !(nodes[kids[0] as int].kind@ == "string"@ || nodes[kids[0] as int].kind@ == "array"@) {
        lemma_first_path_node(nodes, kids.drop_first());
    }
}

/// The contents of the string literals among the named children of `a`.
fn string_items_of(tree: &SourceTree, a: usize) -> (res: Vec<String>)
    requires
        a < tree.spec_nodes().len(),
        strings_closed(tree.spec_source(), tree.spec_nodes()),
    ensures
        texts(res@) == string_items(tree.spec_source(), tree.spec_nodes(), named_kids(tree.spec_nodes(), a as int)),
{
    let t = tree.tree();
    let ghost nodes = tree.spec_nodes();
    let ghost source = tree.spec_source();
    let kids = t.named_children(a);
    let mut items: Vec<String> = Vec::new();
    let mut k: usize = 0;
    assert(kids@.take(0) =~= Seq::<usize>::empty());
    assert(texts(items@) =~= Seq::<Seq<char>>::empty());
    while k < kids.len()
        invariant
            nodes == tree.spec_nodes(),
            source == tree.spec_source(),
            t.spec_nodes() == nodes,
            strings_closed(source, nodes),
            forall|j: int| 0 <= j < kids@.len() ==> a < #[trigger] kids@[j] < nodes.len(),
            0 <= k <= kids@.len(),
            texts(items@) == string_items(source, nodes, kids@.take(k as int)),
        decreases kids@.len() - k,
    {
        let c = kids[k];
        assert(kids@.take(k + 1).drop_last() =~= kids@.take(k as int));
        assert(kids@.take(k + 1).last() == c);
        if t.kind_is(c, "string") {
            match parse_string(tree, c) {
                Some(s) => {
                    let ghost before = items@;
                    items.push(s);
                    assert(texts(items@) =~= texts(before).push(s@));
                },
                None => {},
            }
        }
        k = k + 1;
    }
    assert(kids@.take(k as int) =~= kids@);
    items
}

/// The path of include statement `n`.
fn template_path_child(tree: &SourceTree, n: usize) -> (res: Option<TemplatePath>)
    requires
        n < tree.spec_nodes().len(),
        strings_closed(tree.spec_source(), tree.spec_nodes()),
    ensures
        path_opt_view(res) == template_path_of(tree.spec_source(), tree.spec_nodes(), n as int),
{
    let t = tree.tree();
    let ghost nodes = tree.spec_nodes();
    let kids = t.named_children(n);
    let mut k: usize = 0;
    assert(kids@.skip(0) =~= kids@);
    while k < kids.len()
        invariant
            nodes == tree.spec_nodes(),
            t.spec_nodes() == nodes,
            strings_closed(tree.spec_source(), nodes),
            kids@ == named_kids(nodes, n as int),
            forall|j: int| 0 <= j < kids@.len() ==> n < #[trigger] kids@[j] < nodes.len(),
            0 <= k <= kids@.len(),
            first_path_node(nodes, kids@) == first_path_node(nodes, kids@.skip(k as int)),
        decreases kids@.len() - k,
    {
        let c = kids[k];
        assert(kids@.skip(k as int).drop_first() =~= kids@.skip(k + 1));
        assert(kids@.skip(k as int)[0] == c);
        if t.kind_is(c, "string") {
            return match parse_string(tree, c) {
                Some(s) => Some(TemplatePath::Single(s)),
                None => None,
            };
        }
        if t.kind_is(c, "array") {
            return Some(TemplatePath::Choice(string_items_of(tree, c)));
        }
        k = k + 1;
    }
    None
}

/// The children of `n` under field `field`.
fn children_with_field(tree: &SourceTree, n: usize, field: &str) -> (res: Vec<usize>)
    requires
        n < tree.spec_nodes().len(),
    ensures
        res@ == with_field(tree.spec_nodes(), tree.spec_nodes()[n as int].children@, field@),
        forall|j: int| 0 <= j < res@.len() ==> n < #[trigger] res@[j] < tree.spec_nodes().len(),
{
    let t = tree.tree();
    t.reveal_wf();
    let ghost nodes = tree.spec_nodes();
    let ghost kids = nodes[n as int].children@;
    let node = t.node(n);
    let mut res: Vec<usize> = Vec::new();
    let mut k: usize = 0;
    assert(kids.take(0) =~= Seq::<usize>::empty());
    while k < node.children.len()
        invariant
            nodes == tree.spec_nodes(),
            t.spec_nodes() == nodes,
            nodes_wf(nodes),
            n < nodes.len(),
            *node == nodes[n as int],
            kids == nodes[n as int].children@,
            0 <= k <= kids.len(),
            res@ == with_field(nodes, kids.take(k as int), field@),
            forall|j: int| 0 <= j < res@.len() ==> n < #[trigger] res@[j] < nodes.len(),
        decreases kids.len() - k,
    {
        let c = node.children[k];
        assert(kids.take(k + 1).drop_last() =~= kids.take(k as int));
        assert(kids.take(k + 1).last() == c);
        let hit = match &t.node(c).field {
            Some(f) => str_eq(f.as_str(), field),
            None => false,
        };
        if hit {
            res.push(c);
        }
        k = k + 1;
    }
    assert(kids.take(k as int) =~= kids);
    res
}

/// A named reference to node `n`.
fn named_reference(tree: &SourceTree, n: usize) -> (res: Spanned<NamedReference>)
    requires
        n < tree.spec_nodes().len(),
    ensures
        reference_view(res) == (text_at(tree.spec_source(), tree.spec_nodes(), n as int), tree.spec_nodes()[n as int].range),
{
    Spanned { value: NamedReference { name: tree.text_for(n).to_owned() }, range: tree.range_for(n) }
}

/// The parameters of macro parameter list `p`.
fn parse_macro_parameters(tree: &SourceTree, p: usize) -> (res: Vec<Spanned<MacroParameter>>)
    requires
        p < tree.spec_nodes().len(),
    ensures
        parameters_view(res@) == macro_parameters(tree.spec_source(), tree.spec_nodes(), p as int),
{
    let t = tree.tree();
    let ghost nodes = tree.spec_nodes();
    let ghost source = tree.spec_source();
    let mut parameters: Vec<Spanned<MacroParameter>> = Vec::new();
    let required = children_with_field(tree, p, "parameter");
    let mut k: usize = 0;
    assert(required@.take(0) =~= Seq::<usize>::empty());
    assert(parameters_view(parameters@) =~= Seq::<ParameterView>::empty());
    while k < required.len()
        invariant
            nodes == tree.spec_nodes(),
            source == tree.spec_source(),
            forall|j: int| 0 <= j < required@.len() ==> p < #[trigger] required@[j] < nodes.len(),
            0 <= k <= required@.len(),
            parameters_view(parameters@) == required_parameters(source, nodes, required@.take(k as int)),
        decreases required@.len() - k,
    {
        let c = required[k];
        assert(required@.take(k + 1).drop_last() =~= required@.take(k as int));
        assert(required@.take(k + 1).last() == c);
        let ghost before = parameters@;
        let item = Spanned {
            value: MacroParameter { name: tree.text_for(c).to_owned(), has_default: false },
            range: tree.range_for(c),
        };
        parameters.push(item);
        assert(parameters_view(parameters@) =~= parameters_view(before).push(parameter_view(item)));
        k = k + 1;
    }
    assert(required@.take(k as int) =~= required@);
    let ghost head = parameters_view(parameters@);
    let kids = t.named_children(p);
    let mut k: usize = 0;
    assert(kids@.take(0) =~= Seq::<usize>::empty());
    assert(head + Seq::<ParameterView>::empty() =~= head);
    while k < kids.len()
        invariant
            nodes == tree.spec_nodes(),
            source == tree.spec_source(),
            t.spec_nodes() == nodes,
            forall|j: int| 0 <= j < kids@.len() ==> p < #[trigger] kids@[j] < nodes.len(),
            0 <= k <= kids@.len(),
            parameters_view(parameters@) == head + optional_parameters(source, nodes, kids@.take(k as int)),
        decreases kids@.len() - k,
    {
        let c = kids[k];
        assert(kids@.take(k + 1).drop_last() =~= kids@.take(k as int));
        assert(kids@.take(k + 1).last() == c);
        if t.kind_is(c, "optional_parameter") {
            match t.child_by_field_name(c, "name") {
                Some(m) => {
                    let ghost before = parameters@;
                    let item = Spanned {
                        value: MacroParameter { name: tree.text_for(m).to_owned(), has_default: true },
                        range: tree.range_for(m),
                    };
                    parameters.push(item);
                    assert(parameters_view(parameters@) =~= parameters_view(before).push(parameter_view(item)));
                },
                None => {},
            }
        }
        proof {
            let prev = optional_parameters(source, nodes, kids@.take(k as int));
            let next = optional_parameters(source, nodes, kids@.take(k + 1));
            assert((head + prev).push((text_at(source, nodes, 0), true, nodes[0].range)) =~= head + prev.push(
                (text_at(source, nodes, 0), true, nodes[0].range),
            ));
            if next != prev {
                let m = field_child(nodes, c as int, "name"@)->0;
                assert((head + prev).push((text_at(source, nodes, m as int), true, nodes[m as int].range)) =~= head
                    + next);
            }
        }
        k = k + 1;
    }
    assert(kids@.take(k as int) =~= kids@);
    parameters
}

/// The keyword argument names of argument list `a`.
fn parse_keyword_arguments(tree: &SourceTree, a: usize) -> (res: Vec<Spanned<NamedReference>>)
    requires
        a < tree.spec_nodes().len(),
    ensures
        references_view(res@) == keyword_arguments(tree.spec_source(), tree.spec_nodes(), named_kids(tree.spec_nodes(), a as int)),
{
    let t = tree.tree();
    let ghost nodes = tree.spec_nodes();
    let ghost source = tree.spec_source();
    let kids = t.named_children(a);
    let mut arguments: Vec<Spanned<NamedReference>> = Vec::new();
    let mut k: usize = 0;
    assert(kids@.take(0) =~= Seq::<usize>::empty());
    assert(references_view(arguments@) =~= Seq::<ReferenceView>::empty());
    while k < kids.len()
        invariant
            nodes == tree.spec_nodes(),
            source == tree.spec_source(),
            t.spec_nodes() == nodes,
            forall|j: int| 0 <= j < kids@.len() ==> a < #[trigger] kids@[j] < nodes.len(),
            0 <= k <= kids@.len(),
            references_view(arguments@) == keyword_arguments(source, nodes, kids@.take(k as int)),
        decreases kids@.len() - k,
    {
        let c = kids[k];
        assert(kids@.take(k + 1).drop_last() =~= kids@.take(k as int));
        assert(kids@.take(k + 1).last() == c);
        if t.kind_is(c, "keyword_argument") {
            match t.child_by_field_name(c, "name") {
                Some(m) => {
                    let ghost before = arguments@;
                    let item = named_reference(tree, m);
                    arguments.push(item);
                    assert(references_view(arguments@) =~= references_view(before).push(reference_view(item)));
                },
                None => {},
            }
        }
        k = k + 1;
    }
    assert(kids@.take(k as int) =~= kids@);
    arguments
}

/// Whether `c` is the child of `p` under field `f`.
fn is_child_for_field(tree: &SourceTree, p: usize, c: usize, f: &str) -> (res: bool)
    requires
        p < tree.spec_nodes().len(),
    ensures
        res == is_field(tree.spec_nodes(), p as int, c as int, f@),
{
    match tree.tree().child_by_field_name(p, f) {
        Some(x) => x == c,
        None => false,
    }
}

/// Whether identifier `n` is a variable reference.
fn is_variable_reference(tree: &SourceTree, n: usize) -> (res: bool)
    requires
        n < tree.spec_nodes().len(),
    ensures
        res == is_variable_reference_at(tree.spec_nodes(), n as int),
{
    let t = tree.tree();
    let p = match t.parent(n) {
        Some(p) => p,
        None => {
            return true;
        },
    };
    if t.kind_is(p, "call_expression") {
        !is_child_for_field(tree, p, n, "name") && !is_child_for_field(tree, p, n, "scope")
    } else if t.kind_is(p, "filter_expression") {
        !is_child_for_field(tree, p, n, "filter")
    } else if t.kind_is(p, "test_expression") {
        !is_child_for_field(tree, p, n, "test")
    } else if t.kind_is(p, "import_statement") {
        !is_child_for_field(tree, p, n, "scope")
    } else if t.kind_is(p, "keyword_argument") || t.kind_is(p, "optional_parameter") {
        !is_child_for_field(tree, p, n, "name")
    } else if t.kind_is(p, "macro_statement") {
        !is_child_for_field(tree, p, n, "name")
    } else if t.kind_is(p, "assignment_expression") {
        !is_child_for_field(tree, p, n, "left")
    } else if t.kind_is(p, "for_statement") {
        !is_child_for_field(tree, p, n, "left")
    } else if t.kind_is(p, "member_expression") {
        !is_child_for_field(tree, p, n, "property") && !is_child_for_field(tree, p, n, "index")
    } else {
        true
    }
}

/// The outermost member expression whose `value` chain leads down to `n`.
fn reference_node(tree: &SourceTree, n: usize) -> (res: usize)
    requires
        n < tree.spec_nodes().len(),
    ensures
        res == reference_root(tree.spec_nodes(), n as int),
        res < tree.spec_nodes().len(),
{
    let t = tree.tree();
    let ghost nodes = tree.spec_nodes();
    let mut current = n;
    loop
        invariant
            nodes == tree.spec_nodes(),
            t.spec_nodes() == nodes,
            current < nodes.len(),
            reference_root(nodes, current as int) == reference_root(nodes, n as int),
        decreases current,
    {
        let parent = match t.parent(current) {
            Some(p) => p,
            None => {
                return current;
            },
        };
        if !t.kind_is(parent, "member_expression") || !is_child_for_field(tree, parent, current, "value") {
            return current;
        }
        current = parent;
    }
}

/// The facts of a Tera model under construction.
struct TeraFileBuilder {
    dependencies: Vec<Spanned<TemplateDependency>>,
    macros: Vec<Spanned<Macro>>,
    bindings: Vec<Spanned<Binding>>,
    variable_references: Vec<Spanned<VariableReference>>,
    filters: Vec<Spanned<NamedReference>>,
    tests: Vec<Spanned<NamedReference>>,
    functions: Vec<Spanned<NamedReference>>,
    macro_calls: Vec<Spanned<MacroCall>>,
}

impl TeraFileBuilder {
    /// The facts recorded so far, as texts.
    spec fn facts(&self) -> ModelView {
        ModelView {
            dependencies: dependencies_view(self.dependencies@),
            macros: macros_view(self.macros@),
            bindings: bindings_view(self.bindings@),
            variable_references: variables_view(self.variable_references@),
            filters: references_view(self.filters@),
            tests: references_view(self.tests@),
            functions: references_view(self.functions@),
            macro_calls: calls_view(self.macro_calls@),
        }
    }

    /// A builder with no facts.
    fn new() -> (res: TeraFileBuilder)
        ensures
            res.facts() == empty_model(),
    {
        let res = TeraFileBuilder {
            dependencies: Vec::new(),
            macros: Vec::new(),
            bindings: Vec::new(),
            variable_references: Vec::new(),
            filters: Vec::new(),
            tests: Vec::new(),
            functions: Vec::new(),
            macro_calls: Vec::new(),
        };
        assert(res.facts() =~= empty_model());
        res
    }

    /// The model of the recorded facts.
    fn finish(self) -> (res: TeraFile)
        ensures
            model_view(res) == self.facts(),
    {
        let res = TeraFile::new(
            self.dependencies,
            self.macros,
            self.bindings,
            self.variable_references,
            self.filters,
            self.tests,
            self.functions,
            self.macro_calls,
        );
        assert(model_view(res) =~= self.facts());
        res
    }

    /// Records the dependency of extends statement `n`.
    fn record_extends(&mut self, tree: &SourceTree, n: usize)
        requires
            n < tree.spec_nodes().len(),
            tree.spec_nodes()[n as int].kind@ == "extends_statement"@,
            strings_closed(tree.spec_source(), tree.spec_nodes()),
        ensures
            final(self).facts() == join_models(old(self).facts(), extends_facts(tree.spec_source(), tree.spec_nodes(), n as int)),
    {
        let ghost before = self.facts();
        let path = match first_string_child(tree, n) {
            Some(path) => path,
            None => {
                assert(before =~= join_models(before, empty_model()));
                return;
            },
        };
        let item = Spanned {
            value: TemplateDependency { kind: TemplateDependencyKind::Extends, path: TemplatePath::Single(path) },
            range: tree.range_for(n),
        };
        let ghost old_deps = self.dependencies@;
        self.dependencies.push(item);
        assert(dependencies_view(self.dependencies@) =~= dependencies_view(old_deps).push(dependency_view(item)));
        assert(self.facts() =~= join_models(before, extends_facts(tree.spec_source(), tree.spec_nodes(), n as int)));
    }

    /// Records the dependency of include statement `n`.
    fn record_include(&mut self, tree: &SourceTree, n: usize)
        requires
            n < tree.spec_nodes().len(),
            tree.spec_nodes()[n as int].kind@ == "include_statement"@,
            strings_closed(tree.spec_source(), tree.spec_nodes()),
        ensures
            final(self).facts() == join_models(old(self).facts(), include_facts(tree.spec_source(), tree.spec_nodes(), n as int)),
    {
        let ghost before = self.facts();
        let path = match template_path_child(tree, n) {
            Some(path) => path,
            None => {
                assert(before =~= join_models(before, empty_model()));
                return;
            },
        };
        let ignore_missing = contains_str(&chars_of(tree.text_for(n)), "ignore missing");
        let item = Spanned {
            value: TemplateDependency { kind: TemplateDependencyKind::Include { ignore_missing }, path },
            range: tree.range_for(n),
        };
        let ghost old_deps = self.dependencies@;
        self.dependencies.push(item);
        assert(dependencies_view(self.dependencies@) =~= dependencies_view(old_deps).push(dependency_view(item)));
        assert(self.facts() =~= join_models(before, include_facts(tree.spec_source(), tree.spec_nodes(), n as int)));
    }

    /// Records the dependency and the namespace binding of import statement
    /// `n`.
    fn record_import(&mut self, tree: &SourceTree, n: usize)
        requires
            n < tree.spec_nodes().len(),
            tree.spec_nodes()[n as int].kind@ == "import_statement"@,
            strings_closed(tree.spec_source(), tree.spec_nodes()),
        ensures
            final(self).facts() == join_models(old(self).facts(), import_facts(tree.spec_source(), tree.spec_nodes(), n as int)),
    {
        let ghost before = self.facts();
        let path = match first_string_child(tree, n) {
            Some(path) => path,
            None => {
                assert(before =~= join_models(before, empty_model()));
                return;
            },
        };
        let scope = tree.tree().child_by_field_name(n, "scope");
        let ghost old_bindings = self.bindings@;
        let namespace = match scope {
            Some(s) => {
                let name = tree.text_for(s).to_owned();
                let binding = Spanned {
                    value: Binding { name: tree.text_for(s).to_owned(), kind: BindingKind::ImportNamespace },
                    range: tree.range_for(s),
                };
                self.bindings.push(binding);
                assert(bindings_view(self.bindings@) =~= bindings_view(old_bindings).push(binding_view(binding)));
                Some(name)
            },
            None => None,
        };
        let item = Spanned {
            value: TemplateDependency { kind: TemplateDependencyKind::Import { namespace }, path: TemplatePath::Single(path) },
            range: tree.range_for(n),
        };
        let ghost old_deps = self.dependencies@;
        self.dependencies.push(item);
        assert(dependencies_view(self.dependencies@) =~= dependencies_view(old_deps).push(dependency_view(item)));
        assert(self.facts() =~= join_models(before, import_facts(tree.spec_source(), tree.spec_nodes(), n as int)));
    }

    /// Records the definition and the parameter bindings of macro statement
    /// `n`.
    fn record_macro(&mut self, tree: &SourceTree, n: usize)
        requires
            n < tree.spec_nodes().len(),
            tree.spec_nodes()[n as int].kind@ == "macro_statement"@,
        ensures
            final(self).facts() == join_models(old(self).facts(), macro_facts(tree.spec_source(), tree.spec_nodes(), n as int)),
    {
        let ghost before = self.facts();
        let ghost nodes = tree.spec_nodes();
        let ghost source = tree.spec_source();
        let t = tree.tree();
        let name_node = match t.child_by_field_name(n, "name") {
            Some(m) => m,
            None => {
                assert(before =~= join_models(before, empty_model()));
                return;
            },
        };
        let parameters = match t.child_by_field_name(n, "parameters") {
            Some(p) => parse_macro_parameters(tree, p),
            None => {
                let v: Vec<Spanned<MacroParameter>> = Vec::new();
                assert(parameters_view(v@) =~= Seq::<ParameterView>::empty());
                v
            },
        };
        let ghost ps = parameters_view(parameters@);
        assert(ps == parameters_of(source, nodes, n as int));
        let ghost start = self.bindings@;
        let mut i: usize = 0;
        assert(parameter_bindings(ps.take(0)) =~= Seq::<BindingView>::empty());
        while i < parameters.len()
            invariant
                ps == parameters_view(parameters@),
                0 <= i <= parameters@.len(),
                bindings_view(self.bindings@) == bindings_view(start) + parameter_bindings(ps.take(i as int)),
                self.dependencies@ == old(self).dependencies@,
                self.macros@ == old(self).macros@,
                self.variable_references@ == old(self).variable_references@,
                self.filters@ == old(self).filters@,
                self.tests@ == old(self).tests@,
                self.functions@ == old(self).functions@,
                self.macro_calls@ == old(self).macro_calls@,
                start == old(self).bindings@,
            decreases parameters@.len() - i,
        {
            let ghost prev = self.bindings@;
            let parameter = &parameters[i];
            let item = Spanned {
                value: Binding { name: parameter.value.name.clone(), kind: BindingKind::MacroParameter },
                range: parameter.range,
            };
            self.bindings.push(item);
            proof {
                assert(ps[i as int] == parameter_view(parameters@[i as int]));
                assert(parameter_bindings(ps.take(i + 1)) =~= parameter_bindings(ps.take(i as int)).push(
                    binding_view(item),
                ));
                assert(bindings_view(self.bindings@) =~= bindings_view(prev).push(binding_view(item)));
            }
            i = i + 1;
        }
        assert(ps.take(i as int) =~= ps);
        let item = Spanned { value: Macro { name: tree.text_for(name_node).to_owned(), parameters }, range: tree.range_for(n) };
        let ghost old_macros = self.macros@;
        self.macros.push(item);
        assert(macros_view(self.macros@) =~= macros_view(old_macros).push(macro_view(item)));
        assert(self.facts() =~= join_models(before, macro_facts(source, nodes, n as int)));
    }

    /// Records the bindings of set statement `n`.
    fn record_set(&mut self, tree: &SourceTree, n: usize)
        requires
            n < tree.spec_nodes().len(),
            tree.spec_nodes()[n as int].kind@ == "set_statement"@,
        ensures
            final(self).facts() == join_models(old(self).facts(), set_facts(tree.spec_source(), tree.spec_nodes(), n as int)),
    {
        let ghost before = self.facts();
        let ghost nodes = tree.spec_nodes();
        let ghost source = tree.spec_source();
        let t = tree.tree();
        let text = chars_of(tree.text_for(n));
        let skip = leading_white_space(&text);
        let is_global = starts_with_at(&text, skip, "{% set_global");
        let kids = t.named_children(n);
        let ghost start = bindings_view(self.bindings@);
        let mut k: usize = 0;
        assert(kids@.take(0) =~= Seq::<usize>::empty());
        assert(start + Seq::<BindingView>::empty() =~= start);
        while k < kids.len()
            invariant
                nodes == tree.spec_nodes(),
                source == tree.spec_source(),
                t.spec_nodes() == nodes,
                forall|j: int| 0 <= j < kids@.len() ==> n < #[trigger] kids@[j] < nodes.len(),
                0 <= k <= kids@.len(),
                bindings_view(self.bindings@) == start + set_bindings(
                    source,
                    nodes,
                    kids@.take(k as int),
                    is_global,
                ),
                self.dependencies@ == old(self).dependencies@,
                self.macros@ == old(self).macros@,
                self.variable_references@ == old(self).variable_references@,
                self.filters@ == old(self).filters@,
                self.tests@ == old(self).tests@,
                self.functions@ == old(self).functions@,
                self.macro_calls@ == old(self).macro_calls@,
            decreases kids@.len() - k,
        {
            let c = kids[k];
            assert(kids@.take(k + 1).drop_last() =~= kids@.take(k as int));
            assert(kids@.take(k + 1).last() == c);
            let ghost prev = self.bindings@;
            if t.kind_is(c, "assignment_expression") {
                match t.child_by_field_name(c, "left") {
                    Some(l) => {
                        if t.kind_is(l, "identifier") {
                            let kind = if is_global {
                                BindingKind::SetGlobal
                            } else {
                                BindingKind::SetLocal
                            };
                            let item = Spanned {
                                value: Binding { name: tree.text_for(l).to_owned(), kind },
                                range: tree.range_for(l),
                            };
                            self.bindings.push(item);
                            assert(bindings_view(self.bindings@) =~= bindings_view(prev).push(binding_view(item)));
                        }
                    },
                    None => {},
                }
            }
            k = k + 1;
        }
        assert(kids@.take(k as int) =~= kids@);
        assert(self.facts() =~= join_models(before, set_facts(source, nodes, n as int)));
    }

    /// Records the loop-variable bindings of for statement `n`.
    fn record_for(&mut self, tree: &SourceTree, n: usize)
        requires
            n < tree.spec_nodes().len(),
            tree.spec_nodes()[n as int].kind@ == "for_statement"@,
        ensures
            final(self).facts() == join_models(old(self).facts(), for_facts(tree.spec_source(), tree.spec_nodes(), n as int)),
    {
        let ghost before = self.facts();
        let ghost nodes = tree.spec_nodes();
        let ghost source = tree.spec_source();
        let t = tree.tree();
        let lefts = children_with_field(tree, n, "left");
        let ghost start = bindings_view(self.bindings@);
        let mut k: usize = 0;
        assert(lefts@.take(0) =~= Seq::<usize>::empty());
        assert(start + Seq::<BindingView>::empty() =~= start);
        while k < lefts.len()
            invariant
                nodes == tree.spec_nodes(),
                source == tree.spec_source(),
                t.spec_nodes() == nodes,
                forall|j: int| 0 <= j < lefts@.len() ==> n < #[trigger] lefts@[j] < nodes.len(),
                0 <= k <= lefts@.len(),
                bindings_view(self.bindings@) == start + for_bindings(
                    source,
                    nodes,
                    lefts@.take(k as int),
                ),
                self.dependencies@ == old(self).dependencies@,
                self.macros@ == old(self).macros@,
                self.variable_references@ == old(self).variable_references@,
                self.filters@ == old(self).filters@,
                self.tests@ == old(self).tests@,
                self.functions@ == old(self).functions@,
                self.macro_calls@ == old(self).macro_calls@,
            decreases lefts@.len() - k,
        {
            let c = lefts[k];
            assert(lefts@.take(k + 1).drop_last() =~= lefts@.take(k as int));
            assert(lefts@.take(k + 1).last() == c);
            let ghost prev = self.bindings@;
            if t.kind_is(c, "identifier") {
                let item = Spanned {
                    value: Binding { name: tree.text_for(c).to_owned(), kind: BindingKind::ForVariable },
                    range: tree.range_for(c),
                };
                self.bindings.push(item);
                assert(bindings_view(self.bindings@) =~= bindings_view(prev).push(binding_view(item)));
            }
            k = k + 1;
        }
        assert(lefts@.take(k as int) =~= lefts@);
        let ghost prev = self.bindings@;
        let item = Spanned { value: Binding { name: "loop".to_owned(), kind: BindingKind::LoopVariable }, range: tree.range_for(n) };
        self.bindings.push(item);
        assert(bindings_view(self.bindings@) =~= bindings_view(prev).push(binding_view(item)));
        assert(self.facts() =~= join_models(before, for_facts(source, nodes, n as int)));
    }

    /// Records the filter named by filter statement `n`.
    fn record_filter_statement(&mut self, tree: &SourceTree, n: usize)
        requires
            n < tree.spec_nodes().len(),
            tree.spec_nodes()[n as int].kind@ == "filter_statement"@,
        ensures
            final(self).facts() == join_models(old(self).facts(), filter_statement_facts(tree.spec_source(), tree.spec_nodes(), n as int)),
    {
        let ghost before = self.facts();
        match first_named_child_of_kind(tree, n, "identifier") {
            Some(f) => {
                let item = named_reference(tree, f);
                let ghost old_filters = self.filters@;
                self.filters.push(item);
                assert(references_view(self.filters@) =~= references_view(old_filters).push(reference_view(item)));
            },
            None => {},
        }
        assert(self.facts() =~= join_models(before, filter_statement_facts(tree.spec_source(), tree.spec_nodes(), n as int)));
    }

    /// Records the filter applied by filter expression `n`.
    fn record_filter_expression(&mut self, tree: &SourceTree, n: usize)
        requires
            n < tree.spec_nodes().len(),
            tree.spec_nodes()[n as int].kind@ == "filter_expression"@,
        ensures
            final(self).facts() == join_models(old(self).facts(), filter_expression_facts(tree.spec_source(), tree.spec_nodes(), n as int)),
    {
        let ghost before = self.facts();
        match tree.tree().child_by_field_name(n, "filter") {
            Some(f) => {
                let item = named_reference(tree, f);
                let ghost old_filters = self.filters@;
                self.filters.push(item);
                assert(references_view(self.filters@) =~= references_view(old_filters).push(reference_view(item)));
            },
            None => {},
        }
        assert(self.facts() =~= join_models(before, filter_expression_facts(tree.spec_source(), tree.spec_nodes(), n as int)));
    }

    /// Records the test applied by test expression `n`.
    fn record_test_expression(&mut self, tree: &SourceTree, n: usize)
        requires
            n < tree.spec_nodes().len(),
            tree.spec_nodes()[n as int].kind@ == "test_expression"@,
        ensures
            final(self).facts() == join_models(old(self).facts(), test_expression_facts(tree.spec_source(), tree.spec_nodes(), n as int)),
    {
        let ghost before = self.facts();
        match tree.tree().child_by_field_name(n, "test") {
            Some(f) => {
                let item = named_reference(tree, f);
                let ghost old_tests = self.tests@;
                self.tests.push(item);
                assert(references_view(self.tests@) =~= references_view(old_tests).push(reference_view(item)));
            },
            None => {},
        }
        assert(self.facts() =~= join_models(before, test_expression_facts(tree.spec_source(), tree.spec_nodes(), n as int)));
    }

    /// Records call expression `n`: a macro call when it has a namespace, a
    /// function call otherwise.
    fn record_call_expression(&mut self, tree: &SourceTree, n: usize)
        requires
            n < tree.spec_nodes().len(),
            tree.spec_nodes()[n as int].kind@ == "call_expression"@,
        ensures
            final(self).facts() == join_models(old(self).facts(), call_facts(tree.spec_source(), tree.spec_nodes(), n as int)),
    {
        let ghost before = self.facts();
        let t = tree.tree();
        let name_node = match t.child_by_field_name(n, "name") {
            Some(m) => m,
            None => {
                assert(before =~= join_models(before, empty_model()));
                return;
            },
        };
        let arguments = match t.child_by_field_name(n, "arguments") {
            Some(a) => parse_keyword_arguments(tree, a),
            None => {
                let v: Vec<Spanned<NamedReference>> = Vec::new();
                assert(references_view(v@) =~= Seq::<ReferenceView>::empty());
                v
            },
        };
        match t.child_by_field_name(n, "scope") {
            Some(s) => {
                let item = Spanned {
                    value: MacroCall {
                        namespace: tree.text_for(s).to_owned(),
                        name: tree.text_for(name_node).to_owned(),
                        arguments,
                    },
                    range: tree.range_for(n),
                };
                let ghost old_calls = self.macro_calls@;
                self.macro_calls.push(item);
                assert(calls_view(self.macro_calls@) =~= calls_view(old_calls).push(call_view(item)));
            },
            None => {
                let item = named_reference(tree, name_node);
                let ghost old_functions = self.functions@;
                self.functions.push(item);
                assert(references_view(self.functions@) =~= references_view(old_functions).push(reference_view(item)));
            },
        }
        assert(self.facts() =~= join_models(before, call_facts(tree.spec_source(), tree.spec_nodes(), n as int)));
    }

    /// Records identifier `n` when it is a variable reference.
    fn record_identifier_reference(&mut self, tree: &SourceTree, n: usize)
        requires
            n < tree.spec_nodes().len(),
            tree.spec_nodes()[n as int].kind@ == "identifier"@,
        ensures
            final(self).facts() == join_models(old(self).facts(), identifier_facts(tree.spec_source(), tree.spec_nodes(), n as int)),
    {
        let ghost before = self.facts();
        if !is_variable_reference(tree, n) {
            assert(before =~= join_models(before, empty_model()));
            return;
        }
        let r = reference_node(tree, n);
        let item = Spanned {
            value: VariableReference { path: tree.text_for(r).to_owned(), root: tree.text_for(n).to_owned() },
            range: tree.range_for(r),
        };
        let ghost old_vars = self.variable_references@;
        self.variable_references.push(item);
        assert(variables_view(self.variable_references@) =~= variables_view(old_vars).push(variable_view(item)));
        assert(self.facts() =~= join_models(before, identifier_facts(tree.spec_source(), tree.spec_nodes(), n as int)));
    }

    /// Records the facts of node `n`, by its kind.
    fn record(&mut self, tree: &SourceTree, n: usize)
        requires
            n < tree.spec_nodes().len(),
            strings_closed(tree.spec_source(), tree.spec_nodes()),
        ensures
            final(self).facts() == join_models(old(self).facts(), node_facts(tree.spec_source(), tree.spec_nodes(), n as int)),
    {
        let t = tree.tree();
        if t.kind_is(n, "extends_statement") {
            self.record_extends(tree, n);
        } else if t.kind_is(n, "include_statement") {
            self.record_include(tree, n);
        } else if t.kind_is(n, "import_statement") {
            self.record_import(tree, n);
        } else if t.kind_is(n, "macro_statement") {
            self.record_macro(tree, n);
        } else if t.kind_is(n, "set_statement") {
            self.record_set(tree, n);
        } else if t.kind_is(n, "for_statement") {
            self.record_for(tree, n);
        } else if t.kind_is(n, "filter_statement") {
            self.record_filter_statement(tree, n);
        } else if t.kind_is(n, "filter_expression") {
            self.record_filter_expression(tree, n);
        } else if t.kind_is(n, "test_expression") {
            self.record_test_expression(tree, n);
        } else if t.kind_is(n, "call_expression") {
            self.record_call_expression(tree, n);
        } else if t.kind_is(n, "identifier") {
            self.record_identifier_reference(tree, n);
        } else {
            assert(self.facts() =~= join_models(self.facts(), empty_model()));
        }
    }

    /// Records the facts of the named nodes of the subtree at `n`, in
    /// pre-order.
    fn visit(&mut self, tree: &SourceTree, n: usize)
        requires
            n < tree.spec_nodes().len(),
            strings_closed(tree.spec_source(), tree.spec_nodes()),
        ensures
            final(self).facts() == join_models(
                old(self).facts(),
                facts_of(tree.spec_source(), tree.spec_nodes(), subtree(tree.spec_nodes(), n as int, true)),
            ),
    {
        let ghost nodes = tree.spec_nodes();
        let ghost source = tree.spec_source();
        let ghost start = self.facts();
        let mut order: Vec<usize> = Vec::new();
        tree.tree().collect_subtree(n, true, &mut order);
        proof {
            assert(order@ =~= subtree(nodes, n as int, true));
            crate::syntax::lemma_subtree_in_bounds(nodes, n as int, true);
        }
        let mut i: usize = 0;
        assert(order@.take(0) =~= Seq::<usize>::empty());
        assert(start =~= join_models(start, empty_model()));
        while i < order.len()
            invariant
                nodes == tree.spec_nodes(),
                source == tree.spec_source(),
                strings_closed(source, nodes),
                order@ == subtree(nodes, n as int, true),
                forall|j: int| 0 <= j < order@.len() ==> #[trigger] order@[j] < nodes.len(),
                0 <= i <= order@.len(),
                self.facts() == join_models(start, facts_of(source, nodes, order@.take(i as int))),
            decreases order@.len() - i,
        {
            let d = order[i];
            assert(order@.take(i + 1).drop_last() =~= order@.take(i as int));
            assert(order@.take(i + 1).last() == d);
            let ghost prev = self.facts();
            self.record(tree, d);
            assert(join_models(prev, node_facts(source, nodes, d as int)) =~= join_models(
                start,
                facts_of(source, nodes, order@.take(i + 1)),
            ));
            i = i + 1;
        }
        assert(order@.take(i as int) =~= order@);
    }
}

/// Whether no string node of the tree is a lone quote character, which
/// [`TeraFile::from_tree`] requires.
pub fn strings_are_closed(tree: &SourceTree) -> (res: bool)
    ensures
        res == strings_closed(tree.spec_source(), tree.spec_nodes()),
{
    let t = tree.tree();
    let ghost nodes = tree.spec_nodes();
    let ghost source = tree.spec_source();
    let n = t.len();
    let mut d: usize = 0;
    while d < n
        invariant
            nodes == tree.spec_nodes(),
            source == tree.spec_source(),
            t.spec_nodes() == nodes,
            n == nodes.len(),
            0 <= d <= n,
            forall|e: int| 0 <= e < d && #[trigger] nodes[e].kind@ == "string"@ ==> !lone_quote(text_at(source, nodes, e)),
        decreases n - d,
    {
        if t.kind_is(d, "string") {
            let text = chars_of(tree.text_for(d));
            if text.len() == 1 && (text[0] == '"' || text[0] == '\'' || text[0] == '`') {
                return false;
            }
        }
        d = d + 1;
    }
    true
}

impl TeraFile {
    /// Creates the recovering Tera model of a parsed template: the facts of
    /// its named nodes in pre-order.
    pub fn from_tree(tree: &SourceTree) -> (res: TeraFile)
        requires
            strings_closed(tree.spec_source(), tree.spec_nodes()),
        ensures
            model_view(res) == lowered(tree.spec_source(), tree.spec_nodes()),
    {
        tree.tree().reveal_wf();
        let mut builder = TeraFileBuilder::new();
        builder.visit(tree, 0);
        assert(join_models(empty_model(), lowered(tree.spec_source(), tree.spec_nodes())) =~= lowered(
            tree.spec_source(),
            tree.spec_nodes(),
        ));
        builder.finish()
    }
}

} // verus!
