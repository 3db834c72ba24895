use achitek_ls::terafile::analysis::{analyze, collect_diagnostics};
use achitek_ls::terafile::checks::{
    contains_mismatched_end_tag, has_unclosed_tag_start, starts_with_any_end_tag, starts_with_dynamic_include,
    tag_appears_inside_macro,
};
use achitek_ls::terafile::diagnostics::{Diagnostic, DiagnosticCode, DiagnosticKind, Severity};
use achitek_ls::terafile::lowering::strings_are_closed;
use achitek_ls::terafile::model::{
    BindingKind, TemplateDependencyKind, TemplatePath, TeraFile,
};
use achitek_ls::{SourceTree, SyntaxNode, SyntaxTree, TextPosition, TextRange};

fn span(start: usize, end: usize) -> TextRange {
    TextRange { start: TextPosition { line: 0, byte: start }, end: TextPosition { line: 0, byte: end } }
}

/// One node of a single-line template: kind, field, parent, children,
/// named, byte range.
fn node(
    kind: &str,
    field: Option<&str>,
    parent: Option<usize>,
    children: Vec<usize>,
    named: bool,
    start: usize,
    end: usize,
) -> SyntaxNode {
    SyntaxNode {
        kind: kind.to_owned(),
        field: field.map(str::to_owned),
        parent,
        children,
        named,
        missing: false,
        error: false,
        range: span(start, end),
        start_byte: start,
        end_byte: end,
    }
}

fn tree(source: &str, nodes: Vec<SyntaxNode>) -> SourceTree {
    let tree = SyntaxTree::new(nodes).expect("nodes should form a tree");
    SourceTree::new(source.to_owned(), tree).expect("nodes should fit the source")
}

#[test]
fn codes_follow_their_ranges() {
    assert_eq!(DiagnosticCode::SyntaxError.as_str(), "TERA0000");
    assert_eq!(DiagnosticCode::ExtendsNotFirst.as_str(), "TERA1000");
    assert_eq!(DiagnosticCode::DynamicIncludePath.as_str(), "TERA2001");
    assert_eq!(DiagnosticCode::UnknownMacroNamespace.as_str(), "TERA3005");
    assert_eq!(DiagnosticCode::MismatchedEndTag.kind(), DiagnosticKind::Syntax);
    assert_eq!(DiagnosticCode::MacroNotTopLevel.kind(), DiagnosticKind::Semantic);
    assert_eq!(DiagnosticCode::InvalidTemplatePath.kind(), DiagnosticKind::Dependency);
    assert_eq!(DiagnosticCode::UndefinedVariable.kind(), DiagnosticKind::Expression);
    assert_eq!(DiagnosticCode::ContentOutsideBlockInChildTemplate.severity(), Severity::Hint);
    assert_eq!(DiagnosticCode::UnknownFilter.severity(), Severity::Error);
    assert_eq!(DiagnosticCode::UnterminatedTag.message(), "unterminated tag");
    assert_eq!(
        DiagnosticCode::UnterminatedTag.help(),
        Some("Close the tag with `}}`, `%}`, or `#}` as appropriate.")
    );
}

#[test]
fn diagnostics_take_their_code_defaults() {
    let d = Diagnostic::new(DiagnosticCode::UnknownTest, span(1, 4));
    assert_eq!(d.code(), DiagnosticCode::UnknownTest);
    assert_eq!(d.severity(), Severity::Error);
    assert_eq!(d.message(), "unknown test");
    assert_eq!(d.help(), Some("Use a registered Tera test name."));
    assert_eq!(d.range(), span(1, 4));
    assert_eq!(d.kind(), DiagnosticKind::Expression);
    let custom = Diagnostic::with_message(DiagnosticCode::UnknownTest, span(1, 4), "no test `odd2`".to_owned());
    assert_eq!(custom.message(), "no test `odd2`");
    assert_eq!(custom.severity(), Severity::Error);
}

#[test]
fn text_checks_classify_unparsable_text() {
    assert!(has_unclosed_tag_start("{{ name"));
    assert!(!has_unclosed_tag_start("{{ name }}"));
    assert!(!has_unclosed_tag_start("{{{ x }}}"));
    assert!(starts_with_any_end_tag("  {% endfor %}"));
    assert!(!starts_with_any_end_tag("x {% endfor %}"));
    assert!(starts_with_dynamic_include("{% include name %}"));
    assert!(!starts_with_dynamic_include("{% include \"a.html\" %}"));
    assert!(!starts_with_dynamic_include("{% include 'a.html' %}"));
    assert!(contains_mismatched_end_tag("{% if x %}{% endfor %}"));
    assert!(!contains_mismatched_end_tag("{% if x %}"));
}

#[test]
fn tags_inside_macros_are_found() {
    assert!(tag_appears_inside_macro("{% macro m() %}{% block b %}{% endmacro %}", "{% block"));
    assert!(!tag_appears_inside_macro("{% macro m() %}{% endmacro %}{% block b %}", "{% block"));
    assert!(tag_appears_inside_macro("x{% macro m() %} {% extends \"a\" %}", "{% extends"));
    assert!(!tag_appears_inside_macro("{% block b %}", "{% block"));
}

#[test]
fn extends_dependency_is_recorded() {
    let source = "{% extends \"base.html\" %}";
    let nodes = vec![
        node("source_file", None, None, vec![1], true, 0, 25),
        node("extends_statement", None, Some(0), vec![2], true, 0, 25),
        node("string", None, Some(1), vec![], true, 11, 22),
    ];
    let t = tree(source, nodes);
    assert!(strings_are_closed(&t));
    let file = TeraFile::from_tree(&t);
    assert_eq!(file.dependencies().len(), 1);
    assert_eq!(file.dependencies()[0].value.kind, TemplateDependencyKind::Extends);
    assert_eq!(file.dependencies()[0].value.path, TemplatePath::Single("base.html".to_owned()));
    assert_eq!(file.dependencies()[0].range, span(0, 25));
    assert!(collect_diagnostics(&t).is_empty());
}

#[test]
fn extends_after_content_is_reported() {
    let source = "a{% extends \"b\" %}";
    let nodes = vec![
        node("source_file", None, None, vec![1, 2], true, 0, 18),
        node("content", None, Some(0), vec![], true, 0, 1),
        node("extends_statement", None, Some(0), vec![3], true, 1, 18),
        node("string", None, Some(2), vec![], true, 12, 15),
    ];
    let t = tree(source, nodes);
    let diagnostics = collect_diagnostics(&t);
    assert_eq!(diagnostics.len(), 1);
    assert_eq!(diagnostics[0].code(), DiagnosticCode::ExtendsNotFirst);
    assert_eq!(diagnostics[0].range(), span(1, 18));
}

#[test]
fn missing_and_error_nodes_are_syntax_diagnostics() {
    let source = "{{ x {% endif %}";
    let mut missing = node("}}", None, Some(1), vec![], false, 5, 5);
    missing.missing = true;
    let mut error = node("ERROR", None, Some(0), vec![], true, 5, 16);
    error.error = true;
    let nodes = vec![
        node("source_file", None, None, vec![1, 3], true, 0, 16),
        node("variable_tag", None, Some(0), vec![2], true, 0, 5),
        missing,
        error,
    ];
    let t = tree(source, nodes);
    let analysis = analyze(t);
    let diagnostics = analysis.diagnostics();
    assert_eq!(diagnostics.len(), 2);
    assert_eq!(diagnostics[0].code(), DiagnosticCode::UnterminatedTag);
    assert_eq!(diagnostics[1].code(), DiagnosticCode::UnexpectedEndTag);
    assert_eq!(diagnostics[1].range(), span(5, 16));
    assert!(analysis.has_errors());
}

#[test]
fn macro_parameters_become_bindings() {
    // {% macro m(a, b=1) %}{% endmacro %}
    let source = "{% macro m(a, b=1) %}{% endmacro %}";
    let nodes = vec![
        node("source_file", None, None, vec![1], true, 0, 35),
        node("macro_statement", None, Some(0), vec![2, 3], true, 0, 35),
        node("identifier", Some("name"), Some(1), vec![], true, 9, 10),
        node("parameters", Some("parameters"), Some(1), vec![4, 5], true, 10, 18),
        node("identifier", Some("parameter"), Some(3), vec![], true, 11, 12),
        node("optional_parameter", None, Some(3), vec![6], true, 14, 17),
        node("identifier", Some("name"), Some(5), vec![], true, 14, 15),
    ];
    let t = tree(source, nodes);
    let file = TeraFile::from_tree(&t);
    assert_eq!(file.macros().len(), 1);
    assert_eq!(file.macros()[0].value.name, "m");
    let parameters = &file.macros()[0].value.parameters;
    assert_eq!(parameters.len(), 2);
    assert_eq!(parameters[0].value.name, "a");
    assert!(!parameters[0].value.has_default);
    assert_eq!(parameters[1].value.name, "b");
    assert!(parameters[1].value.has_default);
    let bindings = file.bindings();
    assert_eq!(bindings.len(), 2);
    assert_eq!(bindings[0].value.kind, BindingKind::MacroParameter);
    assert_eq!(bindings[1].range, span(14, 15));
    let references = file.variable_references();
    assert_eq!(references.len(), 1);
    assert_eq!(references[0].value.root, "a");
    assert!(collect_diagnostics(&t).is_empty());
}

#[test]
fn for_loops_bind_their_variable_and_loop() {
    // {% for x in xs %}{% endfor %}
    let source = "{% for x in xs %}{% endfor %}";
    let nodes = vec![
        node("source_file", None, None, vec![1], true, 0, 29),
        node("for_statement", None, Some(0), vec![2, 3], true, 0, 29),
        node("identifier", Some("left"), Some(1), vec![], true, 7, 8),
        node("identifier", Some("right"), Some(1), vec![], true, 12, 14),
    ];
    let t = tree(source, nodes);
    let file = TeraFile::from_tree(&t);
    let bindings = file.bindings();
    assert_eq!(bindings.len(), 2);
    assert_eq!(bindings[0].value.name, "x");
    assert_eq!(bindings[0].value.kind, BindingKind::ForVariable);
    assert_eq!(bindings[1].value.name, "loop");
    assert_eq!(bindings[1].value.kind, BindingKind::LoopVariable);
    assert_eq!(bindings[1].range, span(0, 29));
    let references = file.variable_references();
    assert_eq!(references.len(), 1);
    assert_eq!(references[0].value.root, "xs");
    assert_eq!(references[0].value.path, "xs");
}

#[test]
fn lone_quote_strings_are_detected() {
    let source = "{% extends \" %}";
    let nodes = vec![
        node("source_file", None, None, vec![1], true, 0, 15),
        node("extends_statement", None, Some(0), vec![2], true, 0, 15),
        node("string", None, Some(1), vec![], true, 11, 12),
    ];
    let t = tree(source, nodes);
    assert!(!strings_are_closed(&t));
}

#[test]
fn content_after_extends_is_only_a_hint() {
    let source = "{% extends \"b\" %}x";
    let nodes = vec![
        node("source_file", None, None, vec![1, 3], true, 0, 18),
        node("extends_statement", None, Some(0), vec![2], true, 0, 17),
        node("string", None, Some(1), vec![], true, 11, 14),
        node("content", None, Some(0), vec![], true, 17, 18),
    ];
    let analysis = analyze(tree(source, nodes));
    let diagnostics = analysis.diagnostics();
    assert_eq!(diagnostics.len(), 1);
    assert_eq!(diagnostics[0].code(), DiagnosticCode::ContentOutsideBlockInChildTemplate);
    assert_eq!(diagnostics[0].severity(), Severity::Hint);
    assert_eq!(diagnostics[0].range(), span(17, 18));
    assert!(!analysis.has_errors());
    assert_eq!(analysis.file().dependencies().len(), 1);
    assert_eq!(analysis.source(), source);
}

#[test]
fn nested_macros_and_their_blocks_are_reported() {
    let source = "{% block a %}{% macro m() %}{% block c %}{% endblock %}{% endmacro %}{% endblock %}";
    let outer = (0, source.len());
    let macro_start = source.find("{% macro").unwrap();
    let macro_end = source.find("{% endmacro %}").unwrap() + "{% endmacro %}".len();
    let inner_start = source.find("{% block c").unwrap();
    let inner_end = source.find("{% endblock %}").unwrap() + "{% endblock %}".len();
    let nodes = vec![
        node("source_file", None, None, vec![1], true, outer.0, outer.1),
        node("block_statement", None, Some(0), vec![2], true, outer.0, outer.1),
        node("macro_statement", None, Some(1), vec![3], true, macro_start, macro_end),
        node("block_statement", None, Some(2), vec![], true, inner_start, inner_end),
    ];
    let diagnostics = collect_diagnostics(&tree(source, nodes));
    let codes: Vec<DiagnosticCode> = diagnostics.iter().map(|d| d.code()).collect();
    assert_eq!(
        codes,
        vec![
            DiagnosticCode::BlockNotAllowedInMacro,
            DiagnosticCode::MacroNotTopLevel,
            DiagnosticCode::BlockNotAllowedInMacro,
        ]
    );
    assert_eq!(diagnostics[0].range(), span(outer.0, outer.1));
    assert_eq!(diagnostics[1].range(), span(macro_start, macro_end));
    assert_eq!(diagnostics[2].range(), span(inner_start, inner_end));
}

#[test]
fn includes_need_a_static_path() {
    let source = "{% include name %}{% include [\"a\", \"b\"] ignore missing %}";
    let first_end = source.find("%}").unwrap() + 2;
    let array_start = source.find('[').unwrap();
    let array_end = source.find(']').unwrap() + 1;
    let a = source.find("\"a\"").unwrap();
    let b = source.find("\"b\"").unwrap();
    let nodes = vec![
        node("source_file", None, None, vec![1, 3], true, 0, source.len()),
        node("include_statement", None, Some(0), vec![2], true, 0, first_end),
        node("identifier", None, Some(1), vec![], true, 11, 15),
        node("include_statement", None, Some(0), vec![4], true, first_end, source.len()),
        node("array", None, Some(3), vec![5, 6], true, array_start, array_end),
        node("string", None, Some(4), vec![], true, a, a + 3),
        node("string", None, Some(4), vec![], true, b, b + 3),
    ];
    let t = tree(source, nodes);
    let diagnostics = collect_diagnostics(&t);
    assert_eq!(diagnostics.len(), 1);
    assert_eq!(diagnostics[0].code(), DiagnosticCode::DynamicIncludePath);
    assert_eq!(diagnostics[0].range(), span(0, first_end));
    let file = TeraFile::from_tree(&t);
    assert_eq!(file.dependencies().len(), 1);
    assert_eq!(
        file.dependencies()[0].value.kind,
        TemplateDependencyKind::Include { ignore_missing: true }
    );
    assert_eq!(
        file.dependencies()[0].value.path,
        TemplatePath::Choice(vec!["a".to_owned(), "b".to_owned()])
    );
    assert_eq!(file.variable_references().len(), 1);
    assert_eq!(file.variable_references()[0].value.root, "name");
}

#[test]
fn every_code_has_its_own_string() {
    let codes = [
        DiagnosticCode::SyntaxError,
        DiagnosticCode::UnterminatedTag,
        DiagnosticCode::UnexpectedEndTag,
        DiagnosticCode::MismatchedEndTag,
        DiagnosticCode::ExtendsNotFirst,
        DiagnosticCode::ContentOutsideBlockInChildTemplate,
        DiagnosticCode::MacroNotTopLevel,
        DiagnosticCode::BlockNotAllowedInMacro,
        DiagnosticCode::ExtendsNotAllowedInMacro,
        DiagnosticCode::InvalidTemplatePath,
        DiagnosticCode::DynamicIncludePath,
        DiagnosticCode::UnknownFilter,
        DiagnosticCode::UnknownTest,
        DiagnosticCode::UnknownFunction,
        DiagnosticCode::UndefinedVariable,
        DiagnosticCode::PositionalMacroArgument,
        DiagnosticCode::UnknownMacroNamespace,
    ];
    for (i, a) in codes.iter().enumerate() {
        let digit = match a.kind() {
            DiagnosticKind::Syntax => '0',
            DiagnosticKind::Semantic => '1',
            DiagnosticKind::Dependency => '2',
            DiagnosticKind::Expression => '3',
        };
        assert!(a.as_str().starts_with("TERA"));
        assert_eq!(a.as_str().chars().nth(4), Some(digit));
        for b in &codes[i + 1..] {
            assert_ne!(a.as_str(), b.as_str());
        }
    }
}

#[test]
fn cloned_diagnostic_keeps_its_code_facts() {
    let range = TextRange {
        start: TextPosition { line: 1, byte: 2 },
        end: TextPosition { line: 1, byte: 7 },
    };
    let original = Diagnostic::with_message(
        DiagnosticCode::ContentOutsideBlockInChildTemplate,
        range,
        "custom".to_owned(),
    );
    let copy = original.clone();
    assert_eq!(copy.code(), DiagnosticCode::ContentOutsideBlockInChildTemplate);
    assert_eq!(copy.severity(), Severity::Hint);
    assert_eq!(copy.message(), "custom");
    assert_eq!(copy.help(), DiagnosticCode::ContentOutsideBlockInChildTemplate.help());
    assert_eq!(copy.range(), range);
}
