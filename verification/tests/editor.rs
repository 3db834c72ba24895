use achitek_ls::achitek::{parse_syntax_tree, tree_from_records, Outline, RawNode};
use achitek_ls::{build, DocumentModel, SourceTree, SymbolKind, TextPosition, TextRange};

#[test]
fn filters_prompt_attribute_completions_by_type_and_existing_attributes() {
    let source = "blueprint {\n  version = \"1.0.0\"\n  name = \"minimal\"\n}\n\nprompt \"name\" {\n  type = string\n\n}\n";

    let analysis = build(source).expect("valid source should build");
    let completions = analysis.completions(TextPosition { line: 7, byte: 2 });

    assert!(!completions.iter().any(|item| item.label() == "type"));
    assert!(!completions.iter().any(|item| item.label() == "choices"));
    assert!(completions.iter().any(|item| item.label() == "default"));
}

#[test]
fn filters_validate_completions_by_prompt_type() {
    let source = "blueprint {\n  version = \"1.0.0\"\n  name = \"minimal\"\n}\n\nprompt \"kind\" {\n  type = multiselect\n  choices = [\"a\", \"b\"]\n\n  validate {\n\n  }\n}\n";

    let analysis = build(source).expect("valid source should build");
    let completions = analysis.completions(TextPosition { line: 10, byte: 4 });

    assert!(completions.iter().any(|item| item.label() == "min_selections"));
    assert!(!completions.iter().any(|item| item.label() == "min_length"));
}

#[test]
fn collects_document_symbols() {
    let source = "blueprint {\n  version = \"1.0.0\"\n  name = \"minimal\"\n}\n\nprompt \"project_name\" {\n  type = string\n  help = \"Project name\"\n\n  validate {\n    min_length = 2\n  }\n}\n";

    let analysis = build(source).expect("valid source should build");

    assert_eq!(analysis.symbols().len(), 2);
    assert_eq!(analysis.symbols()[0].name(), "blueprint");
    assert_eq!(analysis.symbols()[0].kind(), SymbolKind::Blueprint);
    assert_eq!(analysis.symbols()[1].name(), "project_name");
    assert_eq!(analysis.symbols()[1].kind(), SymbolKind::Prompt);
    assert_eq!(analysis.symbols()[1].children().len(), 1);
    assert_eq!(analysis.symbols()[1].children()[0].name(), "validate");
    assert_eq!(analysis.symbols()[1].children()[0].kind(), SymbolKind::Validate);
}

#[test]
fn returns_hover_for_prompt_type() {
    let source = "blueprint {\n  version = \"1.0.0\"\n  name = \"minimal\"\n}\n\nprompt \"project_name\" {\n  type = string\n  help = \"Project name\"\n}\n";

    let analysis = build(source).expect("valid source should build");
    let hover = analysis
        .hover(TextPosition { line: 6, byte: 9 })
        .expect("hover should exist for prompt type");

    assert!(hover.contents().contains("`string`"));
    assert!(hover.contents().contains("single-line text prompt"));
}

#[test]
fn returns_prompt_type_completions() {
    let source = "blueprint {\n  version = \"1.0.0\"\n  name = \"minimal\"\n}\n\nprompt \"project_name\" {\n  type = \n}\n";

    let analysis = build(source).expect("valid source should build");
    let completions = analysis.completions(TextPosition { line: 6, byte: 9 });

    assert!(completions.iter().any(|item| item.label() == "string"));
    assert!(completions.iter().any(|item| item.label() == "paragraph"));
}

#[test]
fn returns_depends_on_completions() {
    let source = "blueprint {\n  version = \"1.0.0\"\n  name = \"minimal\"\n}\n\nprompt \"project_name\" {\n  type = string\n  help = \"Project name\"\n}\n\nprompt \"kind\" {\n  type = string\n  help = \"Kind\"\n  depends_on = \n}\n";

    let analysis = build(source).expect("valid source should build");
    let completions = analysis.completions(TextPosition { line: 13, byte: 15 });

    assert!(completions.iter().any(|item| item.label() == "all"));
    assert!(completions.iter().any(|item| item.label() == "project_name"));
}

#[test]
fn resolves_definition_for_prompt_reference() {
    let source = "blueprint {\n  version = \"1.0.0\"\n  name = \"minimal\"\n}\n\nprompt \"project_name\" {\n  type = string\n  help = \"Project name\"\n}\n\nprompt \"kind\" {\n  type = string\n  help = \"Kind\"\n  depends_on = project_name\n}\n";

    let analysis = build(source).expect("valid source should build");
    let definition = analysis
        .definition(TextPosition { line: 13, byte: 16 })
        .expect("definition should exist for prompt reference");

    assert_eq!(definition.selection_range().start.line, 5);
    assert_eq!(definition.selection_range().start.byte, 7);
}

#[test]
fn finds_references_for_prompt_definition() {
    let source = "blueprint {\n  version = \"1.0.0\"\n  name = \"minimal\"\n}\n\nprompt \"project_name\" {\n  type = string\n  help = \"Project name\"\n}\n\nprompt \"kind\" {\n  type = string\n  help = \"Kind\"\n  depends_on = project_name\n}\n";

    let analysis = build(source).expect("valid source should build");
    let references = analysis.references(TextPosition { line: 5, byte: 9 }, true);

    assert_eq!(references.len(), 2);
    assert_eq!(references[0].range().start.line, 5);
    assert_eq!(references[1].range().start.line, 13);
}

#[test]
fn prepares_rename_for_prompt_definition() {
    let source = "blueprint {\n  version = \"1.0.0\"\n  name = \"minimal\"\n}\n\nprompt \"project_name\" {\n  type = string\n}\n";

    let analysis = build(source).expect("valid source should build");
    let target = analysis
        .prepare_rename(TextPosition { line: 5, byte: 10 })
        .expect("prepare rename should exist for prompt definition");

    assert_eq!(target.placeholder(), "project_name");
    assert_eq!(target.range().start.line, 5);
    assert_eq!(target.range().start.byte, 7);
}

#[test]
fn prepares_rename_for_prompt_reference() {
    let source = "blueprint {\n  version = \"1.0.0\"\n  name = \"minimal\"\n}\n\nprompt \"project_name\" {\n  type = string\n}\n\nprompt \"kind\" {\n  type = string\n  depends_on = project_name\n}\n";

    let analysis = build(source).expect("valid source should build");
    let target = analysis
        .prepare_rename(TextPosition { line: 11, byte: 16 })
        .expect("prepare rename should exist for prompt reference");

    assert_eq!(target.placeholder(), "project_name");
    assert_eq!(target.range().start.line, 11);
    assert_eq!(target.range().start.byte, 15);
}

use achitek_ls::completion::CompletionKind;
use achitek_ls::handlers::{achitekfile_edits, lowered_name_matches, selection_range_for_position};

fn pos(line: usize, byte: usize) -> TextPosition {
    TextPosition { line, byte }
}

fn range(sl: usize, sb: usize, el: usize, eb: usize) -> TextRange {
    TextRange { start: pos(sl, sb), end: pos(el, eb) }
}

const TWO_PROMPTS: &str = "blueprint {\n  version = \"1.0.0\"\n  name = \"minimal\"\n}\n\nprompt \"project_name\" {\n  type = string\n  help = \"Project name\"\n}\n\nprompt \"kind\" {\n  type = string\n  help = \"Kind\"\n  depends_on = project_name\n}\n";

#[test]
fn hover_on_prompt_name_shows_name_and_type() {
    let analysis = build(TWO_PROMPTS).expect("valid source should build");
    let hover = analysis.hover(pos(5, 10)).expect("hover should exist on a prompt name");
    assert_eq!(
        hover.contents(),
        "## prompt `project_name`\n\nType: `string`\n\nDefines an interactive prompt in the Achitekfile."
    );
    assert_eq!(hover.range(), range(5, 7, 5, 21));
}

#[test]
fn hover_on_blueprint_key_describes_it() {
    let analysis = build(TWO_PROMPTS).expect("valid source should build");
    let hover = analysis.hover(pos(1, 3)).expect("hover should exist on a blueprint key");
    assert_eq!(hover.contents(), "## `version`\n\nDeclares the Achitekfile schema version.");
    assert_eq!(hover.range(), range(1, 2, 1, 9));
}

#[test]
fn top_level_completions_are_block_keywords() {
    let source = "blueprint {\n  version = \"1.0.0\"\n}\n\n";
    let analysis = build(source).expect("valid source should build");
    let completions = analysis.completions(pos(3, 0));
    let labels: Vec<&str> = completions.iter().map(|c| c.label()).collect();
    assert_eq!(labels, vec!["blueprint", "prompt"]);
    assert_eq!(completions[0].detail(), Some("Declare blueprint metadata"));
    assert_eq!(completions[0].kind(), CompletionKind::Keyword);
}

#[test]
fn blueprint_completions_are_attribute_keys() {
    let source = "blueprint {\n  version = \"1.0.0\"\n\n}\n";
    let analysis = build(source).expect("valid source should build");
    let completions = analysis.completions(pos(2, 2));
    let labels: Vec<&str> = completions.iter().map(|c| c.label()).collect();
    assert_eq!(labels, vec!["version", "name", "description", "author", "min_achitek_version"]);
    assert!(completions.iter().all(|c| c.kind() == CompletionKind::Property));
}

#[test]
fn depends_on_completions_list_combinators_then_prompts() {
    let source = "blueprint {\n}\n\nprompt \"a\" {\n  type = string\n}\n\nprompt \"b\" {\n  depends_on = \n}\n";
    let analysis = build(source).expect("valid source should build");
    let completions = analysis.completions(pos(8, 15));
    let labels: Vec<&str> = completions.iter().map(|c| c.label()).collect();
    assert_eq!(labels, vec!["all", "any", "a", "b"]);
    assert_eq!(completions[2].kind(), CompletionKind::Reference);
    assert_eq!(completions[2].detail(), Some("Prompt reference"));
}

#[test]
fn definition_is_first_reference() {
    let analysis = build(TWO_PROMPTS).expect("valid source should build");
    let definition = analysis.definition(pos(13, 16)).expect("definition should exist");
    let references = analysis.references(pos(13, 16), true);
    assert_eq!(references[0].range(), definition.selection_range());
    let without = analysis.references(pos(13, 16), false);
    assert_eq!(without.len() + 1, references.len());
    assert_eq!(without[0].range(), references[1].range());
}

#[test]
fn rename_placeholder_is_prompt_name() {
    let analysis = build(TWO_PROMPTS).expect("valid source should build");
    let target = analysis.prepare_rename(pos(13, 16)).expect("rename target should exist");
    assert_eq!(Some(target.placeholder()), analysis.prompt_name(pos(13, 16)));
    assert_eq!(analysis.prompt_name(pos(7, 3)), None);
    assert!(analysis.prepare_rename(pos(7, 3)).is_none());
}

#[test]
fn rename_edits_quote_the_declaration_only() {
    let analysis = build(TWO_PROMPTS).expect("valid source should build");
    let edits = achitekfile_edits(&analysis, pos(5, 10), "repository");
    assert_eq!(edits.len(), 2);
    assert_eq!(edits[0].range, range(5, 7, 5, 21));
    assert_eq!(edits[0].new_text, "\"repository\"");
    assert_eq!(edits[1].range, range(13, 15, 13, 27));
    assert_eq!(edits[1].new_text, "repository");
}

#[test]
fn selection_ranges_widen_from_name_to_block() {
    let analysis = build(TWO_PROMPTS).expect("valid source should build");
    let ranges = selection_range_for_position(&analysis, pos(5, 10));
    assert_eq!(ranges, vec![range(5, 7, 5, 21), range(5, 0, 8, 1)]);
    assert!(selection_range_for_position(&analysis, pos(4, 0)).is_empty());
}

#[test]
fn workspace_symbols_match_case_insensitively() {
    let analysis = build(TWO_PROMPTS).expect("valid source should build");
    assert_eq!(analysis.workspace_symbols("PROJ"), vec![1]);
    assert_eq!(analysis.workspace_symbols(""), vec![1, 2]);
    assert!(analysis.workspace_symbols("zzz").is_empty());
}

#[test]
fn template_reference_finds_prompt_declaration() {
    let analysis = build(TWO_PROMPTS).expect("valid source should build");
    let symbol = analysis.prompt_declaration("project_name").expect("prompt should exist");
    assert_eq!(symbol.selection_range(), range(5, 7, 5, 21));
    assert!(analysis.prompt_declaration("blueprint").is_none());
    let references = analysis.prompt_references("project_name", true).expect("prompt should exist");
    assert_eq!(references.len(), 2);
    assert_eq!(references[1].range(), range(13, 15, 13, 27));
    assert!(analysis.prompt_references("missing", true).is_none());
}

#[test]
fn column_inside_a_character_is_not_a_boundary() {
    let source = "blueprint {\n}\n\nprompt \"é\" {\n}\n";
    let analysis = build(source).expect("valid source should build");
    assert!(analysis.column_is_on_boundary(pos(3, 8)));
    assert!(!analysis.column_is_on_boundary(pos(3, 9)));
    assert!(analysis.column_is_on_boundary(pos(3, 40)));
    assert!(analysis.column_is_on_boundary(pos(9, 3)));
}

#[test]
fn document_model_follows_the_outline() {
    let source = "prompt \"name\" {\n  type = string\n}\n";
    let tree = parse_syntax_tree(source).expect("source should parse");
    let syntax = SourceTree::new(source.to_owned(), tree).expect("tree should cover the source");
    let range = TextRange {
        start: TextPosition { line: 0, byte: 0 },
        end: TextPosition { line: 2, byte: 1 },
    };
    let elsewhere = TextRange {
        start: TextPosition { line: 9, byte: 0 },
        end: TextPosition { line: 9, byte: 4 },
    };
    let outline = Outline {
        blueprint: Some(elsewhere),
        prompts: vec![("name".to_owned(), range), ("other".to_owned(), elsewhere)],
    };
    let model = DocumentModel::from_outline(syntax, &outline);

    assert_eq!(model.syntax().source(), source);
    assert_eq!(model.symbols().len(), 3);
    assert_eq!(model.symbols()[0].name(), "blueprint");
    assert_eq!(model.symbols()[0].kind(), SymbolKind::Blueprint);
    assert_eq!(model.symbols()[0].range(), elsewhere);
    assert_eq!(model.symbols()[1].name(), "name");
    assert_eq!(model.symbols()[1].kind(), SymbolKind::Prompt);
    assert_eq!(model.symbols()[1].range(), range);
    assert_eq!(model.symbols()[2].name(), "other");
    assert_eq!(model.symbols()[2].range(), elsewhere);
    assert!(model.symbols()[2].children().is_empty());

    let bare = Outline { blueprint: None, prompts: Vec::new() };
    let tree = parse_syntax_tree(source).expect("source should parse");
    let syntax = SourceTree::new(source.to_owned(), tree).expect("tree should cover the source");
    assert!(DocumentModel::from_outline(syntax, &bare).symbols().is_empty());
}

#[test]
fn lowered_names_match_queries_they_contain() {
    assert!(lowered_name_matches("project_name", "ject"));
    assert!(lowered_name_matches("project_name", ""));
    assert!(lowered_name_matches("", ""));
    assert!(!lowered_name_matches("project_name", "PROJ"));
    assert!(!lowered_name_matches("name", "names"));
}

fn record(kind: &str, field: Option<&str>, depth: u32, start_byte: usize, end_byte: usize) -> RawNode {
    RawNode {
        kind: kind.to_owned(),
        field: field.map(str::to_owned),
        depth,
        named: true,
        missing: false,
        error: false,
        start_row: 0,
        start_column: start_byte,
        end_row: 0,
        end_column: end_byte,
        start_byte,
        end_byte,
    }
}

#[test]
fn records_become_a_linked_tree() {
    let records = vec![
        record("file", None, 0, 0, 9),
        record("prompt_block", None, 1, 0, 5),
        record("string", Some("name"), 2, 0, 3),
        record("identifier", None, 2, 3, 5),
        record("blueprint_block", None, 1, 5, 9),
    ];
    let tree = tree_from_records(&records).expect("depths describe one tree");

    assert_eq!(tree.len(), 5);
    assert_eq!(tree.node(0).parent, None);
    assert_eq!(tree.node(0).children, vec![1, 4]);
    assert_eq!(tree.node(1).parent, Some(0));
    assert_eq!(tree.node(1).children, vec![2, 3]);
    assert_eq!(tree.node(2).parent, Some(1));
    assert_eq!(tree.node(2).field.as_deref(), Some("name"));
    assert_eq!(tree.node(3).parent, Some(1));
    assert_eq!(tree.node(4).parent, Some(0));
    assert!(tree.node(4).children.is_empty());
    assert_eq!(tree.node(3).kind, "identifier");
    assert_eq!(tree.node(3).range.start, TextPosition { line: 0, byte: 3 });
    assert_eq!(tree.node(3).end_byte, 5);
}

#[test]
fn records_with_broken_depths_are_refused() {
    assert!(tree_from_records(&Vec::new()).is_none());
    assert!(tree_from_records(&vec![record("file", None, 1, 0, 1)]).is_none());
    assert!(tree_from_records(&vec![record("file", None, 0, 0, 1), record("a", None, 2, 0, 1)]).is_none());
    assert!(tree_from_records(&vec![record("file", None, 0, 0, 1), record("b", None, 0, 0, 1)]).is_none());
}

#[test]
fn parsed_tree_keeps_every_node() {
    let source = "blueprint {\n  version = \"1.0.0\"\n  name = \"minimal\"\n}\n\nprompt \"name\" {\n  type = string\n}\n";
    let tree = parse_syntax_tree(source).expect("source should parse");
    assert_eq!(tree.node(0).kind, "file");
    assert_eq!(tree.node(0).parent, None);
    assert!(tree.len() > 5);
    let model = build(source).expect("valid source should build");
    assert_eq!(model.syntax().tree().len(), tree.len());
}
