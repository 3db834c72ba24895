use achitek_ls::handlers::{unknown_prompt_diagnostics, unused_prompt_diagnostics};
use achitek_ls::terafile::diagnostics::Severity;
use achitek_ls::{TextPosition, TextRange};

fn span(line: usize, start: usize, end: usize) -> TextRange {
    TextRange { start: TextPosition { line, byte: start }, end: TextPosition { line, byte: end } }
}

#[test]
fn unused_prompts_are_warned_about() {
    let prompts = vec![
        ("project_name".to_owned(), span(5, 0, 10)),
        ("repository_name".to_owned(), span(9, 0, 10)),
    ];
    let used = vec!["project_name".to_owned()];
    let diagnostics = unused_prompt_diagnostics(&prompts, &used);
    assert_eq!(diagnostics.len(), 1);
    assert_eq!(diagnostics[0].code, "ACHLS0002");
    assert_eq!(diagnostics[0].message, "prompt `repository_name` is not used by any template");
    assert_eq!(diagnostics[0].severity, Severity::Warning);
    assert_eq!(diagnostics[0].range, span(9, 0, 10));
}

#[test]
fn unknown_prompt_references_are_errors() {
    let references = vec![
        ("missing_prompt".to_owned(), span(0, 10, 24)),
        ("project_name".to_owned(), span(1, 3, 15)),
    ];
    let names = vec!["project_name".to_owned()];
    let diagnostics = unknown_prompt_diagnostics(&references, &names);
    assert_eq!(diagnostics.len(), 1);
    assert_eq!(diagnostics[0].code, "ACHLS0001");
    assert_eq!(diagnostics[0].message, "unknown prompt reference `missing_prompt`");
    assert_eq!(diagnostics[0].severity, Severity::Error);
}
