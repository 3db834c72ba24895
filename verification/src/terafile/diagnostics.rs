//! Structured diagnostics for Tera template source.
//!
//! Diagnostic codes are stable identifiers for classes of violations, grouped
//! by range: `TERA0000`-`TERA0999` for syntax, `TERA1000`-`TERA1999` for
//! single-template semantics, `TERA2000`-`TERA2999` for template
//! dependencies and `TERA3000`-`TERA3999` for expressions. Message and help
//! text may improve over time; a released code keeps its meaning.

use vstd::prelude::*;

use crate::text::TextRange;

verus! {

/// Severity level for a source diagnostic.
#[derive(Debug, Clone, Copy, PartialEq, Eq, Structural, Hash)]
pub enum Severity {
    /// Invalid source that should prevent normal execution.
    Error,
    /// Suspicious source that can still be analyzed.
    Warning,
    /// Low-priority guidance.
    Hint,
}

/// Broad category for a Tera diagnostic: the analysis layer that produced it.
#[derive(Debug, Clone, Copy, PartialEq, Eq, Structural, Hash)]
pub enum DiagnosticKind {
    /// A syntax or parse violation in the source text.
    Syntax,
    /// A semantic violation in syntactically valid Tera source.
    Semantic,
    /// A violation involving template references such as includes or extends.
    Dependency,
    /// A violation inside a Tera expression.
    Expression,
}

/// Stable identifiers for Tera diagnostics.
#[derive(Debug, Clone, Copy, PartialEq, Eq, Structural, Hash)]
pub enum DiagnosticCode {
    /// `TERA0000`: the template contains syntax that the parser could not parse.
    SyntaxError,
    /// `TERA0001`: a Tera variable, statement, or comment tag is not closed.
    UnterminatedTag,
    /// `TERA0002`: an end tag appears without a matching opening tag.
    UnexpectedEndTag,
    /// `TERA0003`: an end tag closes a different construct than the open tag.
    MismatchedEndTag,
    /// `TERA1000`: an `extends` statement is not the first statement.
    ExtendsNotFirst,
    /// `TERA1001`: a child template has renderable content outside a block.
    ContentOutsideBlockInChildTemplate,
    /// `TERA1002`: a macro definition appears outside the template top level.
    MacroNotTopLevel,
    /// `TERA1003`: a block definition appears inside a macro.
    BlockNotAllowedInMacro,
    /// `TERA1004`: an `extends` statement appears inside a macro.
    ExtendsNotAllowedInMacro,
    /// `TERA2000`: a template path in an include, extends, or import is invalid.
    InvalidTemplatePath,
    /// `TERA2001`: an include path is built dynamically.
    DynamicIncludePath,
    /// `TERA3000`: an expression uses a filter that is not known.
    UnknownFilter,
    /// `TERA3001`: an expression uses a test that is not known.
    UnknownTest,
    /// `TERA3002`: an expression calls a function that is not known.
    UnknownFunction,
    /// `TERA3003`: an expression references a variable that is not in scope.
    UndefinedVariable,
    /// `TERA3004`: a macro call uses a positional argument.
    PositionalMacroArgument,
    /// `TERA3005`: a macro call uses a namespace that is not in scope.
    UnknownMacroNamespace,
}

impl DiagnosticCode {
    /// The category of the code.
    pub open spec fn spec_kind(self) -> DiagnosticKind {
        match self {
            DiagnosticCode::SyntaxError | DiagnosticCode::UnterminatedTag
            | DiagnosticCode::UnexpectedEndTag | DiagnosticCode::MismatchedEndTag => DiagnosticKind::Syntax,
            DiagnosticCode::ExtendsNotFirst | DiagnosticCode::ContentOutsideBlockInChildTemplate
            | DiagnosticCode::MacroNotTopLevel | DiagnosticCode::BlockNotAllowedInMacro
            | DiagnosticCode::ExtendsNotAllowedInMacro => DiagnosticKind::Semantic,
            DiagnosticCode::InvalidTemplatePath | DiagnosticCode::DynamicIncludePath => DiagnosticKind::Dependency,
            DiagnosticCode::UnknownFilter | DiagnosticCode::UnknownTest | DiagnosticCode::UnknownFunction
            | DiagnosticCode::UndefinedVariable | DiagnosticCode::PositionalMacroArgument
            | DiagnosticCode::UnknownMacroNamespace => DiagnosticKind::Expression,
        }
    }

    /// The severity of the code: a hint for content outside a block in a
    /// child template, an error for everything else.
    pub open spec fn spec_severity(self) -> Severity {
        match self {
            DiagnosticCode::ContentOutsideBlockInChildTemplate => Severity::Hint,
            _ => Severity::Error,
        }
    }

    /// The stable machine-readable code.
    pub open spec fn spec_as_str(self) -> Seq<char> {
        match self {
            DiagnosticCode::SyntaxError => "TERA0000"@,
            DiagnosticCode::UnterminatedTag => "TERA0001"@,
            DiagnosticCode::UnexpectedEndTag => "TERA0002"@,
            DiagnosticCode::MismatchedEndTag => "TERA0003"@,
            DiagnosticCode::ExtendsNotFirst => "TERA1000"@,
            DiagnosticCode::ContentOutsideBlockInChildTemplate => "TERA1001"@,
            DiagnosticCode::MacroNotTopLevel => "TERA1002"@,
            DiagnosticCode::BlockNotAllowedInMacro => "TERA1003"@,
            DiagnosticCode::ExtendsNotAllowedInMacro => "TERA1004"@,
            DiagnosticCode::InvalidTemplatePath => "TERA2000"@,
            DiagnosticCode::DynamicIncludePath => "TERA2001"@,
            DiagnosticCode::UnknownFilter => "TERA3000"@,
            DiagnosticCode::UnknownTest => "TERA3001"@,
            DiagnosticCode::UnknownFunction => "TERA3002"@,
            DiagnosticCode::UndefinedVariable => "TERA3003"@,
            DiagnosticCode::PositionalMacroArgument => "TERA3004"@,
            DiagnosticCode::UnknownMacroNamespace => "TERA3005"@,
        }
    }

    /// The default message of the code.
    pub open spec fn spec_message(self) -> Seq<char> {
        match self {
            DiagnosticCode::SyntaxError => "syntax error"@,
            DiagnosticCode::UnterminatedTag => "unterminated tag"@,
            DiagnosticCode::UnexpectedEndTag => "unexpected end tag"@,
            DiagnosticCode::MismatchedEndTag => "mismatched end tag"@,
            DiagnosticCode::ExtendsNotFirst => "extends statement is not first"@,
            DiagnosticCode::ContentOutsideBlockInChildTemplate => "content outside block in child template"@,
            DiagnosticCode::MacroNotTopLevel => "macro is not defined at the top level"@,
            DiagnosticCode::BlockNotAllowedInMacro => "block is not allowed in macro"@,
            DiagnosticCode::ExtendsNotAllowedInMacro => "extends is not allowed in macro"@,
            DiagnosticCode::InvalidTemplatePath => "invalid template path"@,
            DiagnosticCode::DynamicIncludePath => "dynamic include path"@,
            DiagnosticCode::UnknownFilter => "unknown filter"@,
            DiagnosticCode::UnknownTest => "unknown test"@,
            DiagnosticCode::UnknownFunction => "unknown function"@,
            DiagnosticCode::UndefinedVariable => "undefined variable"@,
            DiagnosticCode::PositionalMacroArgument => "positional macro argument"@,
            DiagnosticCode::UnknownMacroNamespace => "unknown macro namespace"@,
        }
    }

    /// The default help text of the code.
    pub open spec fn spec_help(self) -> Seq<char> {
        match self {
            DiagnosticCode::SyntaxError => "Check the surrounding Tera tag or expression."@,
            DiagnosticCode::UnterminatedTag => "Close the tag with `}}`, `%}`, or `#}` as appropriate."@,
            DiagnosticCode::UnexpectedEndTag => "Remove the end tag or add the matching opening block before it."@,
            DiagnosticCode::MismatchedEndTag => "Use the end tag that matches the open Tera block."@,
            DiagnosticCode::ExtendsNotFirst => "Move the `extends` statement to the start of the child template."@,
            DiagnosticCode::ContentOutsideBlockInChildTemplate => "Move the content into a named block; non-block content in child templates is ignored."@,
            DiagnosticCode::MacroNotTopLevel => "Define macros at the top level of the template."@,
            DiagnosticCode::BlockNotAllowedInMacro => "Move the block outside of the macro definition."@,
            DiagnosticCode::ExtendsNotAllowedInMacro => "Move `extends` to the template top level before other statements."@,
            DiagnosticCode::InvalidTemplatePath => "Use a non-empty string literal path in `include`, `extends`, or `import`."@,
            DiagnosticCode::DynamicIncludePath => "Use a static string path or static list of string paths in `include`."@,
            DiagnosticCode::UnknownFilter => "Use a registered Tera filter name."@,
            DiagnosticCode::UnknownTest => "Use a registered Tera test name."@,
            DiagnosticCode::UnknownFunction => "Use a registered Tera function name."@,
            DiagnosticCode::UndefinedVariable => "Use a variable provided by the template context or bound in this template."@,
            DiagnosticCode::PositionalMacroArgument => "Call macros with keyword arguments such as `name=value`."@,
            DiagnosticCode::UnknownMacroNamespace => "Use `self` or a namespace imported with an `import` statement."@,
        }
    }

    /// Returns the broad diagnostic category for this code.
    pub fn kind(&self) -> (res: DiagnosticKind)
        ensures
            res == self.spec_kind(),
    {
        match self {
            DiagnosticCode::SyntaxError | DiagnosticCode::UnterminatedTag
            | DiagnosticCode::UnexpectedEndTag | DiagnosticCode::MismatchedEndTag => DiagnosticKind::Syntax,
            DiagnosticCode::ExtendsNotFirst | DiagnosticCode::ContentOutsideBlockInChildTemplate
            | DiagnosticCode::MacroNotTopLevel | DiagnosticCode::BlockNotAllowedInMacro
            | DiagnosticCode::ExtendsNotAllowedInMacro => DiagnosticKind::Semantic,
            DiagnosticCode::InvalidTemplatePath | DiagnosticCode::DynamicIncludePath => DiagnosticKind::Dependency,
            DiagnosticCode::UnknownFilter | DiagnosticCode::UnknownTest | DiagnosticCode::UnknownFunction
            | DiagnosticCode::UndefinedVariable | DiagnosticCode::PositionalMacroArgument
            | DiagnosticCode::UnknownMacroNamespace => DiagnosticKind::Expression,
        }
    }

    /// Returns the severity of the diagnostic code.
    pub fn severity(&self) -> (res: Severity)
        ensures
            res == self.spec_severity(),
    {
        match self {
            DiagnosticCode::ContentOutsideBlockInChildTemplate => Severity::Hint,
            _ => Severity::Error,
        }
    }

    /// Returns the stable machine-readable code.
    pub fn as_str(&self) -> (res: &'static str)
        ensures
            res@ == self.spec_as_str(),
    {
        match self {
            DiagnosticCode::SyntaxError => "TERA0000",
            DiagnosticCode::UnterminatedTag => "TERA0001",
            DiagnosticCode::UnexpectedEndTag => "TERA0002",
            DiagnosticCode::MismatchedEndTag => "TERA0003",
            DiagnosticCode::ExtendsNotFirst => "TERA1000",
            DiagnosticCode::ContentOutsideBlockInChildTemplate => "TERA1001",
            DiagnosticCode::MacroNotTopLevel => "TERA1002",
            DiagnosticCode::BlockNotAllowedInMacro => "TERA1003",
            DiagnosticCode::ExtendsNotAllowedInMacro => "TERA1004",
            DiagnosticCode::InvalidTemplatePath => "TERA2000",
            DiagnosticCode::DynamicIncludePath => "TERA2001",
            DiagnosticCode::UnknownFilter => "TERA3000",
            DiagnosticCode::UnknownTest => "TERA3001",
            DiagnosticCode::UnknownFunction => "TERA3002",
            DiagnosticCode::UndefinedVariable => "TERA3003",
            DiagnosticCode::PositionalMacroArgument => "TERA3004",
            DiagnosticCode::UnknownMacroNamespace => "TERA3005",
        }
    }

    /// Returns the default message for this diagnostic code.
    pub fn message(&self) -> (res: &'static str)
        ensures
            res@ == self.spec_message(),
    {
        match self {
            DiagnosticCode::SyntaxError => "syntax error",
            DiagnosticCode::UnterminatedTag => "unterminated tag",
            DiagnosticCode::UnexpectedEndTag => "unexpected end tag",
            DiagnosticCode::MismatchedEndTag => "mismatched end tag",
            DiagnosticCode::ExtendsNotFirst => "extends statement is not first",
            DiagnosticCode::ContentOutsideBlockInChildTemplate => "content outside block in child template",
            DiagnosticCode::MacroNotTopLevel => "macro is not defined at the top level",
            DiagnosticCode::BlockNotAllowedInMacro => "block is not allowed in macro",
            DiagnosticCode::ExtendsNotAllowedInMacro => "extends is not allowed in macro",
            DiagnosticCode::InvalidTemplatePath => "invalid template path",
            DiagnosticCode::DynamicIncludePath => "dynamic include path",
            DiagnosticCode::UnknownFilter => "unknown filter",
            DiagnosticCode::UnknownTest => "unknown test",
            DiagnosticCode::UnknownFunction => "unknown function",
            DiagnosticCode::UndefinedVariable => "undefined variable",
            DiagnosticCode::PositionalMacroArgument => "positional macro argument",
            DiagnosticCode::UnknownMacroNamespace => "unknown macro namespace",
        }
    }

    /// Returns default help text for this diagnostic code; every code has
    /// one.
    pub fn help(&self) -> (res: Option<&'static str>)
        ensures
            res matches Some(h) && h@ == self.spec_help(),
    {
        match self {
            DiagnosticCode::SyntaxError => Some("Check the surrounding Tera tag or expression."),
            DiagnosticCode::UnterminatedTag => Some("Close the tag with `}}`, `%}`, or `#}` as appropriate."),
            DiagnosticCode::UnexpectedEndTag => Some("Remove the end tag or add the matching opening block before it."),
            DiagnosticCode::MismatchedEndTag => Some("Use the end tag that matches the open Tera block."),
            DiagnosticCode::ExtendsNotFirst => Some("Move the `extends` statement to the start of the child template."),
            DiagnosticCode::ContentOutsideBlockInChildTemplate => Some("Move the content into a named block; non-block content in child templates is ignored."),
            DiagnosticCode::MacroNotTopLevel => Some("Define macros at the top level of the template."),
            DiagnosticCode::BlockNotAllowedInMacro => Some("Move the block outside of the macro definition."),
            DiagnosticCode::ExtendsNotAllowedInMacro => Some("Move `extends` to the template top level before other statements."),
            DiagnosticCode::InvalidTemplatePath => Some("Use a non-empty string literal path in `include`, `extends`, or `import`."),
            DiagnosticCode::DynamicIncludePath => Some("Use a static string path or static list of string paths in `include`."),
            DiagnosticCode::UnknownFilter => Some("Use a registered Tera filter name."),
            DiagnosticCode::UnknownTest => Some("Use a registered Tera test name."),
            DiagnosticCode::UnknownFunction => Some("Use a registered Tera function name."),
            DiagnosticCode::UndefinedVariable => Some("Use a variable provided by the template context or bound in this template."),
            DiagnosticCode::PositionalMacroArgument => Some("Call macros with keyword arguments such as `name=value`."),
            DiagnosticCode::UnknownMacroNamespace => Some("Use `self` or a namespace imported with an `import` statement."),
        }
    }
}

/// A user-facing issue found in Tera source.
#[derive(Debug)]
pub struct Diagnostic {
    code: DiagnosticCode,
    severity: Severity,
    message: String,
    help: Option<String>,
    range: TextRange,
}

impl Diagnostic {
    /// A diagnostic carries its code's severity and help text.
    #[verifier::type_invariant]
    spec fn carries_code_facts(self) -> bool {
        &&& self.severity == self.code.spec_severity()
        &&& self.help matches Some(h) && h@ == self.code.spec_help()
    }

    /// The diagnostic code.
    pub closed spec fn spec_code(&self) -> DiagnosticCode {
        self.code
    }

    /// The severity.
    pub closed spec fn spec_severity(&self) -> Severity {
        self.severity
    }

    /// The message text.
    pub closed spec fn spec_message(&self) -> Seq<char> {
        self.message@
    }

    /// The help text.
    pub closed spec fn spec_help(&self) -> Option<Seq<char>> {
        match self.help {
            Some(h) => Some(h@),
            None => None,
        }
    }

    /// The source range.
    pub closed spec fn spec_range(&self) -> TextRange {
        self.range
    }

    /// Creates a diagnostic from a code and source range, with the code's
    /// severity, message and help text.
    pub fn new(code: DiagnosticCode, range: TextRange) -> (res: Diagnostic)
        ensures
            res.spec_code() == code,
            res.spec_severity() == code.spec_severity(),
            res.spec_message() == code.spec_message(),
            res.spec_help() == Some(code.spec_help()),
            res.spec_range() == range,
    {
        let help = match code.help() {
            Some(h) => Some(h.to_owned()),
            None => None,
        };
        Diagnostic { code, severity: code.severity(), message: code.message().to_owned(), help, range }
    }

    /// Creates a diagnostic with custom message text from a code and source
    /// range.
    pub fn with_message(code: DiagnosticCode, range: TextRange, message: String) -> (res: Diagnostic)
        ensures
            res.spec_code() == code,
            res.spec_severity() == code.spec_severity(),
            res.spec_message() == message@,
            res.spec_help() == Some(code.spec_help()),
            res.spec_range() == range,
    {
        let help = match code.help() {
            Some(h) => Some(h.to_owned()),
            None => None,
        };
        Diagnostic { code, severity: code.severity(), message, help, range }
    }

    /// Returns the stable diagnostic code.
    pub fn code(&self) -> (res: DiagnosticCode)
        ensures
            res == self.spec_code(),
    {
        self.code
    }

    /// Returns how strongly tooling should surface this diagnostic.
    pub fn severity(&self) -> (res: Severity)
        ensures
            res == self.spec_severity(),
            res == self.spec_code().spec_severity(),
    {
        proof {
            use_type_invariant(self);
        }
        self.severity
    }

    /// Returns the user-facing diagnostic message.
    pub fn message(&self) -> (res: &str)
        ensures
            res@ == self.spec_message(),
    {
        self.message.as_str()
    }

    /// Returns optional remediation guidance for this diagnostic.
    pub fn help(&self) -> (res: Option<&str>)
        ensures
            res is Some <==> self.spec_help() is Some,
            res matches Some(h) ==> self.spec_help() == Some(h@),
            res matches Some(h) && h@ == self.spec_code().spec_help(),
    {
        proof {
            use_type_invariant(self);
        }
        match &self.help {
            Some(h) => Some(h.as_str()),
            None => None,
        }
    }

    /// Returns the source range associated with this diagnostic.
    pub fn range(&self) -> (res: TextRange)
        ensures
            res == self.spec_range(),
    {
        self.range
    }

    /// Returns the broad analysis layer that produced this diagnostic.
    pub fn kind(&self) -> (res: DiagnosticKind)
        ensures
            res == self.spec_code().spec_kind(),
    {
        self.code.kind()
    }
}

impl Clone for Diagnostic {
    fn clone(&self) -> (res: Diagnostic)
        ensures
            res.spec_code() == self.spec_code(),
            res.spec_severity() == self.spec_severity(),
            res.spec_message() == self.spec_message(),
            res.spec_help() == self.spec_help(),
            res.spec_range() == self.spec_range(),
    {
        proof {
            use_type_invariant(self);
        }
        let help = match &self.help {
            Some(h) => Some(h.clone()),
            None => None,
        };
        Diagnostic {
            code: self.code,
            severity: self.severity,
            message: self.message.clone(),
            help,
            range: self.range,
        }
    }
}

/// The digit that opens the code range of a diagnostic kind.
pub open spec fn range_digit(kind: DiagnosticKind) -> char {
    match kind {
        DiagnosticKind::Syntax => '0',
        DiagnosticKind::Semantic => '1',
        DiagnosticKind::Dependency => '2',
        DiagnosticKind::Expression => '3',
    }
}

/// Codes are distinguished by range: every code is `TERA` and four digits,
/// and its first digit is the range of its kind (0 syntax, 1 semantic,
/// 2 dependency, 3 expression).
pub proof fn lemma_code_ranges(code: DiagnosticCode)
    ensures
        code.spec_as_str().len() == 8,
        code.spec_as_str().subrange(0, 4) == "TERA"@,
        code.spec_as_str()[4] == range_digit(code.spec_kind()),
{
    reveal_strlit("TERA0000");
    reveal_strlit("TERA0001");
    reveal_strlit("TERA0002");
    reveal_strlit("TERA0003");
    reveal_strlit("TERA1000");
    reveal_strlit("TERA1001");
    reveal_strlit("TERA1002");
    reveal_strlit("TERA1003");
    reveal_strlit("TERA1004");
    reveal_strlit("TERA2000");
    reveal_strlit("TERA2001");
    reveal_strlit("TERA3000");
    reveal_strlit("TERA3001");
    reveal_strlit("TERA3002");
    reveal_strlit("TERA3003");
    reveal_strlit("TERA3004");
    reveal_strlit("TERA3005");
    reveal_strlit("TERA");
    assert(code.spec_as_str().subrange(0, 4) =~= "TERA"@);
}

/// No two codes share their machine-readable form.
pub proof fn lemma_codes_distinct(a: DiagnosticCode, b: DiagnosticCode)
    ensures
        a != b ==> a.spec_as_str() != b.spec_as_str(),
{
    reveal_strlit("TERA0000");
    reveal_strlit("TERA0001");
    reveal_strlit("TERA0002");
    reveal_strlit("TERA0003");
    reveal_strlit("TERA1000");
    reveal_strlit("TERA1001");
    reveal_strlit("TERA1002");
    reveal_strlit("TERA1003");
    reveal_strlit("TERA1004");
    reveal_strlit("TERA2000");
    reveal_strlit("TERA2001");
    reveal_strlit("TERA3000");
    reveal_strlit("TERA3001");
    reveal_strlit("TERA3002");
    reveal_strlit("TERA3003");
    reveal_strlit("TERA3004");
    reveal_strlit("TERA3005");
    if a != b {
        let (x, y) = (a.spec_as_str(), b.spec_as_str());
        assert(x[4] != y[4] || x[5] != y[5] || x[6] != y[6] || x[7] != y[7]);
    }
}

} // verus!
