//! Domain model types for Tera template source.
//!
//! The model records which Tera constructs a template holds and where they
//! appear, in source order; diagnostics decide whether those constructs are
//! valid for a particular context.

use vstd::prelude::*;

use crate::text::TextRange;

verus! {

/// A value paired with the source range that produced it.
#[derive(Debug, Clone, PartialEq, Eq, Hash)]
pub struct Spanned<T> {
    /// Recovered model value.
    pub value: T,
    /// Source range that produced the value.
    pub range: TextRange,
}

impl<T> Spanned<T> {
    /// Creates a spanned value from a model value and source range.
    pub fn new(value: T, range: TextRange) -> (res: Spanned<T>)
        ensures
            res.value == value,
            res.range == range,
    {
        Spanned { value, range }
    }
}

/// A dependency on another Tera template.
#[derive(Debug, Clone, PartialEq, Eq, Hash)]
pub struct TemplateDependency {
    /// The construct that declared the dependency.
    pub kind: TemplateDependencyKind,
    /// The static path or fallback path list declared by the dependency.
    pub path: TemplatePath,
}

/// The construct that declared a template dependency.
#[derive(Debug, Clone, PartialEq, Eq, Hash)]
pub enum TemplateDependencyKind {
    /// `{% extends "base.html" %}`.
    Extends,
    /// `{% include "item.html" %}`.
    Include {
        /// Whether the include uses `ignore missing`.
        ignore_missing: bool,
    },
    /// `{% import "macros.html" as forms %}`.
    Import {
        /// Namespace used to access imported macros.
        namespace: Option<String>,
    },
}

/// Static template path information.
#[derive(Debug, Clone, PartialEq, Eq, Hash)]
pub enum TemplatePath {
    /// One static string path.
    Single(String),
    /// A static fallback list used by `include`.
    Choice(Vec<String>),
}

/// A Tera macro definition.
#[derive(Debug, Clone, PartialEq, Eq, Hash)]
pub struct Macro {
    /// Macro name.
    pub name: String,
    /// Macro parameters.
    pub parameters: Vec<Spanned<MacroParameter>>,
}

/// One macro parameter.
#[derive(Debug, Clone, PartialEq, Eq, Hash)]
pub struct MacroParameter {
    /// Parameter name.
    pub name: String,
    /// Whether the parameter declares a default value.
    pub has_default: bool,
}

/// A variable binding introduced by Tera source.
#[derive(Debug, Clone, PartialEq, Eq, Hash)]
pub struct Binding {
    /// Bound identifier.
    pub name: String,
    /// Construct that introduced the binding.
    pub kind: BindingKind,
}

/// The construct that introduced a binding.
#[derive(Debug, Clone, Copy, PartialEq, Eq, Structural, Hash)]
pub enum BindingKind {
    /// `{% set name = value %}`.
    SetLocal,
    /// `{% set_global name = value %}`.
    SetGlobal,
    /// A loop variable introduced by `{% for item in items %}`.
    ForVariable,
    /// The built-in `loop` variable available inside loops.
    LoopVariable,
    /// A macro parameter.
    MacroParameter,
    /// A namespace introduced by an `import` statement.
    ImportNamespace,
}

/// A variable reference recovered from an expression.
#[derive(Debug, Clone, PartialEq, Eq, Hash)]
pub struct VariableReference {
    /// Variable path text as written, such as `product.name`.
    pub path: String,
    /// Root identifier for the reference, such as `product`.
    pub root: String,
}

/// A named construct reference, such as a filter, test, or global function.
#[derive(Debug, Clone, PartialEq, Eq, Hash)]
pub struct NamedReference {
    /// Referenced name.
    pub name: String,
}

/// A namespaced macro call.
#[derive(Debug, Clone, PartialEq, Eq, Hash)]
pub struct MacroCall {
    /// Namespace used for the call, such as `self` or an imported namespace.
    pub namespace: String,
    /// Macro name.
    pub name: String,
    /// Keyword argument names passed to the macro.
    pub arguments: Vec<Spanned<NamedReference>>,
}

/// Recovering semantic representation of one Tera template.
#[derive(Debug, Clone, PartialEq, Eq, Hash, Default)]
pub struct TeraFile {
    dependencies: Vec<Spanned<TemplateDependency>>,
    macros: Vec<Spanned<Macro>>,
    bindings: Vec<Spanned<Binding>>,
    variable_references: Vec<Spanned<VariableReference>>,
    filters: Vec<Spanned<NamedReference>>,
    tests: Vec<Spanned<NamedReference>>,
    functions: Vec<Spanned<NamedReference>>,
    macro_calls: Vec<Spanned<MacroCall>>,
}

impl TeraFile {
    /// Template dependencies, in source order.
    pub closed spec fn spec_dependencies(&self) -> Seq<Spanned<TemplateDependency>> {
        self.dependencies@
    }

    /// Macro definitions, in source order.
    pub closed spec fn spec_macros(&self) -> Seq<Spanned<Macro>> {
        self.macros@
    }

    /// Local bindings, in source order.
    pub closed spec fn spec_bindings(&self) -> Seq<Spanned<Binding>> {
        self.bindings@
    }

    /// Variable references, in source order.
    pub closed spec fn spec_variable_references(&self) -> Seq<Spanned<VariableReference>> {
        self.variable_references@
    }

    /// Filter references, in source order.
    pub closed spec fn spec_filters(&self) -> Seq<Spanned<NamedReference>> {
        self.filters@
    }

    /// Test references, in source order.
    pub closed spec fn spec_tests(&self) -> Seq<Spanned<NamedReference>> {
        self.tests@
    }

    /// Global function calls, in source order.
    pub closed spec fn spec_functions(&self) -> Seq<Spanned<NamedReference>> {
        self.functions@
    }

    /// Namespaced macro calls, in source order.
    pub closed spec fn spec_macro_calls(&self) -> Seq<Spanned<MacroCall>> {
        self.macro_calls@
    }

    /// Creates a recovered Tera model from parsed semantic facts.
    pub fn new(
        dependencies: Vec<Spanned<TemplateDependency>>,
        macros: Vec<Spanned<Macro>>,
        bindings: Vec<Spanned<Binding>>,
        variable_references: Vec<Spanned<VariableReference>>,
        filters: Vec<Spanned<NamedReference>>,
        tests: Vec<Spanned<NamedReference>>,
        functions: Vec<Spanned<NamedReference>>,
        macro_calls: Vec<Spanned<MacroCall>>,
    ) -> (res: TeraFile)
        ensures
            res.spec_dependencies() == dependencies@,
            res.spec_macros() == macros@,
            res.spec_bindings() == bindings@,
            res.spec_variable_references() == variable_references@,
            res.spec_filters() == filters@,
            res.spec_tests() == tests@,
            res.spec_functions() == functions@,
            res.spec_macro_calls() == macro_calls@,
    {
        TeraFile { dependencies, macros, bindings, variable_references, filters, tests, functions, macro_calls }
    }

    /// Returns template dependencies declared by `extends`, `include`, or
    /// `import`.
    pub fn dependencies(&self) -> (res: &[Spanned<TemplateDependency>])
        ensures
            res@ == self.spec_dependencies(),
    {
        self.dependencies.as_slice()
    }

    /// Returns macro definitions in source order.
    pub fn macros(&self) -> (res: &[Spanned<Macro>])
        ensures
            res@ == self.spec_macros(),
    {
        self.macros.as_slice()
    }

    /// Returns local bindings recovered from assignments, loops, macros, and
    /// imports.
    pub fn bindings(&self) -> (res: &[Spanned<Binding>])
        ensures
            res@ == self.spec_bindings(),
    {
        self.bindings.as_slice()
    }

    /// Returns variable references recovered from expressions.
    pub fn variable_references(&self) -> (res: &[Spanned<VariableReference>])
        ensures
            res@ == self.spec_variable_references(),
    {
        self.variable_references.as_slice()
    }

    /// Returns filter names used by expressions or filter sections.
    pub fn filters(&self) -> (res: &[Spanned<NamedReference>])
        ensures
            res@ == self.spec_filters(),
    {
        self.filters.as_slice()
    }

    /// Returns test names used by `is` expressions.
    pub fn tests(&self) -> (res: &[Spanned<NamedReference>])
        ensures
            res@ == self.spec_tests(),
    {
        self.tests.as_slice()
    }

    /// Returns global function calls.
    pub fn functions(&self) -> (res: &[Spanned<NamedReference>])
        ensures
            res@ == self.spec_functions(),
    {
        self.functions.as_slice()
    }

    /// Returns namespaced macro calls such as `self::name()` or
    /// `forms::field()`.
    pub fn macro_calls(&self) -> (res: &[Spanned<MacroCall>])
        ensures
            res@ == self.spec_macro_calls(),
    {
        self.macro_calls.as_slice()
    }
}

} // verus!
