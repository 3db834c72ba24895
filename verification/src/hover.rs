//! Hover documentation for Achitekfile documents.
//!
//! The named node under the cursor decides what is shown: a prompt's name and
//! type, the meaning of a blueprint key or prompt type, or a fixed description
//! of the attribute or block. When the node itself has nothing to say and sits
//! directly in a prompt block, the prompt block's hover is shown.

use vstd::prelude::*;

use crate::completion::{prompt_type_for_block, text_view, type_in_block};
use crate::editor::{field_child, node_text, trim_matches_quotes, trim_quotes, DocumentModel, SourceTree};
use crate::syntax::{named_node_at, nodes_wf, SyntaxNode};
use crate::text::{str_eq, TextPosition, TextRange};

verus! {

/// Hover content derived from Achitek source.
#[derive(Debug)]
pub struct Hover {
    contents: String,
    range: TextRange,
}

impl Hover {
    /// The markdown text of the hover.
    pub closed spec fn spec_contents(&self) -> Seq<char> {
        self.contents@
    }

    /// The source range the hover describes.
    pub closed spec fn spec_range(&self) -> TextRange {
        self.range
    }

    /// Returns the markdown text of the hover.
    pub fn contents(&self) -> (res: &str)
        ensures
            res@ == self.spec_contents(),
    {
        self.contents.as_str()
    }

    /// Returns the source range the hover describes.
    pub fn range(&self) -> (res: TextRange)
        ensures
            res == self.spec_range(),
    {
        self.range
    }
}

/// A hover as its text and range.
pub open spec fn hover_view(h: Option<Hover>) -> Option<(Seq<char>, TextRange)> {
    match h {
        Some(h) => Some((h.spec_contents(), h.spec_range())),
        None => None,
    }
}

/// The fixed description shown for nodes of kind `kind`.
pub open spec fn fixed_hover_text(kind: Seq<char>) -> Option<Seq<char>> {
    if kind == "blueprint_block"@ {
        Some("## blueprint\n\nDeclares top-level blueprint metadata for the Achitekfile."@)
    } else if kind == "type_attribute"@ {
        Some("## `type`\n\nDeclares the prompt type. Valid values include `string`, `paragraph`, `bool`, `select`, and `multiselect`."@)
    } else if kind == "help_attribute"@ {
        Some("## `help`\n\nProvides the human-readable prompt text shown to the user."@)
    } else if kind == "choices_attribute"@ {
        Some("## `choices`\n\nLists selectable values for `select` and `multiselect` prompts."@)
    } else if kind == "default_attribute"@ {
        Some("## `default`\n\nProvides the default answer for the prompt. The value should match the prompt type."@)
    } else if kind == "required_attribute"@ {
        Some("## `required`\n\nControls whether the prompt must be answered. This is typically `true` unless optional input is allowed."@)
    } else if kind == "depends_on_attribute"@ {
        Some("## `depends_on`\n\nControls whether a prompt is shown based on previous answers. It can reference other prompts directly or use comparison and combinator expressions."@)
    } else if kind == "validate_block"@ {
        Some("## validate\n\nContains validation rules for the surrounding prompt, such as length limits or regex checks."@)
    } else if kind == "regex_attribute"@ {
        Some("## `regex`\n\nRequires the prompt value to match the given regular expression."@)
    } else if kind == "min_length_attribute"@ {
        Some("## `min_length`\n\nRequires at least this many characters for string-like prompts."@)
    } else if kind == "max_length_attribute"@ {
        Some("## `max_length`\n\nLimits string-like prompts to at most this many characters."@)
    } else if kind == "min_selections_attribute"@ {
        Some("## `min_selections`\n\nRequires at least this many selected values for a `multiselect` prompt."@)
    } else if kind == "max_selections_attribute"@ {
        Some("## `max_selections`\n\nLimits a `multiselect` prompt to at most this many selected values."@)
    } else if kind == "combinator_name"@ {
        Some("## dependency combinator\n\nCombines dependency conditions. `all(...)` requires every nested condition to match, while `any(...)` requires at least one."@)
    } else if kind == "method_name"@ {
        Some("## `contains`\n\nChecks whether a prompt value includes the given literal, commonly for `multiselect` prompts."@)
    } else {
        None
    }
}

/// What a blueprint attribute key means.
pub open spec fn blueprint_key_description(key: Seq<char>) -> Option<Seq<char>> {
    if key == "version"@ {
        Some("Declares the Achitekfile schema version."@)
    } else if key == "name"@ {
        Some("Provides the blueprint identifier."@)
    } else if key == "description"@ {
        Some("Provides a human-readable blueprint description."@)
    } else if key == "author"@ {
        Some("Records the blueprint author."@)
    } else if key == "min_achitek_version"@ {
        Some("Declares the minimum Achitek version required for this blueprint."@)
    } else {
        None
    }
}

/// What a prompt type means.
pub open spec fn prompt_type_description(ty: Seq<char>) -> Option<Seq<char>> {
    if ty == "string"@ {
        Some("A single-line text prompt."@)
    } else if ty == "paragraph"@ {
        Some("A multi-line text prompt."@)
    } else if ty == "bool"@ {
        Some("A boolean yes/no prompt."@)
    } else if ty == "select"@ {
        Some("A single-choice prompt from a list of options."@)
    } else if ty == "multiselect"@ {
        Some("A prompt that allows selecting multiple values."@)
    } else {
        None
    }
}

/// The hover for a word with a description: the word in backticks as a
/// heading, then the description.
pub open spec fn described_word(word: Seq<char>, description: Seq<char>) -> Seq<char> {
    "## `"@ + word + "`\n\n"@ + description
}

/// The hover of prompt block `b`: its name and type, over the range of its
/// name.
pub open spec fn prompt_block_hover(source: Seq<char>, nodes: Seq<SyntaxNode>, b: int) -> Option<
    (Seq<char>, TextRange),
> {
    match field_child(nodes, b, "name"@) {
        Some(c) => {
            let name = trim_quotes(node_text(source, nodes[c as int]));
            let ty = match type_in_block(source, nodes, nodes[b].children@) {
                Some(t) => t,
                None => "unknown"@,
            };
            Some(
                (
                    "## prompt `"@ + name + "`\n\nType: `"@ + ty
                        + "`\n\nDefines an interactive prompt in the Achitekfile."@,
                    nodes[c as int].range,
                ),
            )
        },
        None => None,
    }
}

/// The hover that node `n` itself gives.
pub open spec fn node_hover(source: Seq<char>, nodes: Seq<SyntaxNode>, n: int) -> Option<
    (Seq<char>, TextRange),
> {
    let kind = nodes[n].kind@;
    let text = node_text(source, nodes[n]);
    if kind == "prompt_block"@ {
        prompt_block_hover(source, nodes, n)
    } else if kind == "blueprint_attribute_key"@ {
        match blueprint_key_description(text) {
            Some(d) => Some((described_word(text, d), nodes[n].range)),
            None => None,
        }
    } else if kind == "question_type"@ {
        match prompt_type_description(text) {
            Some(d) => Some((described_word(text, d), nodes[n].range)),
            None => None,
        }
    } else {
        match fixed_hover_text(kind) {
            Some(t) => Some((t, nodes[n].range)),
            None => None,
        }
    }
}

/// The hover at `position`: that of the named node there, or else that of
/// its parent when the parent is a prompt block.
pub open spec fn hover_at(source: Seq<char>, nodes: Seq<SyntaxNode>, position: TextPosition) -> Option<
    (Seq<char>, TextRange),
> {
    let n = named_node_at(nodes, position);
    match node_hover(source, nodes, n) {
        Some(h) => Some(h),
        None => match nodes[n].parent {
            Some(p) => if nodes[p as int].kind@ == "prompt_block"@ {
                prompt_block_hover(source, nodes, p as int)
            } else {
                None
            },
            None => None,
        },
    }
}

/// A hover with the given range and text.
fn simple_hover(range: TextRange, contents: String) -> (res: Hover)
    ensures
        res.spec_contents() == contents@,
        res.spec_range() == range,
{
    Hover { contents, range }
}

/// The fixed description for nodes of kind `kind`.
fn fixed_hover_contents(kind: &str) -> (res: Option<&'static str>)
    ensures
        text_view(res) == fixed_hover_text(kind@),
{
    if str_eq(kind, "blueprint_block") {
        Some("## blueprint\n\nDeclares top-level blueprint metadata for the Achitekfile.")
    } else if str_eq(kind, "type_attribute") {
        Some("## `type`\n\nDeclares the prompt type. Valid values include `string`, `paragraph`, `bool`, `select`, and `multiselect`.")
    } else if str_eq(kind, "help_attribute") {
        Some("## `help`\n\nProvides the human-readable prompt text shown to the user.")
    } else if str_eq(kind, "choices_attribute") {
        Some("## `choices`\n\nLists selectable values for `select` and `multiselect` prompts.")
    } else if str_eq(kind, "default_attribute") {
        Some("## `default`\n\nProvides the default answer for the prompt. The value should match the prompt type.")
    } else if str_eq(kind, "required_attribute") {
        Some("## `required`\n\nControls whether the prompt must be answered. This is typically `true` unless optional input is allowed.")
    } else if str_eq(kind, "depends_on_attribute") {
        Some("## `depends_on`\n\nControls whether a prompt is shown based on previous answers. It can reference other prompts directly or use comparison and combinator expressions.")
    } else if str_eq(kind, "validate_block") {
        Some("## validate\n\nContains validation rules for the surrounding prompt, such as length limits or regex checks.")
    } else if str_eq(kind, "regex_attribute") {
        Some("## `regex`\n\nRequires the prompt value to match the given regular expression.")
    } else if str_eq(kind, "min_length_attribute") {
        Some("## `min_length`\n\nRequires at least this many characters for string-like prompts.")
    } else if str_eq(kind, "max_length_attribute") {
        Some("## `max_length`\n\nLimits string-like prompts to at most this many characters.")
    } else if str_eq(kind, "min_selections_attribute") {
        Some("## `min_selections`\n\nRequires at least this many selected values for a `multiselect` prompt.")
    } else if str_eq(kind, "max_selections_attribute") {
        Some("## `max_selections`\n\nLimits a `multiselect` prompt to at most this many selected values.")
    } else if str_eq(kind, "combinator_name") {
        Some("## dependency combinator\n\nCombines dependency conditions. `all(...)` requires every nested condition to match, while `any(...)` requires at least one.")
    } else if str_eq(kind, "method_name") {
        Some("## `contains`\n\nChecks whether a prompt value includes the given literal, commonly for `multiselect` prompts.")
    } else {
        None
    }
}

/// `## `word`` followed by `description`.
fn described(word: &str, description: &str) -> (res: String)
    ensures
        res@ == described_word(word@, description@),
{
    let mut s = "## `".to_owned();
    s.append(word);
    s.append("`\n\n");
    s.append(description);
    s
}

/// The hover of prompt block `node`.
fn hover_for_prompt_block(syntax: &SourceTree, node: usize) -> (res: Option<Hover>)
    requires
        node < syntax.spec_nodes().len(),
    ensures
        hover_view(res) == prompt_block_hover(syntax.spec_source(), syntax.spec_nodes(), node as int),
{
    let tree = syntax.tree();
    let name_node = match tree.child_by_field_name(node, "name") {
        Some(c) => c,
        None => {
            return None;
        },
    };
    let name = trim_matches_quotes(syntax.text_for(name_node));
    let prompt_type = match prompt_type_for_block(syntax, node) {
        Some(t) => t,
        None => "unknown",
    };
    let mut contents = "## prompt `".to_owned();
    contents.append(name);
    contents.append("`\n\nType: `");
    contents.append(prompt_type);
    contents.append("`\n\nDefines an interactive prompt in the Achitekfile.");
    Some(simple_hover(syntax.range_for(name_node), contents))
}

/// The hover of blueprint attribute key `node`.
fn hover_for_blueprint_attribute_key(syntax: &SourceTree, node: usize) -> (res: Option<Hover>)
    requires
        node < syntax.spec_nodes().len(),
    ensures
        hover_view(res) == (match blueprint_key_description(node_text(syntax.spec_source(), syntax.spec_nodes()[node as int])) {
            Some(d) => Some((described_word(node_text(syntax.spec_source(), syntax.spec_nodes()[node as int]), d), syntax.spec_nodes()[node as int].range)),
            None => None,
        }),
{
    let key = syntax.text_for(node);
    let description = if str_eq(key, "version") {
        "Declares the Achitekfile schema version."
    } else if str_eq(key, "name") {
        "Provides the blueprint identifier."
    } else if str_eq(key, "description") {
        "Provides a human-readable blueprint description."
    } else if str_eq(key, "author") {
        "Records the blueprint author."
    } else if str_eq(key, "min_achitek_version") {
        "Declares the minimum Achitek version required for this blueprint."
    } else {
        return None;
    };
    Some(simple_hover(syntax.range_for(node), described(key, description)))
}

/// The hover of prompt type `node`.
fn hover_for_prompt_type(syntax: &SourceTree, node: usize) -> (res: Option<Hover>)
    requires
        node < syntax.spec_nodes().len(),
    ensures
        hover_view(res) == (match prompt_type_description(node_text(syntax.spec_source(), syntax.spec_nodes()[node as int])) {
            Some(d) => Some((described_word(node_text(syntax.spec_source(), syntax.spec_nodes()[node as int]), d), syntax.spec_nodes()[node as int].range)),
            None => None,
        }),
{
    let prompt_type = syntax.text_for(node);
    let description = if str_eq(prompt_type, "string") {
        "A single-line text prompt."
    } else if str_eq(prompt_type, "paragraph") {
        "A multi-line text prompt."
    } else if str_eq(prompt_type, "bool") {
        "A boolean yes/no prompt."
    } else if str_eq(prompt_type, "select") {
        "A single-choice prompt from a list of options."
    } else if str_eq(prompt_type, "multiselect") {
        "A prompt that allows selecting multiple values."
    } else {
        return None;
    };
    Some(simple_hover(syntax.range_for(node), described(prompt_type, description)))
}

/// The hover at `position`.
fn hover_for_position(syntax: &SourceTree, position: TextPosition) -> (res: Option<Hover>)
    ensures
        hover_view(res) == hover_at(syntax.spec_source(), syntax.spec_nodes(), position),
{
    let tree = syntax.tree();
    tree.reveal_wf();
    let node = tree.named_node_at(position);
    let kind = tree.node(node).kind.as_str();
    let hover = if str_eq(kind, "prompt_block") {
        hover_for_prompt_block(syntax, node)
    } else if str_eq(kind, "blueprint_attribute_key") {
        hover_for_blueprint_attribute_key(syntax, node)
    } else if str_eq(kind, "question_type") {
        hover_for_prompt_type(syntax, node)
    } else {
        match fixed_hover_contents(kind) {
            Some(text) => Some(simple_hover(syntax.range_for(node), text.to_owned())),
            None => None,
        }
    };
    if hover.is_some() {
        return hover;
    }
    match tree.parent(node) {
        Some(parent) => {
            if tree.kind_is(parent, "prompt_block") {
                hover_for_prompt_block(syntax, parent)
            } else {
                None
            }
        },
        None => None,
    }
}

impl DocumentModel {
    /// Returns hover information for a position in the document.
    pub fn hover(&self, position: TextPosition) -> (res: Option<Hover>)
        ensures
            hover_view(res) == hover_at(self.spec_source(), self.spec_nodes(), position),
    {
        hover_for_position(self.syntax(), position)
    }
}

} // verus!
