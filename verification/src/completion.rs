//! Context-aware completion for Achitekfile documents.
//!
//! What is offered depends on the text typed before the cursor on its line
//! and on the blocks around the cursor: prompt types after `type`, prompt
//! references after `depends_on`, the attributes a block still lacks inside
//! validate, prompt and blueprint blocks, and the block keywords elsewhere.

use vstd::prelude::*;
use vstd::string::StringSliceAdditionalSpecFns;
use vstd::utf8::*;

use crate::editor::{field_child, node_text, DocumentModel, SourceTree, Symbol, SymbolKind};
use crate::syntax::{ancestor_of_kind, is_descendant_or_self, named_node_at, nodes_wf, SyntaxNode};
use crate::text::{
    chars_of, leading_white_space, lemma_line_bounds, line_bounds, source_line, starts_with, starts_with_at, trim_start,
    TextPosition,
};

verus! {

/// Completion kinds understood by editor features.
#[derive(Debug, Clone, Copy, PartialEq, Eq, Structural)]
pub enum CompletionKind {
    /// A language keyword or DSL construct.
    Keyword,
    /// A property or attribute name.
    Property,
    /// A value domain such as a prompt type.
    Value,
    /// A reference to another prompt.
    Reference,
    /// A built-in function or combinator.
    Function,
}

/// Completion item derived from Achitek source and context.
#[derive(Debug)]
pub struct Completion {
    label: String,
    detail: Option<String>,
    kind: CompletionKind,
}

impl Completion {
    /// The label inserted into the document.
    pub closed spec fn spec_label(&self) -> Seq<char> {
        self.label@
    }

    /// The detail text.
    pub closed spec fn spec_detail(&self) -> Option<Seq<char>> {
        match self.detail {
            Some(d) => Some(d@),
            None => None,
        }
    }

    /// The completion kind.
    pub closed spec fn spec_kind(&self) -> CompletionKind {
        self.kind
    }

    /// Returns the completion label inserted into the document.
    pub fn label(&self) -> (res: &str)
        ensures
            res@ == self.spec_label(),
    {
        self.label.as_str()
    }

    /// Returns optional detail text for the completion item.
    pub fn detail(&self) -> (res: Option<&str>)
        ensures
            res is Some <==> self.spec_detail() is Some,
            res matches Some(d) ==> self.spec_detail() == Some(d@),
    {
        match &self.detail {
            Some(d) => Some(d.as_str()),
            None => None,
        }
    }

    /// Returns the completion kind.
    pub fn kind(&self) -> (res: CompletionKind)
        ensures
            res == self.spec_kind(),
    {
        self.kind
    }
}

/// A completion item as label, detail text and kind.
pub type Item = (Seq<char>, Seq<char>, CompletionKind);

/// Whether completion `c` is the item `it`.
pub open spec fn item_is(c: Completion, it: Item) -> bool {
    c.spec_label() == it.0 && c.spec_detail() == Some(it.1) && c.spec_kind() == it.2
}

/// Whether the completions `cs` are the items `its`, in order.
pub open spec fn items_are(cs: Seq<Completion>, its: Seq<Item>) -> bool {
    cs.len() == its.len() && forall|i: int| 0 <= i < cs.len() ==> item_is(#[trigger] cs[i], its[i])
}

/// The item `it` when `cond` holds, nothing otherwise.
pub open spec fn item_if(cond: bool, it: Item) -> Seq<Item> {
    if cond {
        seq![it]
    } else {
        Seq::empty()
    }
}

/// Top-level completions: the block keywords.
pub open spec fn top_level_items() -> Seq<Item> {
    seq![
        ("blueprint"@, "Declare blueprint metadata"@, CompletionKind::Keyword),
        ("prompt"@, "Declare an interactive prompt"@, CompletionKind::Keyword),
    ]
}

/// Completions inside a blueprint block: its attribute keys.
pub open spec fn blueprint_items() -> Seq<Item> {
    seq![
        ("version"@, "Achitekfile schema version"@, CompletionKind::Property),
        ("name"@, "Blueprint identifier"@, CompletionKind::Property),
        ("description"@, "Blueprint description"@, CompletionKind::Property),
        ("author"@, "Blueprint author"@, CompletionKind::Property),
        ("min_achitek_version"@, "Minimum required Achitek version"@, CompletionKind::Property),
    ]
}

/// Completions after `type`: the prompt types.
pub open spec fn prompt_type_items() -> Seq<Item> {
    seq![
        ("string"@, "Single-line text prompt"@, CompletionKind::Value),
        ("paragraph"@, "Multi-line text prompt"@, CompletionKind::Value),
        ("bool"@, "Boolean yes/no prompt"@, CompletionKind::Value),
        ("select"@, "Single-choice prompt"@, CompletionKind::Value),
        ("multiselect"@, "Multi-choice prompt"@, CompletionKind::Value),
    ]
}

/// One reference item per prompt symbol, in order.
pub open spec fn prompt_reference_items(symbols: Seq<Symbol>) -> Seq<Item>
    decreases symbols.len(),
{
    if symbols.len() == 0 {
        Seq::empty()
    } else {
        let prev = prompt_reference_items(symbols.drop_last());
        if symbols.last().spec_kind() == SymbolKind::Prompt {
            prev.push((symbols.last().spec_name(), "Prompt reference"@, CompletionKind::Reference))
        } else {
            prev
        }
    }
}

/// Completions after `depends_on`: the combinators, then every prompt.
pub open spec fn depends_on_items(symbols: Seq<Symbol>) -> Seq<Item> {
    seq![
        ("all"@, "Require all nested conditions"@, CompletionKind::Function),
        ("any"@, "Require any nested condition"@, CompletionKind::Function),
    ] + prompt_reference_items(symbols)
}

/// Whether some node at or below `n` has kind `kind`.
pub open spec fn has_kind_below(nodes: Seq<SyntaxNode>, n: int, kind: Seq<char>) -> bool {
    exists|d: int| 0 <= d < nodes.len() && is_descendant_or_self(nodes, n, d) && #[trigger] nodes[d].kind@ == kind
}

/// Whether a block (if any) lacks a node of kind `kind`, so that the item for
/// it is still worth offering.
pub open spec fn absent_in(nodes: Seq<SyntaxNode>, block: Option<int>, kind: Seq<char>) -> bool {
    match block {
        Some(b) => !has_kind_below(nodes, b, kind),
        None => true,
    }
}

/// The prompt type named by a `type` attribute among question attributes
/// `kids`: `Some(r)` stops the search with result `r`.
pub open spec fn type_in_question(source: Seq<char>, nodes: Seq<SyntaxNode>, kids: Seq<usize>) -> Option<Option<Seq<char>>>
    decreases kids.len(),
{
    if kids.len() == 0 {
        None
    } else {
        let c = kids[0] as int;
        if 0 <= c < nodes.len() && nodes[c].kind@ == "type_attribute"@ {
            Some(
                match field_child(nodes, c, "value"@) {
                    Some(v) => Some(node_text(source, nodes[v as int])),
                    None => None,
                },
            )
        } else {
            type_in_question(source, nodes, kids.drop_first())
        }
    }
}

/// The prompt type declared among the children `kids` of a prompt block.
pub open spec fn type_in_block(source: Seq<char>, nodes: Seq<SyntaxNode>, kids: Seq<usize>) -> Option<Seq<char>>
    decreases kids.len(),
{
    if kids.len() == 0 {
        None
    } else {
        let c = kids[0] as int;
        if 0 <= c < nodes.len() && nodes[c].kind@ == "question_attribute"@ {
            match type_in_question(source, nodes, nodes[c].children@) {
                Some(r) => r,
                None => type_in_block(source, nodes, kids.drop_first()),
            }
        } else {
            type_in_block(source, nodes, kids.drop_first())
        }
    }
}

/// The type of the prompt block around node `n`, if any.
pub open spec fn enclosing_prompt_type(source: Seq<char>, nodes: Seq<SyntaxNode>, n: int) -> Option<Seq<char>> {
    match ancestor_of_kind(nodes, n, "prompt_block"@) {
        Some(b) => type_in_block(source, nodes, nodes[b].children@),
        None => None,
    }
}

/// Attribute completions inside a prompt block, without the attributes the
/// block already has; `choices` only for untyped, `select` and
/// `multiselect` prompts.
pub open spec fn prompt_attribute_items(source: Seq<char>, nodes: Seq<SyntaxNode>, n: int) -> Seq<Item> {
    let block = ancestor_of_kind(nodes, n, "prompt_block"@);
    let ty = enclosing_prompt_type(source, nodes, n);
    let choices = ty is None || ty == Some("select"@) || ty == Some("multiselect"@);
    item_if(absent_in(nodes, block, "type_attribute"@), ("type"@, "Prompt type"@, CompletionKind::Property))
        + item_if(absent_in(nodes, block, "help_attribute"@), ("help"@, "Prompt help text"@, CompletionKind::Property))
        + item_if(absent_in(nodes, block, "default_attribute"@), ("default"@, "Default answer"@, CompletionKind::Property))
        + item_if(absent_in(nodes, block, "required_attribute"@), ("required"@, "Whether the prompt is required"@, CompletionKind::Property))
        + item_if(absent_in(nodes, block, "depends_on_attribute"@), ("depends_on"@, "Conditional visibility expression"@, CompletionKind::Property))
        + item_if(absent_in(nodes, block, "validate_block"@), ("validate"@, "Validation block"@, CompletionKind::Keyword))
        + item_if(choices && absent_in(nodes, block, "choices_attribute"@), ("choices"@, "Selectable options"@, CompletionKind::Property))
}

/// Validation completions inside a validate block: length and regex rules
/// for untyped, `string` and `paragraph` prompts, selection counts for
/// untyped and `multiselect` prompts, without the rules already present.
pub open spec fn validate_attribute_items(source: Seq<char>, nodes: Seq<SyntaxNode>, n: int) -> Seq<Item> {
    let block = ancestor_of_kind(nodes, n, "validate_block"@);
    let ty = enclosing_prompt_type(source, nodes, n);
    let strings = ty is None || ty == Some("string"@) || ty == Some("paragraph"@);
    let multi = ty is None || ty == Some("multiselect"@);
    item_if(strings && absent_in(nodes, block, "regex_attribute"@), ("regex"@, "Regular expression validation"@, CompletionKind::Property))
        + item_if(strings && absent_in(nodes, block, "min_length_attribute"@), ("min_length"@, "Minimum string length"@, CompletionKind::Property))
        + item_if(strings && absent_in(nodes, block, "max_length_attribute"@), ("max_length"@, "Maximum string length"@, CompletionKind::Property))
        + item_if(multi && absent_in(nodes, block, "min_selections_attribute"@), ("min_selections"@, "Minimum number of selected values"@, CompletionKind::Property))
        + item_if(multi && absent_in(nodes, block, "max_selections_attribute"@), ("max_selections"@, "Maximum number of selected values"@, CompletionKind::Property))
}

/// The text of the cursor's line before the cursor, without leading white
/// space.
pub open spec fn typed_prefix(source: Seq<char>, position: TextPosition) -> Seq<char> {
    let b = encode_utf8(source);
    let (s, e) = line_bounds(b, position.line as nat);
    let cut = if position.byte < e - s { position.byte as int } else { e - s };
    trim_start(decode_utf8(b.subrange(s, s + cut)))
}

/// Whether the cursor's column falls on a character boundary of its line (or
/// past the line's end).
pub open spec fn column_on_boundary(source: Seq<char>, position: TextPosition) -> bool {
    let b = encode_utf8(source);
    let (s, e) = line_bounds(b, position.line as nat);
    let cut = if position.byte < e - s { position.byte as int } else { e - s };
    is_char_boundary(b.subrange(s, e), cut)
}

/// The completions offered at a position.
pub open spec fn completions_at(
    source: Seq<char>,
    nodes: Seq<SyntaxNode>,
    symbols: Seq<Symbol>,
    position: TextPosition,
) -> Seq<Item> {
    let prefix = typed_prefix(source, position);
    let n = named_node_at(nodes, position);
    if starts_with(prefix, "type"@) {
        prompt_type_items()
    } else if starts_with(prefix, "depends_on"@) {
        depends_on_items(symbols)
    } else if ancestor_of_kind(nodes, n, "validate_block"@) is Some {
        validate_attribute_items(source, nodes, n)
    } else if ancestor_of_kind(nodes, n, "prompt_block"@) is Some {
        prompt_attribute_items(source, nodes, n)
    } else if ancestor_of_kind(nodes, n, "blueprint_block"@) is Some {
        blueprint_items()
    } else {
        top_level_items()
    }
}


/// After `type` at the start of the cursor's line, completion offers every
/// prompt type that a `type` attribute accepts, and nothing else: `string`,
/// `paragraph`, `bool`, `select` and `multiselect`, in that order, each as a
/// value.
pub proof fn lemma_type_completions_are_prompt_types(
    source: Seq<char>,
    nodes: Seq<SyntaxNode>,
    symbols: Seq<Symbol>,
    position: TextPosition,
)
    requires
        starts_with(typed_prefix(source, position), "type"@),
    ensures
        completions_at(source, nodes, symbols, position).map_values(|it: Item| it.0) == seq![
            "string"@,
            "paragraph"@,
            "bool"@,
            "select"@,
            "multiselect"@,
        ],
        forall|i: int|
            0 <= i < completions_at(source, nodes, symbols, position).len() ==> (#[trigger] completions_at(
                source,
                nodes,
                symbols,
                position,
            )[i]).2 == CompletionKind::Value,
{
    let items = completions_at(source, nodes, symbols, position);
    assert(items.map_values(|it: Item| it.0) =~= seq!["string"@, "paragraph"@, "bool"@, "select"@, "multiselect"@]);
}

/// The text of an optional string slice.
pub open spec fn text_view(o: Option<&str>) -> Option<Seq<char>> {
    match o {
        Some(s) => Some(s@),
        None => None,
    }
}

/// The texts of a nested optional string slice.
pub open spec fn nested_text_view(o: Option<Option<&str>>) -> Option<Option<Seq<char>>> {
    match o {
        Some(x) => Some(text_view(x)),
        None => None,
    }
}

/// A completion item with the given label, detail text and kind.
pub fn completion(label: &str, detail: Option<&str>, kind: CompletionKind) -> (res: Completion)
    ensures
        res.spec_label() == label@,
        res.spec_detail() == text_view(detail),
        res.spec_kind() == kind,
{
    let detail = match detail {
        Some(d) => Some(d.to_owned()),
        None => None,
    };
    Completion { label: label.to_owned(), detail, kind }
}

/// Appends the item (`label`, `detail`, `kind`) to `items` when `cond` holds.
fn push_item_if(
    items: &mut Vec<Completion>,
    cond: bool,
    label: &str,
    detail: &str,
    kind: CompletionKind,
    Ghost(its): Ghost<Seq<Item>>,
)
    requires
        items_are(old(items)@, its),
    ensures
        items_are(final(items)@, its + item_if(cond, (label@, detail@, kind))),
{
    if cond {
        items.push(completion(label, Some(detail), kind));
        assert(its + item_if(cond, (label@, detail@, kind)) =~= its.push((label@, detail@, kind)));
    } else {
        assert(its + item_if(cond, (label@, detail@, kind)) =~= its);
    }
}

/// The block keywords offered outside any block.
fn top_level_completions() -> (res: Vec<Completion>)
    ensures
        items_are(res@, top_level_items()),
{
    let mut items: Vec<Completion> = Vec::new();
    let ghost its = Seq::<Item>::empty();
    push_item_if(&mut items, true, "blueprint", "Declare blueprint metadata", CompletionKind::Keyword, Ghost(its));
    let ghost its = its + item_if(true, ("blueprint"@, "Declare blueprint metadata"@, CompletionKind::Keyword));
    push_item_if(&mut items, true, "prompt", "Declare an interactive prompt", CompletionKind::Keyword, Ghost(its));
    let ghost its = its + item_if(true, ("prompt"@, "Declare an interactive prompt"@, CompletionKind::Keyword));
    assert(its =~= top_level_items());
    items
}

/// The attribute keys offered inside a blueprint block.
fn blueprint_attribute_completions() -> (res: Vec<Completion>)
    ensures
        items_are(res@, blueprint_items()),
{
    let mut items: Vec<Completion> = Vec::new();
    let ghost its = Seq::<Item>::empty();
    push_item_if(&mut items, true, "version", "Achitekfile schema version", CompletionKind::Property, Ghost(its));
    let ghost its = its + item_if(true, ("version"@, "Achitekfile schema version"@, CompletionKind::Property));
    push_item_if(&mut items, true, "name", "Blueprint identifier", CompletionKind::Property, Ghost(its));
    let ghost its = its + item_if(true, ("name"@, "Blueprint identifier"@, CompletionKind::Property));
    push_item_if(&mut items, true, "description", "Blueprint description", CompletionKind::Property, Ghost(its));
    let ghost its = its + item_if(true, ("description"@, "Blueprint description"@, CompletionKind::Property));
    push_item_if(&mut items, true, "author", "Blueprint author", CompletionKind::Property, Ghost(its));
    let ghost its = its + item_if(true, ("author"@, "Blueprint author"@, CompletionKind::Property));
    push_item_if(&mut items, true, "min_achitek_version", "Minimum required Achitek version", CompletionKind::Property, Ghost(its));
    let ghost its = its + item_if(true, ("min_achitek_version"@, "Minimum required Achitek version"@, CompletionKind::Property));
    assert(its =~= blueprint_items());
    items
}

/// The prompt types offered after `type`.
fn prompt_type_completions() -> (res: Vec<Completion>)
    ensures
        items_are(res@, prompt_type_items()),
{
    let mut items: Vec<Completion> = Vec::new();
    let ghost its = Seq::<Item>::empty();
    push_item_if(&mut items, true, "string", "Single-line text prompt", CompletionKind::Value, Ghost(its));
    let ghost its = its + item_if(true, ("string"@, "Single-line text prompt"@, CompletionKind::Value));
    push_item_if(&mut items, true, "paragraph", "Multi-line text prompt", CompletionKind::Value, Ghost(its));
    let ghost its = its + item_if(true, ("paragraph"@, "Multi-line text prompt"@, CompletionKind::Value));
    push_item_if(&mut items, true, "bool", "Boolean yes/no prompt", CompletionKind::Value, Ghost(its));
    let ghost its = its + item_if(true, ("bool"@, "Boolean yes/no prompt"@, CompletionKind::Value));
    push_item_if(&mut items, true, "select", "Single-choice prompt", CompletionKind::Value, Ghost(its));
    let ghost its = its + item_if(true, ("select"@, "Single-choice prompt"@, CompletionKind::Value));
    push_item_if(&mut items, true, "multiselect", "Multi-choice prompt", CompletionKind::Value, Ghost(its));
    let ghost its = its + item_if(true, ("multiselect"@, "Multi-choice prompt"@, CompletionKind::Value));
    assert(its =~= prompt_type_items());
    items
}

/// The combinators, then one reference item per prompt symbol, offered after
/// `depends_on`.
fn depends_on_completions(symbols: &[Symbol]) -> (res: Vec<Completion>)
    ensures
        items_are(res@, depends_on_items(symbols@)),
{
    let mut items: Vec<Completion> = Vec::new();
    let ghost head = Seq::<Item>::empty();
    push_item_if(&mut items, true, "all", "Require all nested conditions", CompletionKind::Function, Ghost(head));
    let ghost head = head + item_if(true, ("all"@, "Require all nested conditions"@, CompletionKind::Function));
    push_item_if(&mut items, true, "any", "Require any nested condition", CompletionKind::Function, Ghost(head));
    let ghost head = head + item_if(true, ("any"@, "Require any nested condition"@, CompletionKind::Function));
    assert(head =~= seq![
        ("all"@, "Require all nested conditions"@, CompletionKind::Function),
        ("any"@, "Require any nested condition"@, CompletionKind::Function),
    ]);
    let mut i: usize = 0;
    while i < symbols.len()
        invariant
            0 <= i <= symbols@.len(),
            items_are(items@, head + prompt_reference_items(symbols@.take(i as int))),
        decreases symbols@.len() - i,
    {
        let symbol = &symbols[i];
        let is_prompt = symbol.kind() == SymbolKind::Prompt;
        let ghost its = head + prompt_reference_items(symbols@.take(i as int));
        push_item_if(&mut items, is_prompt, symbol.name(), "Prompt reference", CompletionKind::Reference, Ghost(its));
        proof {
            assert(symbols@.take(i + 1).drop_last() =~= symbols@.take(i as int));
            assert(symbols@.take(i + 1).last() == symbols@[i as int]);
            let item = (symbol.spec_name(), "Prompt reference"@, CompletionKind::Reference);
            if is_prompt {
                assert(its + item_if(is_prompt, item) =~= head + prompt_reference_items(symbols@.take(i + 1)));
            } else {
                assert(its + item_if(is_prompt, item) =~= head + prompt_reference_items(symbols@.take(i + 1)));
            }
        }
        i = i + 1;
    }
    assert(symbols@.take(symbols@.len() as int) =~= symbols@);
    items
}

/// The first node at or below `b` (in index order) whose kind is `kind`.
fn find_named_descendant_by_kind(syntax: &SourceTree, b: usize, kind: &str) -> (res: Option<usize>)
    requires
        b < syntax.spec_nodes().len(),
    ensures
        res is Some <==> has_kind_below(syntax.spec_nodes(), b as int, kind@),
        res matches Some(d) ==> d < syntax.spec_nodes().len() && is_descendant_or_self(
            syntax.spec_nodes(),
            b as int,
            d as int,
        ) && syntax.spec_nodes()[d as int].kind@ == kind@,
{
    let tree = syntax.tree();
    let ghost nodes = syntax.spec_nodes();
    let n = tree.len();
    let mut d: usize = b;
    while d < n
        invariant
            n == nodes.len(),
            tree.spec_nodes() == nodes,
            nodes == syntax.spec_nodes(),
            b <= d <= n,
            forall|e: int|
                b <= e < d ==> !(is_descendant_or_self(nodes, b as int, e) && #[trigger] nodes[e].kind@ == kind@),
        decreases n - d,
    {
        if tree.is_descendant_or_self(b, d) && tree.kind_is(d, kind) {
            assert(is_descendant_or_self(nodes, b as int, d as int) && nodes[d as int].kind@ == kind@);
            return Some(d);
        }
        d = d + 1;
    }
    assert forall|e: int| 0 <= e < nodes.len() implies !(is_descendant_or_self(nodes, b as int, e) && #[trigger] nodes[e].kind@ == kind@) by {
        if e < b {
            assert(!is_descendant_or_self(nodes, b as int, e));
        }
    }
    None
}

/// The value of the first `type` attribute among the children of question
/// attribute `q`: `Some(None)` when that attribute has no value.
fn type_in_question_attribute(syntax: &SourceTree, q: usize) -> (res: Option<Option<&str>>)
    requires
        q < syntax.spec_nodes().len(),
    ensures
        nested_text_view(res) == type_in_question(
            syntax.spec_source(),
            syntax.spec_nodes(),
            syntax.spec_nodes()[q as int].children@,
        ),
{
    let tree = syntax.tree();
    tree.reveal_wf();
    let ghost nodes = syntax.spec_nodes();
    let ghost source = syntax.spec_source();
    let ghost kids = nodes[q as int].children@;
    let node = tree.node(q);
    let mut k: usize = 0;
    assert(kids.skip(0) =~= kids);
    while k < node.children.len()
        invariant
            tree.spec_nodes() == nodes,
            nodes == syntax.spec_nodes(),
            source == syntax.spec_source(),
            nodes_wf(nodes),
            q < nodes.len(),
            *node == nodes[q as int],
            kids == nodes[q as int].children@,
            0 <= k <= kids.len(),
            type_in_question(source, nodes, kids) == type_in_question(source, nodes, kids.skip(k as int)),
        decreases kids.len() - k,
    {
        let c = node.children[k];
        assert(kids.skip(k as int).drop_first() =~= kids.skip(k + 1));
        assert(kids.skip(k as int)[0] == c);
        assert(c < nodes.len());
        if tree.kind_is(c, "type_attribute") {
            return match tree.child_by_field_name(c, "value") {
                Some(v) => Some(Some(syntax.text_for(v))),
                None => Some(None),
            };
        }
        k = k + 1;
    }
    assert(kids.skip(k as int).len() == 0);
    None
}

/// The prompt type declared by a `type` attribute of prompt block `block`.
pub(crate) fn prompt_type_for_block(syntax: &SourceTree, block: usize) -> (res: Option<&str>)
    requires
        block < syntax.spec_nodes().len(),
    ensures
        text_view(res) == type_in_block(
            syntax.spec_source(),
            syntax.spec_nodes(),
            syntax.spec_nodes()[block as int].children@,
        ),
{
    let tree = syntax.tree();
    tree.reveal_wf();
    let ghost nodes = syntax.spec_nodes();
    let ghost source = syntax.spec_source();
    let ghost kids = nodes[block as int].children@;
    let node = tree.node(block);
    let mut k: usize = 0;
    assert(kids.skip(0) =~= kids);
    while k < node.children.len()
        invariant
            tree.spec_nodes() == nodes,
            nodes == syntax.spec_nodes(),
            source == syntax.spec_source(),
            nodes_wf(nodes),
            block < nodes.len(),
            *node == nodes[block as int],
            kids == nodes[block as int].children@,
            0 <= k <= kids.len(),
            type_in_block(source, nodes, kids) == type_in_block(source, nodes, kids.skip(k as int)),
        decreases kids.len() - k,
    {
        let c = node.children[k];
        assert(kids.skip(k as int).drop_first() =~= kids.skip(k + 1));
        assert(kids.skip(k as int)[0] == c);
        assert(c < nodes.len());
        if tree.kind_is(c, "question_attribute") {
            match type_in_question_attribute(syntax, c) {
                Some(found) => {
                    return found;
                },
                None => {},
            }
        }
        k = k + 1;
    }
    assert(kids.skip(k as int).len() == 0);
    None
}

/// The nearest node of kind `kind` around the named node at `position`.
fn ancestor_node_at_position(syntax: &SourceTree, position: TextPosition, kind: &str) -> (res: Option<usize>)
    ensures
        res is Some <==> ancestor_of_kind(syntax.spec_nodes(), named_node_at(syntax.spec_nodes(), position), kind@) is Some,
        res matches Some(a) ==> ancestor_of_kind(syntax.spec_nodes(), named_node_at(syntax.spec_nodes(), position), kind@) == Some(a as int),
        res matches Some(a) ==> a < syntax.spec_nodes().len(),
{
    let tree = syntax.tree();
    let n = tree.named_node_at(position);
    tree.ancestor_of_kind(n, kind)
}

/// Whether the cursor lies inside a prompt block.
fn in_prompt_block(syntax: &SourceTree, position: TextPosition) -> (res: bool)
    ensures
        res == ancestor_of_kind(syntax.spec_nodes(), named_node_at(syntax.spec_nodes(), position), "prompt_block"@) is Some,
{
    ancestor_node_at_position(syntax, position, "prompt_block").is_some()
}

/// Whether the cursor lies inside a validate block.
fn in_validate_block(syntax: &SourceTree, position: TextPosition) -> (res: bool)
    ensures
        res == ancestor_of_kind(syntax.spec_nodes(), named_node_at(syntax.spec_nodes(), position), "validate_block"@) is Some,
{
    ancestor_node_at_position(syntax, position, "validate_block").is_some()
}

/// Whether the cursor lies inside a blueprint block.
fn in_blueprint_block(syntax: &SourceTree, position: TextPosition) -> (res: bool)
    ensures
        res == ancestor_of_kind(syntax.spec_nodes(), named_node_at(syntax.spec_nodes(), position), "blueprint_block"@) is Some,
{
    ancestor_node_at_position(syntax, position, "blueprint_block").is_some()
}

/// Whether the block found for an item lacks a node of kind `kind`.
fn absent(syntax: &SourceTree, block: Option<usize>, kind: &str) -> (res: bool)
    requires
        block matches Some(b) ==> b < syntax.spec_nodes().len(),
    ensures
        res == absent_in(syntax.spec_nodes(), opt_int(block), kind@),
{
    match block {
        Some(b) => find_named_descendant_by_kind(syntax, b, kind).is_none(),
        None => true,
    }
}

/// An optional index as an optional integer.
pub open spec fn opt_int(o: Option<usize>) -> Option<int> {
    match o {
        Some(i) => Some(i as int),
        None => None,
    }
}

/// The attributes a prompt block around the cursor still lacks.
pub fn prompt_attribute_completions(syntax: &SourceTree, position: TextPosition) -> (res: Vec<Completion>)
    ensures
        items_are(res@, prompt_attribute_items(syntax.spec_source(), syntax.spec_nodes(), named_node_at(syntax.spec_nodes(), position))),
{
    let ghost nodes = syntax.spec_nodes();
    let ghost n = named_node_at(nodes, position);
    let block = ancestor_node_at_position(syntax, position, "prompt_block");
    let prompt_type = match block {
        Some(b) => prompt_type_for_block(syntax, b),
        None => None,
    };
    assert(text_view(prompt_type) == enclosing_prompt_type(syntax.spec_source(), nodes, n));
    let choices = match prompt_type {
        None => true,
        Some(t) => crate::text::str_eq(t, "select") || crate::text::str_eq(t, "multiselect"),
    };
    let mut items: Vec<Completion> = Vec::new();
    let ghost its = Seq::<Item>::empty();
    let c = absent(syntax, block, "type_attribute");
    push_item_if(&mut items, c, "type", "Prompt type", CompletionKind::Property, Ghost(its));
    let ghost its = its + item_if(c, ("type"@, "Prompt type"@, CompletionKind::Property));
    let c = absent(syntax, block, "help_attribute");
    push_item_if(&mut items, c, "help", "Prompt help text", CompletionKind::Property, Ghost(its));
    let ghost its = its + item_if(c, ("help"@, "Prompt help text"@, CompletionKind::Property));
    let c = absent(syntax, block, "default_attribute");
    push_item_if(&mut items, c, "default", "Default answer", CompletionKind::Property, Ghost(its));
    let ghost its = its + item_if(c, ("default"@, "Default answer"@, CompletionKind::Property));
    let c = absent(syntax, block, "required_attribute");
    push_item_if(&mut items, c, "required", "Whether the prompt is required", CompletionKind::Property, Ghost(its));
    let ghost its = its + item_if(c, ("required"@, "Whether the prompt is required"@, CompletionKind::Property));
    let c = absent(syntax, block, "depends_on_attribute");
    push_item_if(&mut items, c, "depends_on", "Conditional visibility expression", CompletionKind::Property, Ghost(its));
    let ghost its = its + item_if(c, ("depends_on"@, "Conditional visibility expression"@, CompletionKind::Property));
    let c = absent(syntax, block, "validate_block");
    push_item_if(&mut items, c, "validate", "Validation block", CompletionKind::Keyword, Ghost(its));
    let ghost its = its + item_if(c, ("validate"@, "Validation block"@, CompletionKind::Keyword));
    let c = choices && absent(syntax, block, "choices_attribute");
    push_item_if(&mut items, c, "choices", "Selectable options", CompletionKind::Property, Ghost(its));
    let ghost its = its + item_if(c, ("choices"@, "Selectable options"@, CompletionKind::Property));
    assert(its == prompt_attribute_items(syntax.spec_source(), nodes, n));
    items
}

/// The validation rules a validate block around the cursor still lacks,
/// among those that suit the enclosing prompt's type.
pub fn validate_attribute_completions(syntax: &SourceTree, position: TextPosition) -> (res: Vec<Completion>)
    ensures
        items_are(res@, validate_attribute_items(syntax.spec_source(), syntax.spec_nodes(), named_node_at(syntax.spec_nodes(), position))),
{
    let ghost nodes = syntax.spec_nodes();
    let ghost n = named_node_at(nodes, position);
    let prompt_block = ancestor_node_at_position(syntax, position, "prompt_block");
    let block = ancestor_node_at_position(syntax, position, "validate_block");
    let prompt_type = match prompt_block {
        Some(b) => prompt_type_for_block(syntax, b),
        None => None,
    };
    assert(text_view(prompt_type) == enclosing_prompt_type(syntax.spec_source(), nodes, n));
    let strings = match prompt_type {
        None => true,
        Some(t) => crate::text::str_eq(t, "string") || crate::text::str_eq(t, "paragraph"),
    };
    let multi = match prompt_type {
        None => true,
        Some(t) => crate::text::str_eq(t, "multiselect"),
    };
    let mut items: Vec<Completion> = Vec::new();
    let ghost its = Seq::<Item>::empty();
    let c = strings && absent(syntax, block, "regex_attribute");
    push_item_if(&mut items, c, "regex", "Regular expression validation", CompletionKind::Property, Ghost(its));
    let ghost its = its + item_if(c, ("regex"@, "Regular expression validation"@, CompletionKind::Property));
    let c = strings && absent(syntax, block, "min_length_attribute");
    push_item_if(&mut items, c, "min_length", "Minimum string length", CompletionKind::Property, Ghost(its));
    let ghost its = its + item_if(c, ("min_length"@, "Minimum string length"@, CompletionKind::Property));
    let c = strings && absent(syntax, block, "max_length_attribute");
    push_item_if(&mut items, c, "max_length", "Maximum string length", CompletionKind::Property, Ghost(its));
    let ghost its = its + item_if(c, ("max_length"@, "Maximum string length"@, CompletionKind::Property));
    let c = multi && absent(syntax, block, "min_selections_attribute");
    push_item_if(&mut items, c, "min_selections", "Minimum number of selected values", CompletionKind::Property, Ghost(its));
    let ghost its = its + item_if(c, ("min_selections"@, "Minimum number of selected values"@, CompletionKind::Property));
    let c = multi && absent(syntax, block, "max_selections_attribute");
    push_item_if(&mut items, c, "max_selections", "Maximum number of selected values", CompletionKind::Property, Ghost(its));
    let ghost its = its + item_if(c, ("max_selections"@, "Maximum number of selected values"@, CompletionKind::Property));
    assert(its == validate_attribute_items(syntax.spec_source(), nodes, n));
    items
}

/// The part of `line` before byte `column` (the whole line when the column
/// lies past its end).
pub fn prefix_before_column(line: &str, column: usize) -> (res: &str)
    requires
        is_char_boundary(
            line.spec_bytes(),
            if column < line.spec_bytes().len() { column as int } else { line.spec_bytes().len() as int },
        ),
    ensures
        res.spec_bytes() == line.spec_bytes().subrange(
            0,
            if column < line.spec_bytes().len() { column as int } else { line.spec_bytes().len() as int },
        ),
{
    let len = line.as_bytes().len();
    let end = if column < len { column } else { len };
    let (head, _) = line.split_at(end);
    head
}

/// The completions offered at `position`.
pub fn completions_for_position(syntax: &SourceTree, symbols: &[Symbol], position: TextPosition) -> (res: Vec<Completion>)
    requires
        column_on_boundary(syntax.spec_source(), position),
    ensures
        items_are(res@, completions_at(syntax.spec_source(), syntax.spec_nodes(), symbols@, position)),
{
    let ghost source = syntax.spec_source();
    let line = source_line(syntax.source(), position.line);
    proof {
        let b = encode_utf8(source);
        lemma_line_bounds(b, position.line as nat);
        let (s, e) = line_bounds(b, position.line as nat);
        assert(line.spec_bytes() == b.subrange(s, e));
    }
    let prefix = prefix_before_column(line, position.byte);
    let chars = chars_of(prefix);
    proof {
        let b = encode_utf8(source);
        let (s, e) = line_bounds(b, position.line as nat);
        let cut = if position.byte < e - s { position.byte as int } else { e - s };
        encode_utf8_decode_utf8(prefix@);
        assert(prefix.spec_bytes() =~= b.subrange(s, s + cut));
        assert(chars@ == decode_utf8(b.subrange(s, s + cut)));
    }
    let skip = leading_white_space(&chars);
    if starts_with_at(&chars, skip, "type") {
        return prompt_type_completions();
    }
    if starts_with_at(&chars, skip, "depends_on") {
        return depends_on_completions(symbols);
    }
    if in_validate_block(syntax, position) {
        return validate_attribute_completions(syntax, position);
    }
    if in_prompt_block(syntax, position) {
        return prompt_attribute_completions(syntax, position);
    }
    if in_blueprint_block(syntax, position) {
        return blueprint_attribute_completions();
    }
    top_level_completions()
}

impl DocumentModel {
    /// Whether `position`'s column falls on a character boundary of its line
    /// (or past its end), so that completion can cut the line there.
    pub fn column_is_on_boundary(&self, position: TextPosition) -> (res: bool)
        ensures
            res == column_on_boundary(self.spec_source(), position),
    {
        let line = source_line(self.syntax().source(), position.line);
        let len = line.as_bytes().len();
        let end = if position.byte < len { position.byte } else { len };
        proof {
            let b = encode_utf8(self.spec_source());
            lemma_line_bounds(b, position.line as nat);
            let (s, e) = line_bounds(b, position.line as nat);
            assert(line.spec_bytes() == b.subrange(s, e));
        }
        line.is_char_boundary(end)
    }

    /// Returns completion items for a position in the document.
    pub fn completions(&self, position: TextPosition) -> (res: Vec<Completion>)
        requires
            column_on_boundary(self.spec_source(), position),
        ensures
            items_are(res@, completions_at(self.spec_source(), self.spec_nodes(), self.spec_symbols(), position)),
    {
        let syntax = self.syntax();
        let symbols = self.symbols();
        completions_for_position(syntax, symbols, position)
    }
}

/// The node kind of the attribute or block that a completion label adds.
pub open spec fn added_kind(label: Seq<char>) -> Option<Seq<char>> {
    if label == "type"@ {
        Some("type_attribute"@)
    } else if label == "help"@ {
        Some("help_attribute"@)
    } else if label == "default"@ {
        Some("default_attribute"@)
    } else if label == "required"@ {
        Some("required_attribute"@)
    } else if label == "depends_on"@ {
        Some("depends_on_attribute"@)
    } else if label == "validate"@ {
        Some("validate_block"@)
    } else if label == "choices"@ {
        Some("choices_attribute"@)
    } else if label == "regex"@ {
        Some("regex_attribute"@)
    } else if label == "min_length"@ {
        Some("min_length_attribute"@)
    } else if label == "max_length"@ {
        Some("max_length_attribute"@)
    } else if label == "min_selections"@ {
        Some("min_selections_attribute"@)
    } else if label == "max_selections"@ {
        Some("max_selections_attribute"@)
    } else {
        None
    }
}

/// Whether item `it` adds nothing that `block` already has.
pub open spec fn not_present(nodes: Seq<SyntaxNode>, block: Option<int>, it: Item) -> bool {
    added_kind(it.0) matches Some(k) ==> absent_in(nodes, block, k)
}

/// Whether no item of `items` adds something that `block` already has.
pub open spec fn none_present(nodes: Seq<SyntaxNode>, block: Option<int>, items: Seq<Item>) -> bool {
    forall|i: int| 0 <= i < items.len() ==> not_present(nodes, block, #[trigger] items[i])
}

proof fn lemma_none_present_concat(nodes: Seq<SyntaxNode>, block: Option<int>, a: Seq<Item>, b: Seq<Item>)
    requires
        none_present(nodes, block, a),
        none_present(nodes, block, b),
    ensures
        none_present(nodes, block, a + b),
{
    assert forall|i: int| 0 <= i < (a + b).len() implies not_present(nodes, block, #[trigger] (a + b)[i]) by {
        if i < a.len() {
            assert((a + b)[i] == a[i]);
        } else {
            assert((a + b)[i] == b[i - a.len()]);
        }
    }
}

proof fn lemma_none_present_item_if(nodes: Seq<SyntaxNode>, block: Option<int>, cond: bool, it: Item)
    requires
        cond ==> not_present(nodes, block, it),
    ensures
        none_present(nodes, block, item_if(cond, it)),
{
}

/// Completion inside a prompt or validate block never offers an attribute
/// that the block already has.
pub proof fn lemma_block_completions_skip_present_attributes(
    source: Seq<char>,
    nodes: Seq<SyntaxNode>,
    n: int,
)
    ensures
        none_present(nodes, ancestor_of_kind(nodes, n, "prompt_block"@), prompt_attribute_items(source, nodes, n)),
        none_present(nodes, ancestor_of_kind(nodes, n, "validate_block"@), validate_attribute_items(source, nodes, n)),
{
    reveal_strlit("type");
    reveal_strlit("help");
    reveal_strlit("default");
    reveal_strlit("required");
    reveal_strlit("depends_on");
    reveal_strlit("validate");
    reveal_strlit("choices");
    reveal_strlit("regex");
    reveal_strlit("min_length");
    reveal_strlit("max_length");
    reveal_strlit("min_selections");
    reveal_strlit("max_selections");
    assert(added_kind("type"@) == Some("type_attribute"@));
    assert("help"@[0] != "type"@[0]);
    assert(added_kind("help"@) == Some("help_attribute"@));
    assert("default"@[0] != "type"@[0]);
    assert("default"@[0] != "help"@[0]);
    assert(added_kind("default"@) == Some("default_attribute"@));
    assert("required"@[0] != "type"@[0]);
    assert("required"@[0] != "help"@[0]);
    assert("required"@[0] != "default"@[0]);
    assert(added_kind("required"@) == Some("required_attribute"@));
    assert("depends_on"@[0] != "type"@[0]);
    assert("depends_on"@[0] != "help"@[0]);
    assert("depends_on"@[2] != "default"@[2]);
    assert("depends_on"@[0] != "required"@[0]);
    assert(added_kind("depends_on"@) == Some("depends_on_attribute"@));
    assert("validate"@[0] != "type"@[0]);
    assert("validate"@[0] != "help"@[0]);
    assert("validate"@[0] != "default"@[0]);
    assert("validate"@[0] != "required"@[0]);
    assert("validate"@[0] != "depends_on"@[0]);
    assert(added_kind("validate"@) == Some("validate_block"@));
    assert("choices"@[0] != "type"@[0]);
    assert("choices"@[0] != "help"@[0]);
    assert("choices"@[0] != "default"@[0]);
    assert("choices"@[0] != "required"@[0]);
    assert("choices"@[0] != "depends_on"@[0]);
    assert("choices"@[0] != "validate"@[0]);
    assert(added_kind("choices"@) == Some("choices_attribute"@));
    assert("regex"@[0] != "type"@[0]);
    assert("regex"@[0] != "help"@[0]);
    assert("regex"@[0] != "default"@[0]);
    assert("regex"@[2] != "required"@[2]);
    assert("regex"@[0] != "depends_on"@[0]);
    assert("regex"@[0] != "validate"@[0]);
    assert("regex"@[0] != "choices"@[0]);
    assert(added_kind("regex"@) == Some("regex_attribute"@));
    assert("min_length"@[0] != "type"@[0]);
    assert("min_length"@[0] != "help"@[0]);
    assert("min_length"@[0] != "default"@[0]);
    assert("min_length"@[0] != "required"@[0]);
    assert("min_length"@[0] != "depends_on"@[0]);
    assert("min_length"@[0] != "validate"@[0]);
    assert("min_length"@[0] != "choices"@[0]);
    assert("min_length"@[0] != "regex"@[0]);
    assert(added_kind("min_length"@) == Some("min_length_attribute"@));
    assert("max_length"@[0] != "type"@[0]);
    assert("max_length"@[0] != "help"@[0]);
    assert("max_length"@[0] != "default"@[0]);
    assert("max_length"@[0] != "required"@[0]);
    assert("max_length"@[0] != "depends_on"@[0]);
    assert("max_length"@[0] != "validate"@[0]);
    assert("max_length"@[0] != "choices"@[0]);
    assert("max_length"@[0] != "regex"@[0]);
    assert("max_length"@[1] != "min_length"@[1]);
    assert(added_kind("max_length"@) == Some("max_length_attribute"@));
    assert("min_selections"@[0] != "type"@[0]);
    assert("min_selections"@[0] != "help"@[0]);
    assert("min_selections"@[0] != "default"@[0]);
    assert("min_selections"@[0] != "required"@[0]);
    assert("min_selections"@[0] != "depends_on"@[0]);
    assert("min_selections"@[0] != "validate"@[0]);
    assert("min_selections"@[0] != "choices"@[0]);
    assert("min_selections"@[0] != "regex"@[0]);
    assert("min_selections"@[4] != "min_length"@[4]);
    assert("min_selections"@[1] != "max_length"@[1]);
    assert(added_kind("min_selections"@) == Some("min_selections_attribute"@));
    assert("max_selections"@[0] != "type"@[0]);
    assert("max_selections"@[0] != "help"@[0]);
    assert("max_selections"@[0] != "default"@[0]);
    assert("max_selections"@[0] != "required"@[0]);
    assert("max_selections"@[0] != "depends_on"@[0]);
    assert("max_selections"@[0] != "validate"@[0]);
    assert("max_selections"@[0] != "choices"@[0]);
    assert("max_selections"@[0] != "regex"@[0]);
    assert("max_selections"@[1] != "min_length"@[1]);
    assert("max_selections"@[4] != "max_length"@[4]);
    assert("max_selections"@[1] != "min_selections"@[1]);
    assert(added_kind("max_selections"@) == Some("max_selections_attribute"@));
    let block = ancestor_of_kind(nodes, n, "prompt_block"@);
    let ty = enclosing_prompt_type(source, nodes, n);
    let choices = ty is None || ty == Some("select"@) || ty == Some("multiselect"@);
    let a1 = item_if(absent_in(nodes, block, "type_attribute"@), ("type"@, "Prompt type"@, CompletionKind::Property));
    let a2 = item_if(absent_in(nodes, block, "help_attribute"@), ("help"@, "Prompt help text"@, CompletionKind::Property));
    let a3 = item_if(absent_in(nodes, block, "default_attribute"@), ("default"@, "Default answer"@, CompletionKind::Property));
    let a4 = item_if(absent_in(nodes, block, "required_attribute"@), ("required"@, "Whether the prompt is required"@, CompletionKind::Property));
    let a5 = item_if(absent_in(nodes, block, "depends_on_attribute"@), ("depends_on"@, "Conditional visibility expression"@, CompletionKind::Property));
    let a6 = item_if(absent_in(nodes, block, "validate_block"@), ("validate"@, "Validation block"@, CompletionKind::Keyword));
    let a7 = item_if(choices && absent_in(nodes, block, "choices_attribute"@), ("choices"@, "Selectable options"@, CompletionKind::Property));
    lemma_none_present_item_if(nodes, block, absent_in(nodes, block, "type_attribute"@), ("type"@, "Prompt type"@, CompletionKind::Property));
    lemma_none_present_item_if(nodes, block, absent_in(nodes, block, "help_attribute"@), ("help"@, "Prompt help text"@, CompletionKind::Property));
    lemma_none_present_item_if(nodes, block, absent_in(nodes, block, "default_attribute"@), ("default"@, "Default answer"@, CompletionKind::Property));
    lemma_none_present_item_if(nodes, block, absent_in(nodes, block, "required_attribute"@), ("required"@, "Whether the prompt is required"@, CompletionKind::Property));
    lemma_none_present_item_if(nodes, block, absent_in(nodes, block, "depends_on_attribute"@), ("depends_on"@, "Conditional visibility expression"@, CompletionKind::Property));
    lemma_none_present_item_if(nodes, block, absent_in(nodes, block, "validate_block"@), ("validate"@, "Validation block"@, CompletionKind::Keyword));
    lemma_none_present_item_if(nodes, block, choices && absent_in(nodes, block, "choices_attribute"@), ("choices"@, "Selectable options"@, CompletionKind::Property));
    lemma_none_present_concat(nodes, block, a1, a2);
    lemma_none_present_concat(nodes, block, a1 + a2, a3);
    lemma_none_present_concat(nodes, block, a1 + a2 + a3, a4);
    lemma_none_present_concat(nodes, block, a1 + a2 + a3 + a4, a5);
    lemma_none_present_concat(nodes, block, a1 + a2 + a3 + a4 + a5, a6);
    lemma_none_present_concat(nodes, block, a1 + a2 + a3 + a4 + a5 + a6, a7);

    let vblock = ancestor_of_kind(nodes, n, "validate_block"@);
    let strings = ty is None || ty == Some("string"@) || ty == Some("paragraph"@);
    let multi = ty is None || ty == Some("multiselect"@);
    let b1 = item_if(strings && absent_in(nodes, vblock, "regex_attribute"@), ("regex"@, "Regular expression validation"@, CompletionKind::Property));
    let b2 = item_if(strings && absent_in(nodes, vblock, "min_length_attribute"@), ("min_length"@, "Minimum string length"@, CompletionKind::Property));
    let b3 = item_if(strings && absent_in(nodes, vblock, "max_length_attribute"@), ("max_length"@, "Maximum string length"@, CompletionKind::Property));
    let b4 = item_if(multi && absent_in(nodes, vblock, "min_selections_attribute"@), ("min_selections"@, "Minimum number of selected values"@, CompletionKind::Property));
    let b5 = item_if(multi && absent_in(nodes, vblock, "max_selections_attribute"@), ("max_selections"@, "Maximum number of selected values"@, CompletionKind::Property));
    lemma_none_present_item_if(nodes, vblock, strings && absent_in(nodes, vblock, "regex_attribute"@), ("regex"@, "Regular expression validation"@, CompletionKind::Property));
    lemma_none_present_item_if(nodes, vblock, strings && absent_in(nodes, vblock, "min_length_attribute"@), ("min_length"@, "Minimum string length"@, CompletionKind::Property));
    lemma_none_present_item_if(nodes, vblock, strings && absent_in(nodes, vblock, "max_length_attribute"@), ("max_length"@, "Maximum string length"@, CompletionKind::Property));
    lemma_none_present_item_if(nodes, vblock, multi && absent_in(nodes, vblock, "min_selections_attribute"@), ("min_selections"@, "Minimum number of selected values"@, CompletionKind::Property));
    lemma_none_present_item_if(nodes, vblock, multi && absent_in(nodes, vblock, "max_selections_attribute"@), ("max_selections"@, "Maximum number of selected values"@, CompletionKind::Property));
    lemma_none_present_concat(nodes, vblock, b1, b2);
    lemma_none_present_concat(nodes, vblock, b1 + b2, b3);
    lemma_none_present_concat(nodes, vblock, b1 + b2 + b3, b4);
    lemma_none_present_concat(nodes, vblock, b1 + b2 + b3 + b4, b5);
}

} // verus!
