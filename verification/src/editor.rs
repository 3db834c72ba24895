//! Achitekfile editor features used by LSP request handlers.
//!
//! This module turns parsed Achitekfile source into editor-oriented answers
//! such as hover, completion, definition, references, rename preparation, and
//! symbols. Every answer is computed from the plain syntax tree of the
//! document and from the prompts that `achitekfile` recovers.

use vstd::prelude::*;
use vstd::string::StringSliceAdditionalSpecFns;
use vstd::utf8::*;

use crate::achitek::{
    achitek_nodes, achitek_outline, achitek_parses, analyze_outline, copied_tree, outline_view,
    node_copies, parse_syntax_tree, Outline, OutlineView, RawNodeView, TreeError,
};
use crate::syntax::{
    ancestor_of_kind, first_child_with_field, is_descendant_or_self, named_node_at, nodes_wf, SyntaxNode,
    SyntaxTree,
};
use crate::text::{
    chars_of, TextPosition, TextRange,
};

verus! {

/// The characters of the source text covered by `node`.
pub open spec fn node_text(source: Seq<char>, node: SyntaxNode) -> Seq<char> {
    decode_utf8(encode_utf8(source).subrange(node.start_byte as int, node.end_byte as int))
}

/// Whether the byte extent from `start` to `end` is a valid slice of the
/// source.
pub open spec fn extent_fits(source: Seq<char>, start: usize, end: usize) -> bool {
    let bytes = encode_utf8(source);
    &&& start <= end <= bytes.len()
    &&& is_char_boundary(bytes, end as int)
    &&& is_char_boundary(bytes.subrange(0, end as int), start as int)
}

/// Whether a node's byte extent is a valid slice of the source.
pub open spec fn node_fits(source: Seq<char>, node: SyntaxNode) -> bool {
    extent_fits(source, node.start_byte, node.end_byte)
}

/// Whether every node record's byte extent is a valid slice of the source.
pub open spec fn records_fit(source: Seq<char>, records: Seq<RawNodeView>) -> bool {
    forall|i: int|
        0 <= i < records.len() ==> extent_fits(
            source,
            #[trigger] records[i].start_byte,
            records[i].end_byte,
        )
}

/// Parsed source plus the syntax tree used by editor features.
#[derive(Debug)]
pub struct SourceTree {
    source: String,
    tree: SyntaxTree,
}

impl SourceTree {
    /// The source text.
    pub closed spec fn spec_source(&self) -> Seq<char> {
        self.source@
    }

    /// The node records of the syntax tree.
    pub closed spec fn spec_nodes(&self) -> Seq<SyntaxNode> {
        self.tree.spec_nodes()
    }

    #[verifier::type_invariant]
    closed spec fn inv(self) -> bool {
        forall|i: int|
            0 <= i < self.tree.spec_nodes().len() ==> #[trigger] node_fits(
                self.source@,
                self.tree.spec_nodes()[i],
            )
    }

    /// Pairs source text with a syntax tree, or returns `None` when some
    /// node's byte extent is not a slice of the source.
    pub fn new(source: String, tree: SyntaxTree) -> (res: Option<SourceTree>)
        ensures
            res is Some <==> forall|i: int|
                0 <= i < tree.spec_nodes().len() ==> #[trigger] node_fits(
                    source@,
                    tree.spec_nodes()[i],
                ),
            res matches Some(t) ==> t.spec_source() == source@ && t.spec_nodes()
                == tree.spec_nodes(),
    {
        let n = tree.len();
        let mut i: usize = 0;
        while i < n
            invariant
                n == tree.spec_nodes().len(),
                0 <= i <= n,
                forall|j: int| 0 <= j < i ==> #[trigger] node_fits(source@, tree.spec_nodes()[j]),
            decreases n - i,
        {
            let node = tree.node(i);
            let s = source.as_str();
            if node.start_byte > node.end_byte {
                assert(!node_fits(source@, tree.spec_nodes()[i as int]));
                return None;
            }
            if !s.is_char_boundary(node.end_byte) {
                assert(!node_fits(source@, tree.spec_nodes()[i as int]));
                return None;
            }
            let (head, _) = s.split_at(node.end_byte);
            proof {
                encode_utf8_valid_utf8(source@);
                assert(head.spec_bytes() =~= encode_utf8(source@).subrange(0, node.end_byte as int));
            }
            if !head.is_char_boundary(node.start_byte) {
                assert(!node_fits(source@, tree.spec_nodes()[i as int]));
                return None;
            }
            assert(node_fits(source@, tree.spec_nodes()[i as int]));
            i = i + 1;
        }
        Some(SourceTree { source, tree })
    }

    /// Returns the source text used to build this syntax tree.
    pub fn source(&self) -> (res: &str)
        ensures
            res@ == self.spec_source(),
    {
        self.source.as_str()
    }

    /// Returns the syntax tree.
    pub fn tree(&self) -> (res: &SyntaxTree)
        ensures
            res.spec_nodes() == self.spec_nodes(),
    {
        &self.tree
    }

    /// Returns the source range occupied by node `n`.
    pub fn range_for(&self, n: usize) -> (res: TextRange)
        requires
            n < self.spec_nodes().len(),
        ensures
            res == self.spec_nodes()[n as int].range,
    {
        self.tree.node(n).range
    }

    /// Returns the source text covered by node `n`.
    pub fn text_for(&self, n: usize) -> (res: &str)
        requires
            n < self.spec_nodes().len(),
        ensures
            res@ == node_text(self.spec_source(), self.spec_nodes()[n as int]),
    {
        proof {
            use_type_invariant(self);
        }
        let node = self.tree.node(n);
        assert(node_fits(self.source@, self.tree.spec_nodes()[n as int]));
        let s = self.source.as_str();
        let (head, _) = s.split_at(node.end_byte);
        let (_, mid) = head.split_at(node.start_byte);
        proof {
            encode_utf8_decode_utf8(mid@);
            let bytes = encode_utf8(self.source@);
            assert(mid.spec_bytes() =~= bytes.subrange(
                node.start_byte as int,
                node.end_byte as int,
            ));
        }
        mid
    }
}


/// Symbol kinds understood by editor features.
#[derive(Debug, Clone, Copy, PartialEq, Eq, Structural)]
pub enum SymbolKind {
    /// The top-level blueprint block.
    Blueprint,
    /// A prompt block.
    Prompt,
    /// A validate block nested inside a prompt.
    Validate,
}

/// A document symbol derived from Achitek source.
#[derive(Debug)]
pub struct Symbol {
    name: String,
    detail: Option<String>,
    kind: SymbolKind,
    range: TextRange,
    selection_range: TextRange,
    children: Vec<Symbol>,
}

impl Symbol {
    /// The display name.
    pub closed spec fn spec_name(&self) -> Seq<char> {
        self.name@
    }

    /// The detail text.
    pub closed spec fn spec_detail(&self) -> Option<Seq<char>> {
        match self.detail {
            Some(d) => Some(d@),
            None => None,
        }
    }

    /// The symbol kind.
    pub closed spec fn spec_kind(&self) -> SymbolKind {
        self.kind
    }

    /// The full source range.
    pub closed spec fn spec_range(&self) -> TextRange {
        self.range
    }

    /// The preferred selection range.
    pub closed spec fn spec_selection_range(&self) -> TextRange {
        self.selection_range
    }

    /// The nested child symbols.
    pub closed spec fn spec_children(&self) -> Seq<Symbol> {
        self.children@
    }

    /// Returns the symbol display name.
    pub fn name(&self) -> (res: &str)
        ensures
            res@ == self.spec_name(),
    {
        self.name.as_str()
    }

    /// Returns optional symbol detail text.
    pub fn detail(&self) -> (res: Option<&str>)
        ensures
            res is Some <==> self.spec_detail() is Some,
            res matches Some(d) ==> self.spec_detail() == Some(d@),
    {
        match &self.detail {
            Some(d) => Some(d.as_str()),
            None => None,
        }
    }

    /// Returns the symbol kind.
    pub fn kind(&self) -> (res: SymbolKind)
        ensures
            res == self.spec_kind(),
    {
        self.kind
    }

    /// Returns the full source range occupied by the symbol.
    pub fn range(&self) -> (res: TextRange)
        ensures
            res == self.spec_range(),
    {
        self.range
    }

    /// Returns the preferred selection range for the symbol.
    pub fn selection_range(&self) -> (res: TextRange)
        ensures
            res == self.spec_selection_range(),
    {
        self.selection_range
    }

    /// Returns nested child symbols.
    pub fn children(&self) -> (res: &[Symbol])
        ensures
            res@ == self.spec_children(),
    {
        self.children.as_slice()
    }
}

/// A symbol is larger than each of its children, so walks over the symbol
/// tree end.
pub proof fn lemma_children_decrease(s: Symbol, i: int)
    requires
        0 <= i < s.spec_children().len(),
    ensures
        decreases_to!(s => s.spec_children()[i]),
{
    assert(decreases_to!(s => s.children));
    assert(decreases_to!(s.children => s.children@));
    assert(decreases_to!(s.children@ => s.children@[i]));
}

/// Whether `position` lies inside `range`, both ends included.
pub open spec fn range_contains(range: TextRange, position: TextPosition) -> bool {
    (position.line > range.start.line || (position.line == range.start.line && position.byte >= range.start.byte))
        && (position.line < range.end.line || (position.line == range.end.line && position.byte <= range.end.byte))
}

/// The ranges of symbol `s` and of the symbols nested in it that contain
/// `position`, in pre-order: a symbol's selection range before its full
/// range.
pub open spec fn symbol_candidates(s: Symbol, position: TextPosition) -> Seq<TextRange>
    decreases s, 1nat,
{
    (if range_contains(s.spec_selection_range(), position) {
        seq![s.spec_selection_range()]
    } else {
        Seq::empty()
    }) + (if range_contains(s.spec_range(), position) {
        seq![s.spec_range()]
    } else {
        Seq::empty()
    }) + symbols_candidates(s.spec_children(), position)
}

/// The candidates of the symbols `list`, in order.
pub open spec fn symbols_candidates(list: Seq<Symbol>, position: TextPosition) -> Seq<TextRange>
    decreases list, 0nat,
{
    if list.len() == 0 {
        Seq::empty()
    } else {
        symbols_candidates(list.drop_last(), position) + symbol_candidates(list.last(), position)
    }
}

/// The index of the first prompt symbol named `name`.
pub open spec fn find_prompt(symbols: Seq<Symbol>, name: Seq<char>) -> Option<int>
    decreases symbols.len(),
{
    if symbols.len() == 0 {
        None
    } else {
        match find_prompt(symbols.drop_last(), name) {
            Some(i) => Some(i),
            None => if symbols.last().spec_kind() == SymbolKind::Prompt && symbols.last().spec_name()
                == name {
                Some(symbols.len() - 1)
            } else {
                None
            },
        }
    }
}

/// `s` without its leading double quotes.
pub open spec fn trim_leading_quotes(s: Seq<char>) -> Seq<char>
    decreases s.len(),
{
    if s.len() > 0 && s[0] == '"' {
        trim_leading_quotes(s.drop_first())
    } else {
        s
    }
}

/// `s` without its trailing double quotes.
pub open spec fn trim_trailing_quotes(s: Seq<char>) -> Seq<char>
    decreases s.len(),
{
    if s.len() > 0 && s.last() == '"' {
        trim_trailing_quotes(s.drop_last())
    } else {
        s
    }
}

/// `s` without its leading and trailing double quotes.
pub open spec fn trim_quotes(s: Seq<char>) -> Seq<char> {
    trim_trailing_quotes(trim_leading_quotes(s))
}

/// Whether `s[lo..hi]` is `trim_quotes(s)`.
proof fn lemma_trim_quotes_bounds(s: Seq<char>, lo: int, hi: int)
    requires
        0 <= lo <= s.len(),
        forall|k: int| 0 <= k < lo ==> s[k] == '"',
        lo == s.len() || s[lo] != '"',
        lo <= hi <= s.len(),
        forall|k: int| hi <= k < s.len() ==> s[k] == '"',
        hi == lo || s[hi - 1] != '"',
    ensures
        trim_quotes(s) == s.subrange(lo, hi),
{
    lemma_trim_leading(s, lo);
    let t = s.subrange(lo, s.len() as int);
    lemma_trim_trailing(t, hi - lo);
    assert(t.subrange(0, hi - lo) =~= s.subrange(lo, hi));
}

proof fn lemma_trim_leading(s: Seq<char>, lo: int)
    requires
        0 <= lo <= s.len(),
        forall|k: int| 0 <= k < lo ==> s[k] == '"',
        lo == s.len() || s[lo] != '"',
    ensures
        trim_leading_quotes(s) == s.subrange(lo, s.len() as int),
    decreases lo,
{
    if lo == 0 {
        assert(s.subrange(0, s.len() as int) =~= s);
    } else {
        lemma_trim_leading(s.drop_first(), lo - 1);
        assert(s.drop_first().subrange(lo - 1, s.len() - 1) =~= s.subrange(lo, s.len() as int));
    }
}

proof fn lemma_trim_trailing(s: Seq<char>, hi: int)
    requires
        0 <= hi <= s.len(),
        forall|k: int| hi <= k < s.len() ==> s[k] == '"',
        hi == 0 || s[hi - 1] != '"',
    ensures
        trim_trailing_quotes(s) == s.subrange(0, hi),
    decreases s.len() - hi,
{
    if hi == s.len() {
        assert(s.subrange(0, hi) =~= s);
    } else {
        lemma_trim_trailing(s.drop_last(), hi);
        assert(s.drop_last().subrange(0, hi) =~= s.subrange(0, hi));
    }
}

/// `s` without its leading and trailing double quotes, the way
/// `s.trim_matches('"')` cuts it.
pub fn trim_matches_quotes(s: &str) -> (res: &str)
    ensures
        res@ == trim_quotes(s@),
{
    let chars = chars_of(s);
    let n = chars.len();
    let mut lo: usize = 0;
    while lo < n && chars[lo] == '"'
        invariant
            n == chars@.len(),
            0 <= lo <= n,
            forall|k: int| 0 <= k < lo ==> chars@[k] == '"',
        decreases n - lo,
    {
        lo = lo + 1;
    }
    let mut hi: usize = n;
    while hi > lo && chars[hi - 1] == '"'
        invariant
            n == chars@.len(),
            0 <= lo <= hi <= n,
            forall|k: int| hi <= k < n ==> chars@[k] == '"',
        decreases hi,
    {
        hi = hi - 1;
    }
    proof {
        lemma_trim_quotes_bounds(chars@, lo as int, hi as int);
    }
    s.substring_char(lo, hi)
}

/// The characters of `s` without its leading and trailing double quotes.
pub fn trim_quote_chars(s: &str) -> (res: Vec<char>)
    ensures
        res@ == trim_quotes(s@),
{
    chars_of(trim_matches_quotes(s))
}

/// Whether a vector of characters spells out a string slice.
pub fn chars_eq_str(a: &Vec<char>, s: &str) -> (res: bool)
    ensures
        res == (a@ == s@),
{
    let b = chars_of(s);
    if a.len() != b.len() {
        return false;
    }
    let mut i: usize = 0;
    while i < a.len()
        invariant
            a@.len() == b@.len(),
            b@ == s@,
            0 <= i <= a@.len(),
            forall|j: int| 0 <= j < i ==> a@[j] == b@[j],
        decreases a@.len() - i,
    {
        if a[i] != b[i] {
            return false;
        }
        i = i + 1;
    }
    assert(a@ =~= b@);
    true
}

/// The index of the first prompt symbol whose name is `name`.
pub fn find_prompt_symbol(symbols: &Vec<Symbol>, name: &Vec<char>) -> (res: Option<usize>)
    ensures
        res is Some <==> find_prompt(symbols@, name@) is Some,
        res matches Some(i) ==> find_prompt(symbols@, name@) == Some(i as int) && i
            < symbols@.len(),
{
    let mut i: usize = 0;
    while i < symbols.len()
        invariant
            0 <= i <= symbols@.len(),
            find_prompt(symbols@.take(i as int), name@) is None,
        decreases symbols@.len() - i,
    {
        proof {
            assert(symbols@.take(i + 1).drop_last() =~= symbols@.take(i as int));
        }
        if symbols[i].kind == SymbolKind::Prompt && chars_eq_str(name, symbols[i].name.as_str()) {
            proof {
                lemma_find_prompt_prefix(symbols@, name@, i + 1);
            }
            return Some(i);
        }
        i = i + 1;
    }
    assert(symbols@.take(i as int) =~= symbols@);
    None
}

/// A match in a prefix is the match of the whole sequence.
pub proof fn lemma_find_prompt_prefix(symbols: Seq<Symbol>, name: Seq<char>, k: int)
    requires
        0 <= k <= symbols.len(),
        find_prompt(symbols.take(k), name) is Some,
    ensures
        find_prompt(symbols, name) == find_prompt(symbols.take(k), name),
    decreases symbols.len() - k,
{
    if k < symbols.len() {
        assert(symbols.take(k + 1).drop_last() =~= symbols.take(k));
        lemma_find_prompt_prefix(symbols, name, k + 1);
    } else {
        assert(symbols.take(k) =~= symbols);
    }
}


/// The first child of `n` under field `field`.
pub open spec fn field_child(nodes: Seq<SyntaxNode>, n: int, field: Seq<char>) -> Option<usize> {
    first_child_with_field(nodes, nodes[n].children@, field)
}

/// Whether identifier node `n` is a prompt reference inside a dependency
/// expression: the `reference` of a simple dependency, the `left` side of a
/// comparison, or the `receiver` of a method call.
pub open spec fn is_reference_site(nodes: Seq<SyntaxNode>, n: int) -> bool {
    match nodes[n].parent {
        Some(p) => {
            let k = nodes[p as int].kind@;
            if k == "simple_dependency"@ {
                field_child(nodes, p as int, "reference"@) == Some(n as usize)
            } else if k == "comparison_dependency"@ {
                field_child(nodes, p as int, "left"@) == Some(n as usize)
            } else if k == "method_call_dependency"@ {
                field_child(nodes, p as int, "receiver"@) == Some(n as usize)
            } else {
                false
            }
        },
        None => false,
    }
}

/// The prompt name referenced by identifier node `n`, if it is a reference.
pub open spec fn reference_name(source: Seq<char>, nodes: Seq<SyntaxNode>, n: int) -> Option<
    Seq<char>,
> {
    if is_reference_site(nodes, n) {
        Some(node_text(source, nodes[n]))
    } else {
        None
    }
}

/// The name of a declared prompt whose name is the quoted text of node `c`.
pub open spec fn declared_name(
    source: Seq<char>,
    nodes: Seq<SyntaxNode>,
    symbols: Seq<Symbol>,
    c: int,
) -> Option<Seq<char>> {
    let name = trim_quotes(node_text(source, nodes[c]));
    if find_prompt(symbols, name) is Some {
        Some(name)
    } else {
        None
    }
}

/// Whether node `n` is the `name` of a prompt block.
pub open spec fn is_prompt_name_node(nodes: Seq<SyntaxNode>, n: int) -> bool {
    match nodes[n].parent {
        Some(q) => nodes[q as int].kind@ == "prompt_block"@ && field_child(nodes, q as int, "name"@)
            == Some(n as usize),
        None => false,
    }
}

/// The prompt name under the cursor: a prompt reference in a dependency
/// expression, or the name of a declared prompt when the cursor is on its
/// block or on its name literal.
pub open spec fn symbol_name_at(
    source: Seq<char>,
    nodes: Seq<SyntaxNode>,
    symbols: Seq<Symbol>,
    p: TextPosition,
) -> Option<Seq<char>> {
    let n = named_node_at(nodes, p);
    let k = nodes[n].kind@;
    if k == "identifier"@ {
        reference_name(source, nodes, n)
    } else if k == "prompt_block"@ {
        match field_child(nodes, n, "name"@) {
            Some(c) => declared_name(source, nodes, symbols, c as int),
            None => None,
        }
    } else if k == "string_literal"@ {
        if is_prompt_name_node(nodes, n) {
            declared_name(source, nodes, symbols, n)
        } else {
            None
        }
    } else {
        None
    }
}

/// Definition target derived from Achitek source.
#[derive(Debug, Clone, Copy, PartialEq, Eq, Structural)]
pub struct DefinitionTarget {
    range: TextRange,
    selection_range: TextRange,
}

impl DefinitionTarget {
    /// The full range of the definition target.
    pub closed spec fn spec_range(&self) -> TextRange {
        self.range
    }

    /// The selection range of the definition target.
    pub closed spec fn spec_selection_range(&self) -> TextRange {
        self.selection_range
    }

    /// Returns the full range of the definition target.
    pub fn range(&self) -> (res: TextRange)
        ensures
            res == self.spec_range(),
    {
        self.range
    }

    /// Returns the preferred selection range for the definition target.
    pub fn selection_range(&self) -> (res: TextRange)
        ensures
            res == self.spec_selection_range(),
    {
        self.selection_range
    }
}

/// Prepare-rename target derived from Achitek source.
#[derive(Debug)]
pub struct PrepareRenameTarget {
    range: TextRange,
    placeholder: String,
}

impl PrepareRenameTarget {
    /// The range to rename.
    pub closed spec fn spec_range(&self) -> TextRange {
        self.range
    }

    /// The placeholder name.
    pub closed spec fn spec_placeholder(&self) -> Seq<char> {
        self.placeholder@
    }

    /// Returns the source range that should be renamed.
    pub fn range(&self) -> (res: TextRange)
        ensures
            res == self.spec_range(),
    {
        self.range
    }

    /// Returns the placeholder name to show before rename.
    pub fn placeholder(&self) -> (res: &str)
        ensures
            res@ == self.spec_placeholder(),
    {
        self.placeholder.as_str()
    }
}

/// Reference target derived from Achitek source.
#[derive(Debug, Clone, Copy, PartialEq, Eq, Structural)]
pub struct ReferenceTarget {
    range: TextRange,
}

impl ReferenceTarget {
    /// The source range of the reference.
    pub closed spec fn spec_range(&self) -> TextRange {
        self.range
    }

    /// Returns the source range for the reference target.
    pub fn range(&self) -> (res: TextRange)
        ensures
            res == self.spec_range(),
    {
        self.range
    }
}

/// The definition under the cursor: the prompt declaration that an
/// identifier reference names.
pub open spec fn definition_at(
    source: Seq<char>,
    nodes: Seq<SyntaxNode>,
    symbols: Seq<Symbol>,
    p: TextPosition,
) -> Option<(TextRange, TextRange)> {
    let n = named_node_at(nodes, p);
    if nodes[n].kind@ == "identifier"@ {
        match reference_name(source, nodes, n) {
            Some(name) => match find_prompt(symbols, name) {
                Some(i) => Some((symbols[i].spec_range(), symbols[i].spec_selection_range())),
                None => None,
            },
            None => None,
        }
    } else {
        None
    }
}

/// The rename target under the cursor: the range to edit and the current
/// name.
pub open spec fn rename_target_at(
    source: Seq<char>,
    nodes: Seq<SyntaxNode>,
    symbols: Seq<Symbol>,
    p: TextPosition,
) -> Option<(TextRange, Seq<char>)> {
    let n = named_node_at(nodes, p);
    let k = nodes[n].kind@;
    if k == "identifier"@ {
        match reference_name(source, nodes, n) {
            Some(name) => Some((nodes[n].range, name)),
            None => None,
        }
    } else if k == "prompt_block"@ {
        match field_child(nodes, n, "name"@) {
            Some(c) => match declared_name(source, nodes, symbols, c as int) {
                Some(name) => Some((nodes[c as int].range, name)),
                None => None,
            },
            None => None,
        }
    } else if k == "string_literal"@ {
        if is_prompt_name_node(nodes, n) {
            match declared_name(source, nodes, symbols, n) {
                Some(name) => Some((nodes[n].range, name)),
                None => None,
            }
        } else {
            None
        }
    } else {
        None
    }
}

/// The ranges, in pre-order, of the identifier nodes among the first `upto`
/// nodes that reference the prompt `name`.
pub open spec fn reference_ranges(
    source: Seq<char>,
    nodes: Seq<SyntaxNode>,
    name: Seq<char>,
    upto: int,
) -> Seq<TextRange>
    decreases upto,
{
    if upto <= 0 {
        Seq::empty()
    } else {
        let prev = reference_ranges(source, nodes, name, upto - 1);
        let n = upto - 1;
        if nodes[n].kind@ == "identifier"@ && reference_name(source, nodes, n) == Some(name) {
            prev.push(nodes[n].range)
        } else {
            prev
        }
    }
}

/// The ranges of reference targets.
pub open spec fn target_ranges(targets: Seq<ReferenceTarget>) -> Seq<TextRange> {
    targets.map_values(|t: ReferenceTarget| t.spec_range())
}

/// Every location of the prompt under the cursor: its declaration (when
/// asked for) followed by its references in pre-order.
pub open spec fn references_at(
    source: Seq<char>,
    nodes: Seq<SyntaxNode>,
    symbols: Seq<Symbol>,
    p: TextPosition,
    include_declaration: bool,
) -> Seq<TextRange> {
    match symbol_name_at(source, nodes, symbols, p) {
        Some(name) => {
            let declaration = if include_declaration {
                match find_prompt(symbols, name) {
                    Some(i) => seq![symbols[i].spec_selection_range()],
                    None => Seq::empty(),
                }
            } else {
                Seq::empty()
            };
            declaration + reference_ranges(source, nodes, name, nodes.len() as int)
        },
        None => Seq::empty(),
    }
}

/// Editor-facing model for a single Achitekfile document.
#[derive(Debug)]
pub struct DocumentModel {
    syntax: SourceTree,
    symbols: Vec<Symbol>,
}

impl DocumentModel {
    /// The source text of the document.
    pub closed spec fn spec_source(&self) -> Seq<char> {
        self.syntax.spec_source()
    }

    /// The syntax tree nodes of the document.
    pub closed spec fn spec_nodes(&self) -> Seq<SyntaxNode> {
        self.syntax.spec_nodes()
    }

    /// The document symbols.
    pub closed spec fn spec_symbols(&self) -> Seq<Symbol> {
        self.symbols@
    }

    /// Returns the parsed syntax tree for the document.
    pub fn syntax(&self) -> (res: &SourceTree)
        ensures
            res.spec_source() == self.spec_source(),
            res.spec_nodes() == self.spec_nodes(),
    {
        &self.syntax
    }

    /// Returns document symbols derived from the parsed source.
    pub fn symbols(&self) -> (res: &[Symbol])
        ensures
            res@ == self.spec_symbols(),
    {
        self.symbols.as_slice()
    }

    /// The prompt name that identifier node `n` references, if any.
    fn identifier_reference_name(&self, n: usize) -> (res: Option<&str>)
        requires
            n < self.spec_nodes().len(),
        ensures
            res is Some <==> reference_name(self.spec_source(), self.spec_nodes(), n as int) is Some,
            res matches Some(t) ==> reference_name(self.spec_source(), self.spec_nodes(), n as int)
                == Some(t@),
    {
        let tree = self.syntax.tree();
        tree.reveal_wf();
        let p = match tree.parent(n) {
            Some(p) => p,
            None => {
                return None;
            },
        };
        let site = if tree.kind_is(p, "simple_dependency") {
            tree.child_by_field_name(p, "reference") == Some(n)
        } else if tree.kind_is(p, "comparison_dependency") {
            tree.child_by_field_name(p, "left") == Some(n)
        } else if tree.kind_is(p, "method_call_dependency") {
            tree.child_by_field_name(p, "receiver") == Some(n)
        } else {
            false
        };
        if site {
            Some(self.syntax.text_for(n))
        } else {
            None
        }
    }

    /// The declared prompt whose name is the quoted text of node `c`: the
    /// index of its symbol.
    fn declared_prompt(&self, c: usize) -> (res: Option<usize>)
        requires
            c < self.spec_nodes().len(),
        ensures
            res is Some <==> declared_name(
                self.spec_source(),
                self.spec_nodes(),
                self.spec_symbols(),
                c as int,
            ) is Some,
            res matches Some(i) ==> i < self.spec_symbols().len() && declared_name(
                self.spec_source(),
                self.spec_nodes(),
                self.spec_symbols(),
                c as int,
            ) == Some(self.spec_symbols()[i as int].spec_name()) && find_prompt(
                self.spec_symbols(),
                self.spec_symbols()[i as int].spec_name(),
            ) == Some(i as int),
    {
        let name = trim_quote_chars(self.syntax.text_for(c));
        let found = find_prompt_symbol(&self.symbols, &name);
        proof {
            if let Some(i) = found {
                lemma_find_prompt_name(self.symbols@, name@, i as int);
            }
        }
        found
    }

    /// Returns the prompt name associated with the symbol under the cursor.
    pub fn prompt_name(&self, position: TextPosition) -> (res: Option<&str>)
        ensures
            res is Some <==> symbol_name_at(
                self.spec_source(),
                self.spec_nodes(),
                self.spec_symbols(),
                position,
            ) is Some,
            res matches Some(t) ==> symbol_name_at(
                self.spec_source(),
                self.spec_nodes(),
                self.spec_symbols(),
                position,
            ) == Some(t@),
    {
        let tree = self.syntax.tree();
        tree.reveal_wf();
        let n = tree.named_node_at(position);
        if tree.kind_is(n, "identifier") {
            return self.identifier_reference_name(n);
        }
        if tree.kind_is(n, "prompt_block") {
            let c = match tree.child_by_field_name(n, "name") {
                Some(c) => c,
                None => {
                    return None;
                },
            };
            return match self.declared_prompt(c) {
                Some(i) => Some(self.symbols[i].name.as_str()),
                None => None,
            };
        }
        if tree.kind_is(n, "string_literal") {
            let q = match tree.parent(n) {
                Some(q) => q,
                None => {
                    return None;
                },
            };
            if tree.kind_is(q, "prompt_block") && tree.child_by_field_name(q, "name") == Some(n) {
                return match self.declared_prompt(n) {
                    Some(i) => Some(self.symbols[i].name.as_str()),
                    None => None,
                };
            }
        }
        None
    }
}

impl DocumentModel {
    /// Returns the definition target for a position in the document.
    pub fn definition(&self, position: TextPosition) -> (res: Option<DefinitionTarget>)
        ensures
            ({
                let expected = definition_at(
                    self.spec_source(),
                    self.spec_nodes(),
                    self.spec_symbols(),
                    position,
                );
                &&& res is Some <==> expected is Some
                &&& res matches Some(t) ==> expected == Some(
                    (t.spec_range(), t.spec_selection_range()),
                )
            }),
    {
        let tree = self.syntax.tree();
        tree.reveal_wf();
        let n = tree.named_node_at(position);
        if !tree.kind_is(n, "identifier") {
            return None;
        }
        let name = match self.identifier_reference_name(n) {
            Some(name) => chars_of(name),
            None => {
                return None;
            },
        };
        match find_prompt_symbol(&self.symbols, &name) {
            Some(i) => Some(
                DefinitionTarget {
                    range: self.symbols[i].range,
                    selection_range: self.symbols[i].selection_range,
                },
            ),
            None => None,
        }
    }

    /// Returns rename preparation details for a position in the document.
    pub fn prepare_rename(&self, position: TextPosition) -> (res: Option<PrepareRenameTarget>)
        ensures
            ({
                let expected = rename_target_at(
                    self.spec_source(),
                    self.spec_nodes(),
                    self.spec_symbols(),
                    position,
                );
                &&& res is Some <==> expected is Some
                &&& res matches Some(t) ==> expected == Some((t.spec_range(), t.spec_placeholder()))
            }),
    {
        let tree = self.syntax.tree();
        tree.reveal_wf();
        let n = tree.named_node_at(position);
        if tree.kind_is(n, "identifier") {
            return match self.identifier_reference_name(n) {
                Some(name) => Some(
                    PrepareRenameTarget { range: self.syntax.range_for(n), placeholder: name.to_owned() },
                ),
                None => None,
            };
        }
        if tree.kind_is(n, "prompt_block") {
            let c = match tree.child_by_field_name(n, "name") {
                Some(c) => c,
                None => {
                    return None;
                },
            };
            return match self.declared_prompt(c) {
                Some(i) => Some(
                    PrepareRenameTarget {
                        range: self.syntax.range_for(c),
                        placeholder: self.symbols[i].name.clone(),
                    },
                ),
                None => None,
            };
        }
        if tree.kind_is(n, "string_literal") {
            let q = match tree.parent(n) {
                Some(q) => q,
                None => {
                    return None;
                },
            };
            if tree.kind_is(q, "prompt_block") && tree.child_by_field_name(q, "name") == Some(n) {
                return match self.declared_prompt(n) {
                    Some(i) => Some(
                        PrepareRenameTarget {
                            range: self.syntax.range_for(n),
                            placeholder: self.symbols[i].name.clone(),
                        },
                    ),
                    None => None,
                };
            }
        }
        None
    }

    /// Returns all reference targets related to the symbol under the cursor:
    /// the prompt declaration first when `include_declaration` holds, then
    /// every dependency-expression reference in document order.
    pub fn references(&self, position: TextPosition, include_declaration: bool) -> (res: Vec<
        ReferenceTarget,
    >)
        ensures
            target_ranges(res@) == references_at(
                self.spec_source(),
                self.spec_nodes(),
                self.spec_symbols(),
                position,
                include_declaration,
            ),
    {
        let mut references: Vec<ReferenceTarget> = Vec::new();
        let name = match self.prompt_name(position) {
            Some(name) => chars_of(name),
            None => {
                assert(references@.map_values(|t: ReferenceTarget| t.spec_range()) =~= Seq::empty());
                return references;
            },
        };
        if include_declaration {
            if let Some(i) = find_prompt_symbol(&self.symbols, &name) {
                references.push(ReferenceTarget { range: self.symbols[i].selection_range });
            }
        }
        let ghost declaration = references@.map_values(|t: ReferenceTarget| t.spec_range());
        let tree = self.syntax.tree();
        let count = tree.len();
        let mut n: usize = 0;
        assert(references@.map_values(|t: ReferenceTarget| t.spec_range()) =~= declaration
            + reference_ranges(self.spec_source(), self.spec_nodes(), name@, 0));
        while n < count
            invariant
                count == self.spec_nodes().len(),
                tree.spec_nodes() == self.spec_nodes(),
                0 <= n <= count,
                references@.map_values(|t: ReferenceTarget| t.spec_range()) == declaration
                    + reference_ranges(self.spec_source(), self.spec_nodes(), name@, n as int),
            decreases count - n,
        {
            let ghost before = references@;
            if tree.kind_is(n, "identifier") {
                if let Some(text) = self.identifier_reference_name(n) {
                    if str_eq_chars(text, &name) {
                        let target = ReferenceTarget { range: self.syntax.range_for(n) };
                        references.push(target);
                        assert(references@.map_values(|t: ReferenceTarget| t.spec_range())
                            =~= before.map_values(|t: ReferenceTarget| t.spec_range()).push(
                            target.range,
                        ));
                    }
                }
            }
            assert(references@.map_values(|t: ReferenceTarget| t.spec_range()) =~= declaration
                + reference_ranges(self.spec_source(), self.spec_nodes(), name@, n + 1));
            n = n + 1;
        }
        references
    }
}

/// Whether a string slice spells out a vector of characters.
fn str_eq_chars(s: &str, a: &Vec<char>) -> (res: bool)
    ensures
        res == (s@ == a@),
{
    chars_eq_str(a, s)
}

/// The first root child that is a prompt block spanning `range`.
pub open spec fn block_with_range(nodes: Seq<SyntaxNode>, kids: Seq<usize>, range: TextRange) -> Option<
    usize,
>
    decreases kids.len(),
{
    if kids.len() == 0 {
        None
    } else if 0 <= kids[0] < nodes.len() && nodes[kids[0] as int].kind@ == "prompt_block"@
        && nodes[kids[0] as int].range == range {
        Some(kids[0])
    } else {
        block_with_range(nodes, kids.drop_first(), range)
    }
}

/// The ranges of the validate blocks among `kids`, in order.
pub open spec fn validate_ranges(nodes: Seq<SyntaxNode>, kids: Seq<usize>) -> Seq<TextRange>
    decreases kids.len(),
{
    if kids.len() == 0 {
        Seq::empty()
    } else {
        let prev = validate_ranges(nodes, kids.drop_last());
        let c = kids.last() as int;
        if 0 <= c < nodes.len() && nodes[c].kind@ == "validate_block"@ {
            prev.push(nodes[c].range)
        } else {
            prev
        }
    }
}

/// Whether `s` is a childless symbol with the given fields.
pub open spec fn is_leaf_symbol(
    s: Symbol,
    name: Seq<char>,
    kind: SymbolKind,
    range: TextRange,
) -> bool {
    &&& s.spec_name() == name
    &&& s.spec_detail() is None
    &&& s.spec_kind() == kind
    &&& s.spec_range() == range
    &&& s.spec_selection_range() == range
    &&& s.spec_children().len() == 0
}

/// Whether `s` is the symbol of the prompt `name` whose block spans
/// `range`: its selection is the prompt's name literal and its children are
/// the prompt's validate blocks.
pub open spec fn is_prompt_symbol(nodes: Seq<SyntaxNode>, s: Symbol, name: Seq<char>, range: TextRange) -> bool {
    let block = block_with_range(nodes, nodes[0].children@, range);
    let selection = match block {
        Some(b) => match field_child(nodes, b as int, "name"@) {
            Some(c) => nodes[c as int].range,
            None => range,
        },
        None => range,
    };
    let validates = match block {
        Some(b) => validate_ranges(nodes, nodes[b as int].children@),
        None => Seq::empty(),
    };
    &&& s.spec_name() == name
    &&& s.spec_detail() == Some("prompt"@)
    &&& s.spec_kind() == SymbolKind::Prompt
    &&& s.spec_range() == range
    &&& s.spec_selection_range() == selection
    &&& s.spec_children().len() == validates.len()
    &&& forall|k: int|
        0 <= k < validates.len() ==> is_leaf_symbol(
            #[trigger] s.spec_children()[k],
            "validate"@,
            SymbolKind::Validate,
            validates[k],
        )
}

/// The symbols of a document: the blueprint block (when recovered) followed
/// by one symbol per prompt, in source order.
pub open spec fn symbols_of(nodes: Seq<SyntaxNode>, outline: OutlineView, symbols: Seq<Symbol>) -> bool {
    let offset: int = if outline.0 is Some { 1 } else { 0 };
    &&& symbols.len() == offset + outline.1.len()
    &&& outline.0 matches Some(r) ==> is_leaf_symbol(
        symbols[0],
        "blueprint"@,
        SymbolKind::Blueprint,
        r,
    )
    &&& forall|i: int|
        0 <= i < outline.1.len() ==> is_prompt_symbol(
            nodes,
            #[trigger] symbols[offset + i],
            outline.1[i].0,
            outline.1[i].1,
        )
}

/// The first root child that is a prompt block spanning `range`.
fn prompt_block_for_range(syntax: &SourceTree, range: TextRange) -> (res: Option<usize>)
    ensures
        res == block_with_range(syntax.spec_nodes(), syntax.spec_nodes()[0].children@, range),
        res matches Some(b) ==> b < syntax.spec_nodes().len(),
{
    let tree = syntax.tree();
    tree.reveal_wf();
    let ghost nodes = tree.spec_nodes();
    let ghost kids = nodes[0].children@;
    let root = tree.node(0);
    let mut k: usize = 0;
    assert(kids.skip(0) =~= kids);
    while k < root.children.len()
        invariant
            nodes == syntax.spec_nodes(),
            nodes == tree.spec_nodes(),
            nodes_wf(nodes),
            *root == nodes[0],
            kids == nodes[0].children@,
            0 <= k <= kids.len(),
            block_with_range(nodes, kids, range) == block_with_range(nodes, kids.skip(k as int), range),
        decreases kids.len() - k,
    {
        let c = root.children[k];
        assert(c == nodes[0int].children@[k as int]);
        assert(0 < c < nodes.len());
        assert(kids.skip(k as int).drop_first() =~= kids.skip(k + 1));
        assert(kids.skip(k as int)[0] == c);
        if tree.kind_is(c, "prompt_block") && syntax.range_for(c) == range {
            return Some(c);
        }
        k = k + 1;
    }
    assert(kids.skip(k as int).len() == 0);
    None
}

/// Symbols for the validate blocks among the children of `node`.
fn collect_prompt_children(syntax: &SourceTree, node: usize) -> (res: Vec<Symbol>)
    requires
        node < syntax.spec_nodes().len(),
    ensures
        ({
            let validates = validate_ranges(syntax.spec_nodes(), syntax.spec_nodes()[node as int].children@);
            &&& res@.len() == validates.len()
            &&& forall|k: int|
                0 <= k < validates.len() ==> is_leaf_symbol(
                    #[trigger] res@[k],
                    "validate"@,
                    SymbolKind::Validate,
                    validates[k],
                )
        }),
{
    let tree = syntax.tree();
    tree.reveal_wf();
    let ghost nodes = tree.spec_nodes();
    let ghost kids = nodes[node as int].children@;
    let record = tree.node(node);
    let mut children: Vec<Symbol> = Vec::new();
    let mut k: usize = 0;
    while k < record.children.len()
        invariant
            nodes == syntax.spec_nodes(),
            nodes == tree.spec_nodes(),
            nodes_wf(nodes),
            node < nodes.len(),
            *record == nodes[node as int],
            kids == nodes[node as int].children@,
            0 <= k <= kids.len(),
            children@.len() == validate_ranges(nodes, kids.take(k as int)).len(),
            forall|j: int|
                0 <= j < children@.len() ==> is_leaf_symbol(
                    #[trigger] children@[j],
                    "validate"@,
                    SymbolKind::Validate,
                    validate_ranges(nodes, kids.take(k as int))[j],
                ),
        decreases kids.len() - k,
    {
        let c = record.children[k];
        assert(c == nodes[node as int].children@[k as int]);
        assert(node < c < nodes.len());
        assert(kids.take(k + 1).drop_last() =~= kids.take(k as int));
        if tree.kind_is(c, "validate_block") {
            let range = syntax.range_for(c);
            children.push(
                Symbol {
                    name: "validate".to_owned(),
                    detail: None,
                    kind: SymbolKind::Validate,
                    range,
                    selection_range: range,
                    children: Vec::new(),
                },
            );
        }
        k = k + 1;
    }
    assert(kids.take(k as int) =~= kids);
    children
}

/// The document symbol of one prompt.
fn prompt_symbol(syntax: &SourceTree, name: &String, range: TextRange) -> (res: Symbol)
    ensures
        is_prompt_symbol(syntax.spec_nodes(), res, name@, range),
{
    let tree = syntax.tree();
    tree.reveal_wf();
    let block = prompt_block_for_range(syntax, range);
    let selection_range = match block {
        Some(b) => match tree.child_by_field_name(b, "name") {
            Some(c) => syntax.range_for(c),
            None => range,
        },
        None => range,
    };
    let children = match block {
        Some(b) => collect_prompt_children(syntax, b),
        None => Vec::new(),
    };
    Symbol {
        name: name.clone(),
        detail: Some("prompt".to_owned()),
        kind: SymbolKind::Prompt,
        range,
        selection_range,
        children,
    }
}

/// The document symbols for a syntax tree and its recovered outline.
fn collect_symbols(syntax: &SourceTree, outline: &Outline) -> (res: Vec<Symbol>)
    ensures
        symbols_of(syntax.spec_nodes(), outline_view(Some(*outline))->0, res@),
{
    let ghost view = outline_view(Some(*outline))->0;
    let mut symbols: Vec<Symbol> = Vec::new();
    if let Some(range) = outline.blueprint {
        symbols.push(
            Symbol {
                name: "blueprint".to_owned(),
                detail: None,
                kind: SymbolKind::Blueprint,
                range,
                selection_range: range,
                children: Vec::new(),
            },
        );
    }
    let ghost offset: int = if view.0 is Some { 1 } else { 0 };
    let mut i: usize = 0;
    while i < outline.prompts.len()
        invariant
            view == outline_view(Some(*outline))->0,
            offset == (if view.0 is Some { 1int } else { 0 }),
            0 <= i <= outline.prompts@.len(),
            symbols@.len() == offset + i,
            view.0 matches Some(r) ==> is_leaf_symbol(
                symbols@[0],
                "blueprint"@,
                SymbolKind::Blueprint,
                r,
            ),
            forall|j: int|
                0 <= j < i ==> is_prompt_symbol(
                    syntax.spec_nodes(),
                    #[trigger] symbols@[offset + j],
                    view.1[j].0,
                    view.1[j].1,
                ),
        decreases outline.prompts@.len() - i,
    {
        let prompt = &outline.prompts[i];
        let symbol = prompt_symbol(syntax, &prompt.0, prompt.1);
        symbols.push(symbol);
        i = i + 1;
    }
    symbols
}

impl DocumentModel {
    /// The document model for a parsed source and the outline that semantic
    /// analysis recovered from it: a blueprint symbol when the outline has a
    /// blueprint, then one symbol per prompt, in outline order.
    pub fn from_outline(syntax: SourceTree, outline: &Outline) -> (res: DocumentModel)
        ensures
            res.spec_source() == syntax.spec_source(),
            res.spec_nodes() == syntax.spec_nodes(),
            symbols_of(res.spec_nodes(), outline_view(Some(*outline))->0, res.spec_symbols()),
    {
        let symbols = collect_symbols(&syntax, outline);
        DocumentModel { syntax, symbols }
    }
}

/// Builds editor features for a single Achitek source document.
///
/// Fails with [`TreeError::Parse`] exactly when the source cannot be parsed
/// (analysis then fails too), and with [`TreeError::MalformedTree`] when the
/// byte extent of some node of the parser's tree is not a slice of the
/// source. Otherwise the model holds the parser's tree, copied node for node.
pub fn build(source: &str) -> (res: Result<DocumentModel, TreeError>)
    ensures
        res matches Err(TreeError::Parse) <==> !achitek_parses(source@),
        res is Ok <==> achitek_parses(source@) && records_fit(source@, achitek_nodes(source@)),
        res matches Ok(model) ==> copied_tree(model.spec_nodes(), achitek_nodes(source@)),
        achitek_outline(source@) is None ==> res is Err,
        res matches Ok(model) ==> {
            &&& model.spec_source() == source@
            &&& achitek_outline(source@) matches Some(outline)
            &&& symbols_of(model.spec_nodes(), outline, model.spec_symbols())
        },
{
    let tree = match parse_syntax_tree(source) {
        Ok(tree) => tree,
        Err(e) => {
            return Err(e);
        },
    };
    let ghost records = achitek_nodes(source@);
    let ghost nodes = tree.spec_nodes();
    assert forall|i: int| 0 <= i < nodes.len() implies #[trigger] node_fits(source@, nodes[i])
        == extent_fits(source@, records[i].start_byte, records[i].end_byte) by {
        assert(node_copies(nodes[i], records[i]));
    }
    let syntax = match SourceTree::new(source.to_owned(), tree) {
        Some(syntax) => syntax,
        None => {
            assert(!records_fit(source@, records)) by {
                let i = choose|i: int| 0 <= i < nodes.len() && !#[trigger] node_fits(source@, nodes[i]);
                assert(!extent_fits(source@, records[i].start_byte, records[i].end_byte));
            }
            return Err(TreeError::MalformedTree);
        },
    };
    assert(records_fit(source@, records)) by {
        assert forall|i: int| 0 <= i < records.len() implies extent_fits(
            source@,
            #[trigger] records[i].start_byte,
            records[i].end_byte,
        ) by {
            assert(node_fits(source@, nodes[i]));
        }
    }
    let outline = match analyze_outline(source) {
        Some(outline) => outline,
        None => {
            return Err(TreeError::Parse);
        },
    };
    Ok(DocumentModel::from_outline(syntax, &outline))
}


/// The symbol that [`find_prompt`] finds is a prompt with that name.
proof fn lemma_find_prompt_name(symbols: Seq<Symbol>, name: Seq<char>, i: int)
    requires
        find_prompt(symbols, name) == Some(i),
    ensures
        0 <= i < symbols.len(),
        symbols[i].spec_name() == name,
        symbols[i].spec_kind() == SymbolKind::Prompt,
    decreases symbols.len(),
{
    if symbols.len() > 0 {
        if find_prompt(symbols.drop_last(), name) is Some {
            lemma_find_prompt_name(symbols.drop_last(), name, i);
        }
    }
}

/// With no prompt named `name` among `symbols`, the lookup finds none.
proof fn lemma_find_prompt_none(symbols: Seq<Symbol>, name: Seq<char>)
    requires
        forall|j: int|
            0 <= j < symbols.len() ==> !(#[trigger] symbols[j].spec_kind() == SymbolKind::Prompt
                && symbols[j].spec_name() == name),
    ensures
        find_prompt(symbols, name) is None,
    decreases symbols.len(),
{
    if symbols.len() > 0 {
        let rest = symbols.drop_last();
        assert forall|j: int| 0 <= j < rest.len() implies !(#[trigger] rest[j].spec_kind() == SymbolKind::Prompt
            && rest[j].spec_name() == name) by {
            assert(rest[j] == symbols[j]);
        }
        lemma_find_prompt_none(rest, name);
        assert(symbols.last() == symbols[symbols.len() - 1]);
    }
}

/// The lookup of `name` finds the first prompt declared with that name.
proof fn lemma_find_prompt_first(symbols: Seq<Symbol>, name: Seq<char>, i: int)
    requires
        0 <= i < symbols.len(),
        symbols[i].spec_kind() == SymbolKind::Prompt,
        symbols[i].spec_name() == name,
        forall|j: int|
            0 <= j < i ==> !(#[trigger] symbols[j].spec_kind() == SymbolKind::Prompt && symbols[j].spec_name()
                == name),
    ensures
        find_prompt(symbols, name) == Some(i),
    decreases symbols.len(),
{
    let rest = symbols.drop_last();
    if i == symbols.len() - 1 {
        assert forall|j: int| 0 <= j < rest.len() implies !(#[trigger] rest[j].spec_kind() == SymbolKind::Prompt
            && rest[j].spec_name() == name) by {
            assert(rest[j] == symbols[j]);
        }
        lemma_find_prompt_none(rest, name);
    } else {
        assert forall|j: int| 0 <= j < i implies !(#[trigger] rest[j].spec_kind() == SymbolKind::Prompt
            && rest[j].spec_name() == name) by {
            assert(rest[j] == symbols[j]);
        }
        assert(rest[i] == symbols[i]);
        lemma_find_prompt_first(rest, name, i);
    }
}

/// Whether field `field` of a node of kind `kind` names a prompt in a
/// dependency expression: the `reference` of a simple dependency, the
/// `left` operand of a comparison, or the `receiver` of a method call.
pub open spec fn dependency_name_field(kind: Seq<char>, field: Seq<char>) -> bool {
    ||| kind == "simple_dependency"@ && field == "reference"@
    ||| kind == "comparison_dependency"@ && field == "left"@
    ||| kind == "method_call_dependency"@ && field == "receiver"@
}

/// An identifier that a dependency expression names a prompt with is a
/// reference site.
proof fn lemma_dependency_field_is_reference_site(nodes: Seq<SyntaxNode>, n: int, q: usize, kind: Seq<char>, field: Seq<char>)
    requires
        dependency_name_field(kind, field),
        nodes[n].parent == Some(q),
        nodes[q as int].kind@ == kind,
        field_child(nodes, q as int, field) == Some(n as usize),
    ensures
        is_reference_site(nodes, n),
{
    reveal_strlit("simple_dependency");
    reveal_strlit("comparison_dependency");
    reveal_strlit("method_call_dependency");
    if kind == "comparison_dependency"@ {
        assert(kind[0] != "simple_dependency"@[0]);
    }
    if kind == "method_call_dependency"@ {
        assert(kind[0] != "simple_dependency"@[0]);
        assert(kind[0] != "comparison_dependency"@[0]);
    }
}

/// Go to definition on an identifier that a dependency expression names a
/// prompt with (a simple dependency's `reference`, a comparison's `left`
/// operand, a method call's `receiver`) lands on the first prompt declared
/// with the identifier's text: its block range and its name range.
pub proof fn lemma_dependency_reference_definition(
    source: Seq<char>,
    nodes: Seq<SyntaxNode>,
    symbols: Seq<Symbol>,
    position: TextPosition,
    q: usize,
    kind: Seq<char>,
    field: Seq<char>,
    i: int,
)
    requires
        dependency_name_field(kind, field),
        nodes[named_node_at(nodes, position)].kind@ == "identifier"@,
        nodes[named_node_at(nodes, position)].parent == Some(q),
        nodes[q as int].kind@ == kind,
        field_child(nodes, q as int, field) == Some(named_node_at(nodes, position) as usize),
        0 <= i < symbols.len(),
        symbols[i].spec_kind() == SymbolKind::Prompt,
        symbols[i].spec_name() == node_text(source, nodes[named_node_at(nodes, position)]),
        forall|j: int|
            0 <= j < i ==> !(#[trigger] symbols[j].spec_kind() == SymbolKind::Prompt && symbols[j].spec_name()
                == symbols[i].spec_name()),
    ensures
        definition_at(source, nodes, symbols, position) == Some(
            (symbols[i].spec_range(), symbols[i].spec_selection_range()),
        ),
{
    lemma_find_prompt_first(symbols, symbols[i].spec_name(), i);
    lemma_dependency_field_is_reference_site(nodes, named_node_at(nodes, position), q, kind, field);
}

/// Every identifier that a dependency expression names a prompt with is
/// listed among the references, up to `upto`, to the prompt of its text.
pub proof fn lemma_dependency_reference_listed(
    source: Seq<char>,
    nodes: Seq<SyntaxNode>,
    n: int,
    q: usize,
    kind: Seq<char>,
    field: Seq<char>,
    upto: int,
)
    requires
        dependency_name_field(kind, field),
        0 <= n < upto,
        nodes[n].kind@ == "identifier"@,
        nodes[n].parent == Some(q),
        nodes[q as int].kind@ == kind,
        field_child(nodes, q as int, field) == Some(n as usize),
    ensures
        reference_ranges(source, nodes, node_text(source, nodes[n]), upto).contains(nodes[n].range),
    decreases upto,
{
    let name = node_text(source, nodes[n]);
    let prev = reference_ranges(source, nodes, name, upto - 1);
    lemma_dependency_field_is_reference_site(nodes, n, q, kind, field);
    if n == upto - 1 {
        assert(reference_ranges(source, nodes, name, upto)[prev.len() as int] == nodes[n].range);
    } else {
        lemma_dependency_reference_listed(source, nodes, n, q, kind, field, upto - 1);
        let k = choose|k: int| 0 <= k < prev.len() && prev[k] == nodes[n].range;
        assert(reference_ranges(source, nodes, name, upto)[k] == nodes[n].range);
    }
}

/// Asking for the references of a prompt lists every identifier of the
/// document that a dependency expression names that prompt with.
pub proof fn lemma_dependency_reference_in_references(
    source: Seq<char>,
    nodes: Seq<SyntaxNode>,
    symbols: Seq<Symbol>,
    position: TextPosition,
    include_declaration: bool,
    n: int,
    q: usize,
    kind: Seq<char>,
    field: Seq<char>,
)
    requires
        dependency_name_field(kind, field),
        0 <= n < nodes.len(),
        nodes[n].kind@ == "identifier"@,
        nodes[n].parent == Some(q),
        nodes[q as int].kind@ == kind,
        field_child(nodes, q as int, field) == Some(n as usize),
        symbol_name_at(source, nodes, symbols, position) == Some(node_text(source, nodes[n])),
    ensures
        references_at(source, nodes, symbols, position, include_declaration).contains(nodes[n].range),
{
    let name = node_text(source, nodes[n]);
    lemma_dependency_reference_listed(source, nodes, n, q, kind, field, nodes.len() as int);
    let refs = reference_ranges(source, nodes, name, nodes.len() as int);
    let k = choose|k: int| 0 <= k < refs.len() && refs[k] == nodes[n].range;
    let all = references_at(source, nodes, symbols, position, include_declaration);
    let head = all.len() - refs.len();
    assert(all[head + k] == nodes[n].range);
}

/// Going to the definition of a prompt reference lands on the declaration
/// that heads the reference list of the same position.
pub proof fn lemma_definition_heads_references(
    source: Seq<char>,
    nodes: Seq<SyntaxNode>,
    symbols: Seq<Symbol>,
    p: TextPosition,
)
    ensures
        definition_at(source, nodes, symbols, p) matches Some(target) ==> {
            let refs = references_at(source, nodes, symbols, p, true);
            refs.len() > 0 && refs[0] == target.1
        },
{
    if let Some(target) = definition_at(source, nodes, symbols, p) {
        let n = named_node_at(nodes, p);
        let name = reference_name(source, nodes, n)->0;
        let i = find_prompt(symbols, name)->0;
        assert(symbol_name_at(source, nodes, symbols, p) == Some(name));
        let refs = references_at(source, nodes, symbols, p, true);
        assert(refs == seq![symbols[i].spec_selection_range()] + reference_ranges(
            source,
            nodes,
            name,
            nodes.len() as int,
        ));
    }
}

/// Rename can be prepared exactly where there is a prompt name under the
/// cursor, and its placeholder is that name.
pub proof fn lemma_rename_placeholder_is_prompt_name(
    source: Seq<char>,
    nodes: Seq<SyntaxNode>,
    symbols: Seq<Symbol>,
    p: TextPosition,
)
    ensures
        match rename_target_at(source, nodes, symbols, p) {
            Some(target) => symbol_name_at(source, nodes, symbols, p) == Some(target.1),
            None => symbol_name_at(source, nodes, symbols, p) is None,
        },
{
}

/// Asking for references with the declaration adds at most the declaration,
/// in front of the references found without it.
pub proof fn lemma_declaration_leads_references(
    source: Seq<char>,
    nodes: Seq<SyntaxNode>,
    symbols: Seq<Symbol>,
    p: TextPosition,
)
    ensures
        ({
            let with = references_at(source, nodes, symbols, p, true);
            let without = references_at(source, nodes, symbols, p, false);
            with == without || (with.len() == without.len() + 1 && with.drop_first() == without)
        }),
{
    let with = references_at(source, nodes, symbols, p, true);
    let without = references_at(source, nodes, symbols, p, false);
    if let Some(name) = symbol_name_at(source, nodes, symbols, p) {
        let rs = reference_ranges(source, nodes, name, nodes.len() as int);
        assert(without =~= Seq::<TextRange>::empty() + rs);
        if let Some(i) = find_prompt(symbols, name) {
            assert((seq![symbols[i].spec_selection_range()] + rs).drop_first() =~= rs);
        } else {
            assert(with =~= without);
        }
    }
}

/// Every candidate selection range of a symbol contains the position.
pub proof fn lemma_symbol_candidates_contain(s: Symbol, position: TextPosition)
    ensures
        forall|i: int|
            0 <= i < symbol_candidates(s, position).len() ==> range_contains(
                #[trigger] symbol_candidates(s, position)[i],
                position,
            ),
    decreases s, 1nat,
{
    lemma_symbols_candidates_contain(s.spec_children(), position);
    let own = (if range_contains(s.spec_selection_range(), position) {
        seq![s.spec_selection_range()]
    } else {
        Seq::empty()
    }) + (if range_contains(s.spec_range(), position) {
        seq![s.spec_range()]
    } else {
        Seq::empty()
    });
    let rest = symbols_candidates(s.spec_children(), position);
    let all = symbol_candidates(s, position);
    assert(all == own + rest);
    assert forall|i: int| 0 <= i < all.len() implies range_contains(#[trigger] all[i], position) by {
        if i < own.len() {
            assert(all[i] == own[i]);
        } else {
            assert(all[i] == rest[i - own.len()]);
        }
    }
}

/// Every candidate selection range of a list of symbols contains the
/// position.
pub proof fn lemma_symbols_candidates_contain(list: Seq<Symbol>, position: TextPosition)
    ensures
        forall|i: int|
            0 <= i < symbols_candidates(list, position).len() ==> range_contains(
                #[trigger] symbols_candidates(list, position)[i],
                position,
            ),
    decreases list, 0nat,
{
    if list.len() > 0 {
        lemma_symbols_candidates_contain(list.drop_last(), position);
        lemma_symbol_candidates_contain(list.last(), position);
        let prev = symbols_candidates(list.drop_last(), position);
        let last = symbol_candidates(list.last(), position);
        let all = symbols_candidates(list, position);
        assert(all == prev + last);
        assert forall|i: int| 0 <= i < all.len() implies range_contains(#[trigger] all[i], position) by {
            if i < prev.len() {
                assert(all[i] == prev[i]);
            } else {
                assert(all[i] == last[i - prev.len()]);
            }
        }
    }
}

} // verus!
