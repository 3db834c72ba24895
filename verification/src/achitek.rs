//! The boundary to the `achitekfile` parser.
//!
//! The Tree-sitter tree that `achitekfile::parse` returns is walked in
//! pre-order into plain node records, which are linked into a
//! [`SyntaxTree`] by their depths; the
//! semantic outline that `achitekfile::analyze` recovers (the blueprint block
//! and each prompt's name and range) is copied into plain values as well.

use vstd::prelude::*;

use crate::syntax::{SyntaxNode, SyntaxTree};
use crate::text::{TextPosition, TextRange};

verus! {

#[verifier::external_type_specification]
#[verifier::external_body]
pub struct ExParseError(achitekfile::ParseError);

/// Why Achitekfile source could not be turned into a syntax tree.
#[derive(Debug, Clone, Copy, PartialEq, Eq, Structural)]
pub enum TreeError {
    /// The parser could not be configured or produced no tree.
    Parse,
    /// The parser produced a tree whose records are not well formed.
    MalformedTree,
}

/// One node of a Tree-sitter tree, as a pre-order walk from the root meets
/// it.
#[derive(Debug, Clone)]
pub struct RawNode {
    /// Grammar kind of the node.
    pub kind: String,
    /// Field name under which the node sits in its parent, if any.
    pub field: Option<String>,
    /// Number of visible ancestors: 0 for the root.
    pub depth: u32,
    /// Whether the node is a named grammar node.
    pub named: bool,
    /// Whether the parser inserted the node to recover from an error.
    pub missing: bool,
    /// Whether the node stands for unparsable text.
    pub error: bool,
    /// Row where the node starts.
    pub start_row: usize,
    /// Column, in bytes, where the node starts.
    pub start_column: usize,
    /// Row where the node ends.
    pub end_row: usize,
    /// Column, in bytes, where the node ends.
    pub end_column: usize,
    /// Byte offset where the node starts.
    pub start_byte: usize,
    /// Byte offset where the node ends.
    pub end_byte: usize,
}

/// The value of a node record, with texts as character sequences and the
/// extent as a [`TextRange`].
pub struct RawNodeView {
    pub kind: Seq<char>,
    pub field: Option<Seq<char>>,
    pub depth: u32,
    pub named: bool,
    pub missing: bool,
    pub error: bool,
    pub range: TextRange,
    pub start_byte: usize,
    pub end_byte: usize,
}

/// The text of an optional string.
pub open spec fn opt_text(o: Option<String>) -> Option<Seq<char>> {
    match o {
        Some(s) => Some(s@),
        None => None,
    }
}

impl View for RawNode {
    type V = RawNodeView;

    open spec fn view(&self) -> RawNodeView {
        RawNodeView {
            kind: self.kind@,
            field: opt_text(self.field),
            depth: self.depth,
            named: self.named,
            missing: self.missing,
            error: self.error,
            range: TextRange {
                start: TextPosition { line: self.start_row, byte: self.start_column },
                end: TextPosition { line: self.end_row, byte: self.end_column },
            },
            start_byte: self.start_byte,
            end_byte: self.end_byte,
        }
    }
}

/// The values of a sequence of node records.
pub open spec fn raw_views(nodes: Seq<RawNode>) -> Seq<RawNodeView> {
    nodes.map_values(|n: RawNode| n@)
}

/// Whether depths describe a pre-order walk of one tree: the first record
/// is the root at depth 0, and every later record lies below the root, at
/// most one level deeper than the record before it.
pub open spec fn depths_wf(records: Seq<RawNodeView>) -> bool {
    &&& records.len() > 0
    &&& records[0].depth == 0
    &&& forall|i: int|
        0 < i < records.len() ==> 1 <= #[trigger] records[i].depth <= records[i - 1].depth + 1
}

/// Whether `achitekfile::parse` produces a tree for `source`. It fails only
/// when the parser cannot be configured with the grammar or produces no
/// tree, and neither depends on anything but the source text.
pub uninterp spec fn achitek_parses(source: Seq<char>) -> bool;

/// The nodes of the tree that `achitekfile::parse` builds for `source`, in
/// the pre-order in which a Tree-sitter cursor walks them from the root.
pub uninterp spec fn achitek_nodes(source: Seq<char>) -> Seq<RawNodeView>;

/// Calls `achitekfile::parse` and walks the tree with a `TreeCursor` in
/// pre-order, recording each node with its field name and cursor depth.
/// States that a tree comes back exactly when [`achitek_parses`] holds, that
/// the records are [`achitek_nodes`], and that their depths are those of a
/// pre-order walk: the cursor starts at the root at depth 0, moving to a
/// first child adds one level, moving to a sibling keeps the level, and the
/// walk ends when the cursor cannot climb above the root.
#[verifier::external_body]
fn parse_nodes(source: &str) -> (res: Result<Vec<RawNode>, achitekfile::ParseError>)
    ensures
        res is Ok == achitek_parses(source@),
        res matches Ok(nodes) ==> raw_views(nodes@) == achitek_nodes(source@),
        res matches Ok(nodes) ==> depths_wf(raw_views(nodes@)),
{
    let tree = achitekfile::parse(source)?;
    let mut cursor = tree.walk();
    let mut nodes = vec![];
    loop {
        let n = cursor.node();
        nodes.push(RawNode { kind: n.kind().to_owned(), field: cursor.field_name().map(str::to_owned), depth: cursor.depth(),
            named: n.is_named(), missing: n.is_missing(), error: n.is_error(), start_row: n.start_position().row,
            start_column: n.start_position().column, end_row: n.end_position().row, end_column: n.end_position().column,
            start_byte: n.start_byte(), end_byte: n.end_byte() });
        if !cursor.goto_first_child() {
            while !cursor.goto_next_sibling() {
                if !cursor.goto_parent() { return Ok(nodes); }
            }
        }
    }
}

/// The part of `achitekfile`'s semantic analysis that editor features use:
/// the range of the blueprint block, and each prompt's name and range in
/// source order.
#[derive(Debug)]
pub struct Outline {
    /// Range of the blueprint block, when one was recovered.
    pub blueprint: Option<TextRange>,
    /// Name and block range of each recovered prompt.
    pub prompts: Vec<(String, TextRange)>,
}

/// The value of an outline: blueprint range and prompt names with ranges.
pub type OutlineView = (Option<TextRange>, Seq<(Seq<char>, TextRange)>);

/// The outline of an analysis result, `None` when analysis failed.
pub open spec fn outline_view(outline: Option<Outline>) -> Option<OutlineView> {
    match outline {
        Some(o) => Some(
            (o.blueprint, o.prompts@.map_values(|p: (String, TextRange)| (p.0@, p.1))),
        ),
        None => None,
    }
}

/// What `achitekfile::analyze` recovers from `source`: `None` when analysis
/// cannot run, otherwise the blueprint range and the prompts' names and
/// ranges in source order.
pub uninterp spec fn achitek_outline(source: Seq<char>) -> Option<OutlineView>;

/// Calls `achitekfile::analyze` and keeps, of a successful result, the range
/// of the blueprint block and the name and range of every prompt, in the
/// order that `AchitekFile::prompts` lists them. The result is a function of
/// the source text alone. Analysis parses the source with
/// `achitekfile::parse` and fails exactly when that parse fails.
#[verifier::external_body]
pub fn analyze_outline(source: &str) -> (res: Option<Outline>)
    ensures
        outline_view(res) == achitek_outline(source@),
        res is Some == achitek_parses(source@),
{
    let analysis = achitekfile::analyze(source).ok()?;
    let range = |r: achitekfile::TextRange| TextRange {
        start: TextPosition { line: r.start.line, byte: r.start.byte },
        end: TextPosition { line: r.end.line, byte: r.end.byte },
    };
    let file = analysis.file();
    let prompts = file.prompts().iter().map(|p| (p.value.name.clone(), range(p.range))).collect();
    Some(Outline { blueprint: file.blueprint().range.map(range), prompts })
}

/// The last record before index `i` at depth `d`.
pub open spec fn last_at_depth(records: Seq<RawNodeView>, i: int, d: int) -> Option<int>
    decreases i,
{
    if i <= 0 {
        None
    } else if records[i - 1].depth == d {
        Some(i - 1)
    } else {
        last_at_depth(records, i - 1, d)
    }
}

/// The parent of record `i`: the last record before it one level up, and
/// none for a record at depth 0.
pub open spec fn record_parent(records: Seq<RawNodeView>, i: int) -> Option<usize> {
    if records[i].depth == 0 {
        None
    } else {
        match last_at_depth(records, i, records[i].depth - 1) {
            Some(j) => Some(j as usize),
            None => None,
        }
    }
}

/// The children of record `p` among the first `n` records, in order.
pub open spec fn record_children(records: Seq<RawNodeView>, p: int, n: int) -> Seq<usize>
    decreases n,
{
    if n <= 0 {
        Seq::empty()
    } else if record_parent(records, n - 1) == Some(p as usize) {
        record_children(records, p, n - 1).push((n - 1) as usize)
    } else {
        record_children(records, p, n - 1)
    }
}

/// Whether a syntax node holds what a record says of one node.
pub open spec fn node_copies(node: SyntaxNode, record: RawNodeView) -> bool {
    &&& node.kind@ == record.kind
    &&& opt_text(node.field) == record.field
    &&& node.named == record.named
    &&& node.missing == record.missing
    &&& node.error == record.error
    &&& node.range == record.range
    &&& node.start_byte == record.start_byte
    &&& node.end_byte == record.end_byte
}

/// Whether `nodes` is the tree that pre-order `records` describe: one node
/// per record, holding its values, linked to the parent that the depths give
/// and to its children in order.
pub open spec fn copied_tree(nodes: Seq<SyntaxNode>, records: Seq<RawNodeView>) -> bool {
    &&& nodes.len() == records.len()
    &&& forall|i: int|
        0 <= i < nodes.len() ==> {
            &&& node_copies(#[trigger] nodes[i], records[i])
            &&& nodes[i].parent == record_parent(records, i)
            &&& nodes[i].children@ == record_children(records, i, records.len() as int)
        }
}

/// A record before index `i` at depth `d` lies before `i`.
proof fn lemma_last_at_depth_before(records: Seq<RawNodeView>, i: int, d: int)
    ensures
        last_at_depth(records, i, d) matches Some(j) ==> 0 <= j < i,
    decreases i,
{
    if i > 0 {
        lemma_last_at_depth_before(records, i - 1, d);
    }
}

/// No record at or before `p` is a child of `p`.
proof fn lemma_no_early_children(records: Seq<RawNodeView>, p: int, n: int)
    requires
        0 <= n <= p + 1,
        p <= usize::MAX,
        n <= records.len(),
    ensures
        record_children(records, p, n) == Seq::<usize>::empty(),
    decreases n,
{
    if n > 0 {
        lemma_no_early_children(records, p, n - 1);
        let k = n - 1;
        if records[k].depth != 0 {
            lemma_last_at_depth_before(records, k, records[k].depth - 1);
        }
    }
}

/// Builds the syntax tree that pre-order node records describe, or returns
/// `None` when their depths do not describe one tree.
#[verifier::rlimit(50)]
pub fn tree_from_records(records: &Vec<RawNode>) -> (res: Option<SyntaxTree>)
    ensures
        res is Some <==> depths_wf(raw_views(records@)),
        res matches Some(t) ==> copied_tree(t.spec_nodes(), raw_views(records@)),
{
    let ghost view = raw_views(records@);
    let n = records.len();
    if n == 0 || records[0].depth != 0 {
        return None;
    }
    let mut nodes: Vec<SyntaxNode> = Vec::new();
    let mut stack: Vec<usize> = Vec::new();
    let mut i: usize = 0;
    while i < n
        invariant
            view == raw_views(records@),
            n == records@.len() == view.len(),
            0 <= i <= n,
            view[0].depth == 0,
            nodes@.len() == i,
            forall|j: int| 0 < j < i ==> 1 <= #[trigger] view[j].depth <= view[j - 1].depth + 1,
            i == 0 ==> stack@.len() == 0,
            i > 0 ==> stack@.len() == view[i - 1].depth + 1,
            forall|k: int|
                0 <= k < stack@.len() ==> last_at_depth(view, i as int, k) == Some(#[trigger] stack@[k] as int),
            forall|k: int| 0 <= k < stack@.len() ==> #[trigger] stack@[k] < i,
            forall|j: int|
                0 <= j < i ==> {
                    &&& node_copies(#[trigger] nodes@[j], view[j])
                    &&& nodes@[j].parent == record_parent(view, j)
                    &&& nodes@[j].children@ == record_children(view, j, i as int)
                    &&& (nodes@[j].parent is None <==> j == 0)
                    &&& nodes@[j].parent matches Some(p) ==> p < j
                    &&& forall|k: int|
                        0 <= k < nodes@[j].children@.len() ==> j < #[trigger] nodes@[j].children@[k] < i
                },
        decreases n - i,
    {
        let record = &records[i];
        let d = record.depth as usize;
        assert(view[i as int] == record@);
        if i > 0 && (d == 0 || d > stack.len()) {
            return None;
        }
        stack.truncate(d);
        let ghost kept = stack@;
        let parent = if d == 0 {
            None
        } else {
            Some(stack[d - 1])
        };
        assert(parent == record_parent(view, i as int));
        let ghost before = nodes@;
        if let Some(p) = parent {
            nodes[p].children.push(i);
        }
        let field = match &record.field {
            Some(f) => Some(f.clone()),
            None => None,
        };
        nodes.push(
            SyntaxNode {
                kind: record.kind.clone(),
                field,
                parent,
                children: Vec::new(),
                named: record.named,
                missing: record.missing,
                error: record.error,
                range: TextRange {
                    start: TextPosition { line: record.start_row, byte: record.start_column },
                    end: TextPosition { line: record.end_row, byte: record.end_column },
                },
                start_byte: record.start_byte,
                end_byte: record.end_byte,
            },
        );
        stack.push(i);
        proof {
            lemma_no_early_children(view, i as int, i as int + 1);
            assert forall|j: int| 0 <= j < i + 1 implies {
                &&& node_copies(#[trigger] nodes@[j], view[j])
                &&& nodes@[j].parent == record_parent(view, j)
                &&& nodes@[j].children@ == record_children(view, j, i + 1)
                &&& (nodes@[j].parent is None <==> j == 0)
                &&& nodes@[j].parent matches Some(p) ==> p < j
                &&& forall|k: int|
                    0 <= k < nodes@[j].children@.len() ==> j < #[trigger] nodes@[j].children@[k] < i + 1
            } by {
                if j < i {
                    assert(nodes@[j] == before[j] || parent == Some(j as usize));
                }
            }
            assert forall|k: int| 0 <= k < stack@.len() implies last_at_depth(view, i + 1, k) == Some(#[trigger] stack@[k] as int) by {
                if k < d {
                    assert(stack@[k] == kept[k]);
                }
            }
        }
        i = i + 1;
    }
    proof {
        assert(depths_wf(view));
    }
    match SyntaxTree::new(nodes) {
        Some(tree) => Some(tree),
        None => None,
    }
}

/// Parses Achitekfile source and copies the Tree-sitter tree, in pre-order,
/// into a plain [`SyntaxTree`]. Fails with [`TreeError::Parse`] exactly when
/// the parser produces no tree; otherwise the result is the tree that the
/// parser's node records describe.
pub fn parse_syntax_tree(source: &str) -> (res: Result<SyntaxTree, TreeError>)
    ensures
        res is Ok <==> achitek_parses(source@),
        res matches Err(e) ==> e == TreeError::Parse,
        res matches Ok(t) ==> copied_tree(t.spec_nodes(), achitek_nodes(source@)),
{
    let records = match parse_nodes(source) {
        Ok(records) => records,
        Err(_) => {
            return Err(TreeError::Parse);
        },
    };
    match tree_from_records(&records) {
        Some(tree) => Ok(tree),
        None => Err(TreeError::MalformedTree),
    }
}

} // verus!
