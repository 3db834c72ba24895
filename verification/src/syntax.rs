//! A plain-value concrete syntax tree.
//!
//! The tree holds one record per syntax node, in pre-order (document order).
//! Every node knows its parent, its children in order, the field name under
//! which it sits in its parent, and its source extent. The navigation
//! functions here answer the questions that editor features ask of a tree.

use vstd::prelude::*;

use crate::text::{str_eq, TextPosition, TextRange};

verus! {

/// One node of a concrete syntax tree.
#[derive(Debug, Clone)]
pub struct SyntaxNode {
    /// Grammar kind, such as `prompt_block` or `identifier`.
    pub kind: String,
    /// Field name under which this node sits in its parent, if any.
    pub field: Option<String>,
    /// Index of the parent node, `None` for the root.
    pub parent: Option<usize>,
    /// Indices of the children, in source order.
    pub children: Vec<usize>,
    /// Whether the node is a named grammar node (as opposed to a token).
    pub named: bool,
    /// Whether the parser inserted this node to recover from an error.
    pub missing: bool,
    /// Whether the node stands for unparsable text.
    pub error: bool,
    /// Line/column extent of the node.
    pub range: TextRange,
    /// Byte offset where the node starts.
    pub start_byte: usize,
    /// Byte offset where the node ends.
    pub end_byte: usize,
}

/// Strict order on positions: by line, then by byte.
pub open spec fn pos_lt(a: TextPosition, b: TextPosition) -> bool {
    a.line < b.line || (a.line == b.line && a.byte < b.byte)
}

/// Non-strict order on positions.
pub open spec fn pos_le(a: TextPosition, b: TextPosition) -> bool {
    !pos_lt(b, a)
}

/// Structural well-formedness of a node sequence: it is non-empty, every
/// parent comes before its child, and every listed child comes after its
/// parent and is a node of the sequence.
pub open spec fn nodes_wf(nodes: Seq<SyntaxNode>) -> bool {
    &&& nodes.len() > 0
    &&& nodes[0].parent is None
    &&& forall|i: int|
        0 <= i < nodes.len() ==> match #[trigger] nodes[i].parent {
            Some(p) => p < i,
            None => i == 0,
        }
    &&& forall|i: int, k: int|
        0 <= i < nodes.len() && 0 <= k < nodes[i].children@.len() ==> i
            < #[trigger] nodes[i].children@[k] < nodes.len()
}

/// A concrete syntax tree whose nodes are stored in pre-order.
#[derive(Debug)]
pub struct SyntaxTree {
    nodes: Vec<SyntaxNode>,
}

/// Whether a child is passed over when looking for the node at point `p`:
/// it ends before `p`, or at `p` when it is not empty.
pub open spec fn passes_before(node: SyntaxNode, p: TextPosition) -> bool {
    if node.range.start == node.range.end {
        pos_lt(node.range.end, p)
    } else {
        pos_le(node.range.end, p)
    }
}

/// The first child in `kids` that is not passed over for point `p`.
pub open spec fn first_live_child(nodes: Seq<SyntaxNode>, kids: Seq<usize>, p: TextPosition) -> Option<
    usize,
>
    decreases kids.len(),
{
    if kids.len() == 0 {
        None
    } else if 0 <= kids[0] < nodes.len() && passes_before(nodes[kids[0] as int], p) {
        first_live_child(nodes, kids.drop_first(), p)
    } else {
        Some(kids[0])
    }
}

/// The child found by [`first_live_child`] is one of `kids`.
pub proof fn lemma_first_live_child_in(nodes: Seq<SyntaxNode>, kids: Seq<usize>, p: TextPosition)
    ensures
        first_live_child(nodes, kids, p) matches Some(c) ==> exists|k: int|
            0 <= k < kids.len() && kids[k] == c,
    decreases kids.len(),
{
    if kids.len() > 0 {
        lemma_first_live_child_in(nodes, kids.drop_first(), p);
        if let Some(c) = first_live_child(nodes, kids.drop_first(), p) {
            if first_live_child(nodes, kids, p) == Some(c) && kids[0] != c {
                let k = choose|k: int| 0 <= k < kids.drop_first().len() && kids.drop_first()[k] == c;
                assert(kids[k + 1] == c);
            }
        }
    }
}

/// Descends from node `n` toward point `p`, remembering the last named node
/// passed through (`last`).
pub open spec fn descend_to(nodes: Seq<SyntaxNode>, n: int, last: int, p: TextPosition) -> int
    decreases nodes.len() - n,
{
    if n < 0 || n >= nodes.len() {
        last
    } else {
        match first_live_child(nodes, nodes[n].children@, p) {
            Some(c) => if n < c < nodes.len() && !pos_lt(p, nodes[c as int].range.start) {
                descend_to(nodes, c as int, if nodes[c as int].named { c as int } else { last }, p)
            } else {
                last
            },
            None => last,
        }
    }
}

/// The smallest named node that contains point `p`, found the way
/// Tree-sitter finds it: descend from the root into the first child that
/// reaches past `p` and starts at or before it.
pub open spec fn named_node_at(nodes: Seq<SyntaxNode>, p: TextPosition) -> int {
    descend_to(nodes, 0, 0, p)
}

/// Whether `d` is `n` or lies below `n`.
pub open spec fn is_descendant_or_self(nodes: Seq<SyntaxNode>, n: int, d: int) -> bool
    decreases d,
{
    if d == n {
        true
    } else if d < n || d >= nodes.len() || d < 0 {
        false
    } else {
        match nodes[d].parent {
            Some(q) => q < d && is_descendant_or_self(nodes, n, q as int),
            None => false,
        }
    }
}

/// The nearest ancestor-or-self of `n` whose kind is `kind`.
pub open spec fn ancestor_of_kind(nodes: Seq<SyntaxNode>, n: int, kind: Seq<char>) -> Option<int>
    decreases n,
{
    if n < 0 || n >= nodes.len() {
        None
    } else if nodes[n].kind@ == kind {
        Some(n)
    } else {
        match nodes[n].parent {
            Some(q) => if q < n {
                ancestor_of_kind(nodes, q as int, kind)
            } else {
                None
            },
            None => None,
        }
    }
}

/// The first entry of `kids` whose node sits under field `field`.
pub open spec fn first_child_with_field(nodes: Seq<SyntaxNode>, kids: Seq<usize>, field: Seq<char>) -> Option<
    usize,
>
    decreases kids.len(),
{
    if kids.len() == 0 {
        None
    } else if 0 <= kids[0] < nodes.len() && (nodes[kids[0] as int].field matches Some(f) && f@
        == field) {
        Some(kids[0])
    } else {
        first_child_with_field(nodes, kids.drop_first(), field)
    }
}


/// The nodes of the subtree at `n` in pre-order, `n` first. With `named`,
/// only named children are descended into, the way a walk over named
/// children goes.
pub open spec fn subtree(nodes: Seq<SyntaxNode>, n: int, named: bool) -> Seq<usize>
    decreases nodes.len() - n, 1nat, 0nat,
{
    if 0 <= n < nodes.len() {
        seq![n as usize] + forest(nodes, nodes[n].children@, n, named)
    } else {
        Seq::empty()
    }
}

/// The pre-order nodes of the subtrees at `kids`, the children of `parent`.
pub open spec fn forest(nodes: Seq<SyntaxNode>, kids: Seq<usize>, parent: int, named: bool) -> Seq<
    usize,
>
    decreases nodes.len() - parent, 0nat, kids.len(),
{
    if kids.len() == 0 {
        Seq::empty()
    } else {
        let c = kids.last() as int;
        let tail = if parent < c < nodes.len() && (!named || nodes[c].named) {
            subtree(nodes, c, named)
        } else {
            Seq::empty()
        };
        forest(nodes, kids.drop_last(), parent, named) + tail
    }
}

/// The named entries of `kids`, in order.
pub open spec fn named_only(nodes: Seq<SyntaxNode>, kids: Seq<usize>) -> Seq<usize>
    decreases kids.len(),
{
    if kids.len() == 0 {
        Seq::empty()
    } else {
        let c = kids.last();
        let prev = named_only(nodes, kids.drop_last());
        if c < nodes.len() && nodes[c as int].named {
            prev.push(c)
        } else {
            prev
        }
    }
}

/// Every node of a forest lies below its parent and within the tree.
pub proof fn lemma_forest_in_bounds(nodes: Seq<SyntaxNode>, kids: Seq<usize>, parent: int, named: bool)
    ensures
        forall|i: int|
            0 <= i < forest(nodes, kids, parent, named).len() ==> parent < #[trigger] forest(
                nodes,
                kids,
                parent,
                named,
            )[i] < nodes.len(),
    decreases nodes.len() - parent, 0nat, kids.len(),
{
    if kids.len() > 0 {
        let c = kids.last() as int;
        let prev = forest(nodes, kids.drop_last(), parent, named);
        lemma_forest_in_bounds(nodes, kids.drop_last(), parent, named);
        if parent < c < nodes.len() && (!named || nodes[c].named) {
            let inner = forest(nodes, nodes[c].children@, c, named);
            lemma_forest_in_bounds(nodes, nodes[c].children@, c, named);
            let tail = subtree(nodes, c, named);
            assert(tail == seq![c as usize] + inner);
            let all = forest(nodes, kids, parent, named);
            assert(all == prev + tail);
            assert forall|i: int| 0 <= i < all.len() implies parent < #[trigger] all[i] < nodes.len() by {
                if i < prev.len() {
                    assert(all[i] == prev[i]);
                } else if i == prev.len() {
                    assert(all[i] == tail[0]);
                } else {
                    assert(all[i] == tail[i - prev.len()]);
                    assert(tail[i - prev.len()] == inner[i - prev.len() - 1]);
                }
            }
        } else {
            assert(forest(nodes, kids, parent, named) =~= prev);
        }
    }
}

/// Every node of a subtree is a node of the tree.
pub proof fn lemma_subtree_in_bounds(nodes: Seq<SyntaxNode>, n: int, named: bool)
    requires
        0 <= n < nodes.len(),
    ensures
        forall|i: int| 0 <= i < subtree(nodes, n, named).len() ==> #[trigger] subtree(nodes, n, named)[i] < nodes.len(),
{
    let f = forest(nodes, nodes[n].children@, n, named);
    lemma_forest_in_bounds(nodes, nodes[n].children@, n, named);
    assert forall|i: int| 0 <= i < subtree(nodes, n, named).len() implies #[trigger] subtree(nodes, n, named)[i] < nodes.len() by {
        if i > 0 {
            assert(subtree(nodes, n, named)[i] == f[i - 1]);
        }
    }
}

impl SyntaxTree {
    /// The node records of the tree.
    pub closed spec fn spec_nodes(&self) -> Seq<SyntaxNode> {
        self.nodes@
    }

    #[verifier::type_invariant]
    closed spec fn inv(self) -> bool {
        nodes_wf(self.nodes@)
    }

    /// Builds a tree from pre-order node records, or returns `None` when the
    /// records are not structurally well formed.
    pub fn new(nodes: Vec<SyntaxNode>) -> (res: Option<SyntaxTree>)
        ensures
            res is Some <==> nodes_wf(nodes@),
            res matches Some(t) ==> t.spec_nodes() == nodes@,
    {
        if nodes.len() == 0 {
            return None;
        }
        if nodes[0].parent.is_some() {
            return None;
        }
        let mut i: usize = 0;
        while i < nodes.len()
            invariant
                0 <= i <= nodes.len(),
                nodes.len() > 0,
                nodes@[0].parent is None,
                forall|j: int|
                    0 <= j < i ==> match #[trigger] nodes@[j].parent {
                        Some(p) => p < j,
                        None => j == 0,
                    },
                forall|j: int, k: int|
                    0 <= j < i && 0 <= k < nodes@[j].children@.len() ==> j
                        < #[trigger] nodes@[j].children@[k] < nodes.len(),
            decreases nodes.len() - i,
        {
            match nodes[i].parent {
                Some(p) => {
                    if p >= i {
                        return None;
                    }
                },
                None => {
                    if i != 0 {
                        return None;
                    }
                },
            }
            let mut k: usize = 0;
            while k < nodes[i].children.len()
                invariant
                    0 <= i < nodes.len(),
                    0 <= k <= nodes@[i as int].children@.len(),
                    forall|m: int|
                        0 <= m < k ==> i < #[trigger] nodes@[i as int].children@[m]
                            < nodes.len(),
                decreases nodes@[i as int].children@.len() - k,
            {
                let c = nodes[i].children[k];
                if c <= i || c >= nodes.len() {
                    return None;
                }
                k = k + 1;
            }
            i = i + 1;
        }
        Some(SyntaxTree { nodes })
    }

    /// The number of nodes.
    pub fn len(&self) -> (res: usize)
        ensures
            res == self.spec_nodes().len(),
            res > 0,
    {
        proof {
            use_type_invariant(self);
        }
        self.nodes.len()
    }

    /// The record of node `n`.
    pub fn node(&self, n: usize) -> (res: &SyntaxNode)
        requires
            n < self.spec_nodes().len(),
        ensures
            *res == self.spec_nodes()[n as int],
    {
        &self.nodes[n]
    }

    /// Makes the structural invariant of the tree known to the caller.
    pub fn reveal_wf(&self)
        ensures
            nodes_wf(self.spec_nodes()),
    {
        proof {
            use_type_invariant(self);
        }
    }

    /// Whether node `n` has grammar kind `kind`.
    pub fn kind_is(&self, n: usize, kind: &str) -> (res: bool)
        requires
            n < self.spec_nodes().len(),
        ensures
            res == (self.spec_nodes()[n as int].kind@ == kind@),
    {
        str_eq(self.nodes[n].kind.as_str(), kind)
    }

    /// The first child of `n` that sits under field `field`.
    pub fn child_by_field_name(&self, n: usize, field: &str) -> (res: Option<usize>)
        requires
            n < self.spec_nodes().len(),
        ensures
            res == first_child_with_field(
                self.spec_nodes(),
                self.spec_nodes()[n as int].children@,
                field@,
            ),
            res matches Some(c) ==> n < c < self.spec_nodes().len(),
    {
        proof {
            use_type_invariant(self);
        }
        let ghost nodes = self.nodes@;
        let ghost kids = nodes[n as int].children@;
        let mut k: usize = 0;
        assert(kids.skip(0) =~= kids);
        while k < self.nodes[n].children.len()
            invariant
                n < nodes.len(),
                nodes == self.nodes@,
                kids == nodes[n as int].children@,
                nodes_wf(nodes),
                0 <= k <= kids.len(),
                first_child_with_field(nodes, kids, field@) == first_child_with_field(
                    nodes,
                    kids.skip(k as int),
                    field@,
                ),
            decreases kids.len() - k,
        {
            let c = self.nodes[n].children[k];
            assert(kids.skip(k as int).drop_first() =~= kids.skip(k + 1));
            assert(kids.skip(k as int)[0] == c);
            let hit = match &self.nodes[c].field {
                Some(f) => str_eq(f.as_str(), field),
                None => false,
            };
            if hit {
                return Some(c);
            }
            k = k + 1;
        }
        assert(kids.skip(k as int).len() == 0);
        None
    }

    /// The parent of `n`, if any.
    pub fn parent(&self, n: usize) -> (res: Option<usize>)
        requires
            n < self.spec_nodes().len(),
        ensures
            res == self.spec_nodes()[n as int].parent,
            res matches Some(p) ==> p < n,
    {
        proof {
            use_type_invariant(self);
        }
        self.nodes[n].parent
    }

    /// The smallest named node containing `position` (the root when no named
    /// node below it does).
    pub fn named_node_at(&self, position: TextPosition) -> (res: usize)
        ensures
            res == named_node_at(self.spec_nodes(), position),
            res < self.spec_nodes().len(),
    {
        proof {
            use_type_invariant(self);
        }
        let ghost nodes = self.nodes@;
        let mut node: usize = 0;
        let mut last: usize = 0;
        loop
            invariant
                nodes == self.nodes@,
                nodes_wf(nodes),
                node < nodes.len(),
                last < nodes.len(),
                descend_to(nodes, node as int, last as int, position) == named_node_at(
                    nodes,
                    position,
                ),
            decreases nodes.len() - node,
        {
            let ghost kids = nodes[node as int].children@;
            let mut k: usize = 0;
            let mut found: Option<usize> = None;
            assert(kids.skip(0) =~= kids);
            loop
                invariant_except_break
                    found is None,
                invariant
                    nodes == self.nodes@,
                    nodes_wf(nodes),
                    node < nodes.len(),
                    kids == nodes[node as int].children@,
                    0 <= k <= kids.len(),
                    first_live_child(nodes, kids, position) == first_live_child(
                        nodes,
                        kids.skip(k as int),
                        position,
                    ),
                ensures
                    found == first_live_child(nodes, kids, position),
                decreases kids.len() - k,
            {
                if k >= self.nodes[node].children.len() {
                    assert(kids.skip(k as int).len() == 0);
                    break;
                }
                let c = self.nodes[node].children[k];
                assert(kids.skip(k as int).drop_first() =~= kids.skip(k + 1));
                assert(kids.skip(k as int)[0] == c);
                let r = self.nodes[c].range;
                let empty = r.start == r.end;
                let passes = if empty {
                    r.end.line < position.line || (r.end.line == position.line && r.end.byte
                        < position.byte)
                } else {
                    !(position.line < r.end.line || (position.line == r.end.line && position.byte
                        < r.end.byte))
                };
                if !passes {
                    found = Some(c);
                    break;
                }
                k = k + 1;
            }
            proof {
                lemma_first_live_child_in(nodes, kids, position);
            }
            match found {
                Some(c) => {
                    let s = self.nodes[c].range.start;
                    if position.line < s.line || (position.line == s.line && position.byte
                        < s.byte) {
                        return last;
                    }
                    if self.nodes[c].named {
                        last = c;
                    }
                    node = c;
                },
                None => {
                    return last;
                },
            }
        }
    }

    /// The nearest ancestor-or-self of `n` whose kind is `kind`.
    pub fn ancestor_of_kind(&self, n: usize, kind: &str) -> (res: Option<usize>)
        requires
            n < self.spec_nodes().len(),
        ensures
            res is Some <==> ancestor_of_kind(self.spec_nodes(), n as int, kind@) is Some,
            res matches Some(a) ==> ancestor_of_kind(self.spec_nodes(), n as int, kind@) == Some(
                a as int,
            ),
            res matches Some(a) ==> a < self.spec_nodes().len(),
    {
        proof {
            use_type_invariant(self);
        }
        let ghost nodes = self.nodes@;
        let mut cur: usize = n;
        loop
            invariant
                nodes == self.nodes@,
                nodes_wf(nodes),
                cur < nodes.len(),
                ancestor_of_kind(nodes, cur as int, kind@) == ancestor_of_kind(
                    nodes,
                    n as int,
                    kind@,
                ),
            decreases cur,
        {
            if str_eq(self.nodes[cur].kind.as_str(), kind) {
                return Some(cur);
            }
            match self.nodes[cur].parent {
                Some(q) => {
                    cur = q;
                },
                None => {
                    return None;
                },
            }
        }
    }

    /// Whether `d` is `n` or lies below `n`.
    pub fn is_descendant_or_self(&self, n: usize, d: usize) -> (res: bool)
        requires
            n < self.spec_nodes().len(),
            d < self.spec_nodes().len(),
        ensures
            res == is_descendant_or_self(self.spec_nodes(), n as int, d as int),
    {
        proof {
            use_type_invariant(self);
        }
        let ghost nodes = self.nodes@;
        let mut cur: usize = d;
        loop
            invariant
                nodes == self.nodes@,
                nodes_wf(nodes),
                n < nodes.len(),
                cur < nodes.len(),
                is_descendant_or_self(nodes, n as int, cur as int) == is_descendant_or_self(
                    nodes,
                    n as int,
                    d as int,
                ),
            decreases cur,
        {
            if cur == n {
                return true;
            }
            if cur < n {
                return false;
            }
            match self.nodes[cur].parent {
                Some(q) => {
                    cur = q;
                },
                None => {
                    return false;
                },
            }
        }
    }

    /// Appends the nodes of the subtree at `n`, in pre-order, to `out`.
    pub fn collect_subtree(&self, n: usize, named: bool, out: &mut Vec<usize>)
        requires
            n < self.spec_nodes().len(),
        ensures
            final(out)@ == old(out)@ + subtree(self.spec_nodes(), n as int, named),
        decreases self.spec_nodes().len() - n,
    {
        proof {
            use_type_invariant(self);
        }
        let ghost nodes = self.nodes@;
        let ghost start = old(out)@;
        out.push(n);
        let ghost kids = nodes[n as int].children@;
        let mut k: usize = 0;
        assert(kids.take(0) =~= Seq::<usize>::empty());
        while k < self.nodes[n].children.len()
            invariant
                nodes == self.nodes@,
                nodes_wf(nodes),
                n < nodes.len(),
                kids == nodes[n as int].children@,
                0 <= k <= kids.len(),
                out@ == start + seq![n] + forest(nodes, kids.take(k as int), n as int, named),
            decreases kids.len() - k,
        {
            let c = self.nodes[n].children[k];
            assert(kids.take(k + 1).drop_last() =~= kids.take(k as int));
            assert(kids.take(k + 1).last() == c);
            if !named || self.nodes[c].named {
                self.collect_subtree(c, named, out);
            }
            proof {
                let tail = if n < c < nodes.len() && (!named || nodes[c as int].named) {
                    subtree(nodes, c as int, named)
                } else {
                    Seq::empty()
                };
                assert(forest(nodes, kids.take(k + 1), n as int, named) == forest(nodes, kids.take(k as int), n as int, named) + tail);
                assert(out@ =~= start + seq![n] + forest(nodes, kids.take(k + 1), n as int, named));
            }
            k = k + 1;
        }
        assert(kids.take(k as int) =~= kids);
        assert(subtree(nodes, n as int, named) == seq![n] + forest(nodes, kids, n as int, named));
        assert(out@ =~= start + subtree(nodes, n as int, named));
    }

    /// The nodes strictly below `n`, in pre-order; with `named`, only through
    /// named children.
    pub fn descendants(&self, n: usize, named: bool) -> (res: Vec<usize>)
        requires
            n < self.spec_nodes().len(),
        ensures
            res@ == forest(self.spec_nodes(), self.spec_nodes()[n as int].children@, n as int, named),
            forall|i: int| 0 <= i < res@.len() ==> n < #[trigger] res@[i] < self.spec_nodes().len(),
    {
        proof {
            lemma_forest_in_bounds(self.spec_nodes(), self.spec_nodes()[n as int].children@, n as int, named);
        }
        let mut out: Vec<usize> = Vec::new();
        self.collect_subtree(n, named, &mut out);
        let ghost whole = out@;
        let mut res: Vec<usize> = Vec::new();
        let mut i: usize = 1;
        while i < out.len()
            invariant
                out@ == whole,
                1 <= i <= whole.len(),
                res@ == whole.subrange(1, i as int),
            decreases whole.len() - i,
        {
            res.push(out[i]);
            assert(whole.subrange(1, i + 1) =~= whole.subrange(1, i as int).push(whole[i as int]));
            i = i + 1;
        }
        proof {
            let f = forest(self.spec_nodes(), self.spec_nodes()[n as int].children@, n as int, named);
            assert(whole =~= seq![n] + f);
            assert(whole.subrange(1, whole.len() as int) =~= f);
        }
        res
    }

    /// The named children of `n`, in order.
    pub fn named_children(&self, n: usize) -> (res: Vec<usize>)
        requires
            n < self.spec_nodes().len(),
        ensures
            res@ == named_only(self.spec_nodes(), self.spec_nodes()[n as int].children@),
            forall|i: int| 0 <= i < res@.len() ==> n < #[trigger] res@[i] < self.spec_nodes().len(),
    {
        proof {
            use_type_invariant(self);
        }
        let ghost nodes = self.nodes@;
        let ghost kids = nodes[n as int].children@;
        let mut res: Vec<usize> = Vec::new();
        let mut k: usize = 0;
        assert(kids.take(0) =~= Seq::<usize>::empty());
        while k < self.nodes[n].children.len()
            invariant
                nodes == self.nodes@,
                nodes_wf(nodes),
                n < nodes.len(),
                kids == nodes[n as int].children@,
                0 <= k <= kids.len(),
                res@ == named_only(nodes, kids.take(k as int)),
                forall|i: int| 0 <= i < res@.len() ==> n < #[trigger] res@[i] < nodes.len(),
            decreases kids.len() - k,
        {
            let c = self.nodes[n].children[k];
            assert(kids.take(k + 1).drop_last() =~= kids.take(k as int));
            assert(kids.take(k + 1).last() == c);
            if self.nodes[c].named {
                res.push(c);
            }
            k = k + 1;
        }
        assert(kids.take(k as int) =~= kids);
        res
    }
}

} // verus!
