//! The computations behind the language server's requests: selection
//! ranges, rename edits, prompt lookups made from templates, workspace
//! symbol search and the project diagnostics about prompts.

use vstd::prelude::*;
use vstd::string::StringSliceAdditionalSpecFns;
use vstd::utf8::*;

use crate::editor::{
    find_prompt, range_contains, references_at, target_ranges, symbol_candidates, symbols_candidates, DocumentModel,
    ReferenceTarget, Symbol, SymbolKind,
};
use crate::terafile::checks::{contains, contains_str, find};
use crate::terafile::diagnostics::Severity;
use crate::text::{chars_of, line_bounds, line_exists, nth_line, starts_with, str_eq, TextPosition, TextRange};

verus! {

// Selection ranges.

/// Whether a position is inside a source range, both ends included.
pub fn contains_position(range: TextRange, position: TextPosition) -> (res: bool)
    ensures
        res == range_contains(range, position),
{
    (position.line > range.start.line || (position.line == range.start.line && position.byte >= range.start.byte))
        && (position.line < range.end.line || (position.line == range.end.line && position.byte <= range.end.byte))
}

/// Appends the ranges of `symbol` and of the symbols nested in it that
/// contain `position`.
fn collect_selection_candidates(symbol: &Symbol, position: TextPosition, candidates: &mut Vec<TextRange>)
    ensures
        final(candidates)@ == old(candidates)@ + symbol_candidates(*symbol, position),
    decreases symbol,
{
    let ghost start = old(candidates)@;
    let selection = symbol.selection_range();
    if contains_position(selection, position) {
        candidates.push(selection);
    }
    let range = symbol.range();
    if contains_position(range, position) {
        candidates.push(range);
    }
    let ghost head = candidates@;
    let children = symbol.children();
    let mut i: usize = 0;
    assert(children@.take(0) =~= Seq::<Symbol>::empty());
    assert(head + Seq::<TextRange>::empty() =~= head);
    while i < children.len()
        invariant
            children@ == symbol.spec_children(),
            0 <= i <= children@.len(),
            candidates@ == head + symbols_candidates(children@.take(i as int), position),
        decreases children@.len() - i,
    {
        assert(children@.take(i + 1).drop_last() =~= children@.take(i as int));
        assert(children@.take(i + 1).last() == children@[i as int]);
        let ghost before = candidates@;
        proof {
            crate::editor::lemma_children_decrease(*symbol, i as int);
        }
        collect_selection_candidates(&children[i], position, candidates);
        assert(before + symbol_candidates(children@[i as int], position) =~= head + symbols_candidates(
            children@.take(i + 1),
            position,
        ));
        i = i + 1;
    }
    assert(children@.take(i as int) =~= children@);
    assert(candidates@ =~= start + symbol_candidates(*symbol, position));
}

/// `a - b`, or 0 when `b` is larger.
pub open spec fn saturating_diff(a: usize, b: usize) -> int {
    if a >= b {
        a - b
    } else {
        0
    }
}

/// Whether range `a` spans fewer lines than `b`, or as many lines and fewer
/// bytes: the order in which selection ranges go from inner to outer.
pub open spec fn narrower(a: TextRange, b: TextRange) -> bool {
    let la = saturating_diff(a.end.line, a.start.line);
    let lb = saturating_diff(b.end.line, b.start.line);
    la < lb || (la == lb && saturating_diff(a.end.byte, a.start.byte) < saturating_diff(b.end.byte, b.start.byte))
}

/// Where a stable insertion puts `x` into `sorted`: before the first range
/// that is wider than it.
pub open spec fn insertion_index(sorted: Seq<TextRange>, x: TextRange) -> int
    decreases sorted.len(),
{
    if sorted.len() == 0 {
        0
    } else if narrower(x, sorted[0]) {
        0
    } else {
        1 + insertion_index(sorted.drop_first(), x)
    }
}

/// The ranges of `cs` sorted from narrowest to widest, ranges of equal
/// width keeping their order (a stable sort).
pub open spec fn sorted_by_width(cs: Seq<TextRange>) -> Seq<TextRange>
    decreases cs.len(),
{
    if cs.len() == 0 {
        Seq::empty()
    } else {
        let sorted = sorted_by_width(cs.drop_last());
        sorted.insert(insertion_index(sorted, cs.last()), cs.last())
    }
}

/// Whether every range of `s` is at least as wide as those before it.
pub open spec fn width_sorted(s: Seq<TextRange>) -> bool {
    forall|i: int, j: int| 0 <= i < j < s.len() ==> !narrower(#[trigger] s[j], #[trigger] s[i])
}

proof fn lemma_insertion_index(sorted: Seq<TextRange>, x: TextRange)
    ensures
        0 <= insertion_index(sorted, x) <= sorted.len(),
        forall|i: int| 0 <= i < insertion_index(sorted, x) ==> !narrower(x, #[trigger] sorted[i]),
        insertion_index(sorted, x) < sorted.len() ==> narrower(x, sorted[insertion_index(sorted, x)]),
    decreases sorted.len(),
{
    if sorted.len() > 0 && !narrower(x, sorted[0]) {
        lemma_insertion_index(sorted.drop_first(), x);
        assert forall|i: int| 0 <= i < insertion_index(sorted, x) implies !narrower(x, #[trigger] sorted[i]) by {
            if i > 0 {
                assert(sorted[i] == sorted.drop_first()[i - 1]);
            }
        }
    }
}

proof fn lemma_sorted_by_width(cs: Seq<TextRange>, position: TextPosition)
    ensures
        width_sorted(sorted_by_width(cs)),
        sorted_by_width(cs).len() == cs.len(),
        (forall|j: int| 0 <= j < cs.len() ==> range_contains(#[trigger] cs[j], position)) ==> (forall|i: int|
            0 <= i < sorted_by_width(cs).len() ==> range_contains(#[trigger] sorted_by_width(cs)[i], position)),
    decreases cs.len(),
{
    if cs.len() > 0 {
        let prev = sorted_by_width(cs.drop_last());
        let x = cs.last();
        lemma_sorted_by_width(cs.drop_last(), position);
        lemma_insertion_index(prev, x);
        let k = insertion_index(prev, x);
        let res = prev.insert(k, x);
        assert(res == sorted_by_width(cs));
        assert forall|i: int, j: int| 0 <= i < j < res.len() implies !narrower(#[trigger] res[j], #[trigger] res[i]) by {
            if j < k {
                assert(res[i] == prev[i] && res[j] == prev[j]);
            } else if j == k {
                assert(res[j] == x && res[i] == prev[i]);
            } else if i < k {
                assert(res[i] == prev[i] && res[j] == prev[j - 1]);
                assert(!narrower(prev[j - 1], prev[i]));
            } else if i == k {
                assert(res[i] == x && res[j] == prev[j - 1]);
                assert(narrower(x, prev[k]));
                if j - 1 > k {
                    assert(!narrower(prev[j - 1], prev[k]));
                }
            } else {
                assert(res[i] == prev[i - 1] && res[j] == prev[j - 1]);
            }
        }
        if forall|j: int| 0 <= j < cs.len() ==> range_contains(#[trigger] cs[j], position) {
            assert forall|j: int| 0 <= j < cs.drop_last().len() implies range_contains(#[trigger] cs.drop_last()[j], position) by {
                assert(cs.drop_last()[j] == cs[j]);
            }
            assert forall|i: int| 0 <= i < res.len() implies range_contains(#[trigger] res[i], position) by {
                if i < k {
                    assert(res[i] == prev[i]);
                } else if i > k {
                    assert(res[i] == prev[i - 1]);
                }
            }
        }
    }
}

/// The selection ranges around a position nest: each contains the
/// position, and each is at least as wide as the one before it, from the
/// innermost to the outermost.
pub proof fn lemma_selection_ranges_nest(symbols: Seq<Symbol>, position: TextPosition)
    ensures
        width_sorted(sorted_by_width(symbols_candidates(symbols, position))),
        forall|i: int|
            0 <= i < sorted_by_width(symbols_candidates(symbols, position)).len() ==> range_contains(
                #[trigger] sorted_by_width(symbols_candidates(symbols, position))[i],
                position,
            ),
{
    crate::editor::lemma_symbols_candidates_contain(symbols, position);
    lemma_sorted_by_width(symbols_candidates(symbols, position), position);
}

/// Whether range `a` is narrower than range `b`.
fn is_narrower(a: TextRange, b: TextRange) -> (res: bool)
    ensures
        res == narrower(a, b),
{
    let la = a.end.line.saturating_sub(a.start.line);
    let lb = b.end.line.saturating_sub(b.start.line);
    let ba = a.end.byte.saturating_sub(a.start.byte);
    let bb = b.end.byte.saturating_sub(b.start.byte);
    la < lb || (la == lb && ba < bb)
}

/// The selection ranges around `position`, from the innermost to the
/// outermost: the selection and full ranges of the symbols that contain it,
/// sorted from narrowest to widest. Each range is the parent of the one
/// before it; there is none when no symbol contains the position.
pub fn selection_range_for_position(analysis: &DocumentModel, position: TextPosition) -> (res: Vec<TextRange>)
    ensures
        res@ == sorted_by_width(symbols_candidates(analysis.spec_symbols(), position)),
{
    let symbols = analysis.symbols();
    let mut candidates: Vec<TextRange> = Vec::new();
    let mut i: usize = 0;
    assert(symbols@.take(0) =~= Seq::<Symbol>::empty());
    while i < symbols.len()
        invariant
            symbols@ == analysis.spec_symbols(),
            0 <= i <= symbols@.len(),
            candidates@ == symbols_candidates(symbols@.take(i as int), position),
        decreases symbols@.len() - i,
    {
        assert(symbols@.take(i + 1).drop_last() =~= symbols@.take(i as int));
        assert(symbols@.take(i + 1).last() == symbols@[i as int]);
        collect_selection_candidates(&symbols[i], position, &mut candidates);
        i = i + 1;
    }
    assert(symbols@.take(i as int) =~= symbols@);
    let mut sorted: Vec<TextRange> = Vec::new();
    let mut k: usize = 0;
    assert(candidates@.take(0) =~= Seq::<TextRange>::empty());
    while k < candidates.len()
        invariant
            0 <= k <= candidates@.len(),
            sorted@ == sorted_by_width(candidates@.take(k as int)),
        decreases candidates@.len() - k,
    {
        let x = candidates[k];
        assert(candidates@.take(k + 1).drop_last() =~= candidates@.take(k as int));
        assert(candidates@.take(k + 1).last() == x);
        let ghost prev = sorted@;
        let mut at: usize = 0;
        assert(prev.skip(0) =~= prev);
        while at < sorted.len() && !is_narrower(x, sorted[at])
            invariant
                sorted@ == prev,
                0 <= at <= prev.len(),
                insertion_index(prev, x) == at + insertion_index(prev.skip(at as int), x),
            decreases prev.len() - at,
        {
            assert(prev.skip(at as int).drop_first() =~= prev.skip(at + 1));
            at = at + 1;
        }
        sorted.insert(at, x);
        k = k + 1;
    }
    assert(candidates@.take(k as int) =~= candidates@);
    sorted
}

// Rename edits.

/// The text of a single-line `range` in `source`: `None` when the range
/// spans lines, its line does not exist, or its ends are not character
/// boundaries within the line.
pub open spec fn selection_text(source: Seq<char>, range: TextRange) -> Option<Seq<char>> {
    let b = encode_utf8(source);
    if range.start.line != range.end.line || !line_exists(b, range.start.line as nat) {
        None
    } else {
        let (s, e) = line_bounds(b, range.start.line as nat);
        let line = b.subrange(s, e);
        let st = range.start.byte as int;
        let en = range.end.byte as int;
        if st <= en <= line.len() && is_char_boundary(line, st) && is_char_boundary(line, en) {
            Some(decode_utf8(line.subrange(st, en)))
        } else {
            None
        }
    }
}

/// Returns the text a single-line range covers.
pub fn selected_text<'a>(source: &'a str, range: &TextRange) -> (res: Option<&'a str>)
    ensures
        match res {
            Some(t) => selection_text(source@, *range) == Some(t@),
            None => selection_text(source@, *range) is None,
        },
{
    if range.start.line != range.end.line {
        return None;
    }
    let line = match nth_line(source, range.start.line) {
        Some(line) => line,
        None => {
            return None;
        },
    };
    let ghost b = source.spec_bytes();
    proof {
        crate::text::lemma_line_bounds(b, range.start.line as nat);
        encode_utf8_valid_utf8(source@);
    }
    let start = range.start.byte;
    let end = range.end.byte;
    let len = line.as_bytes().len();
    if !(start <= end && end <= len) {
        return None;
    }
    if !line.is_char_boundary(start) || !line.is_char_boundary(end) {
        return None;
    }
    let (head, _) = line.split_at(end);
    proof {
        encode_utf8_valid_utf8(line@);
        crate::text::lemma_boundary_in_prefix(line.spec_bytes(), start as int, end as int);
    }
    let (_, mid) = head.split_at(start);
    proof {
        encode_utf8_decode_utf8(mid@);
        assert(mid.spec_bytes() =~= line.spec_bytes().subrange(start as int, end as int));
    }
    Some(mid)
}

/// Whether text starts and ends with a double quote.
pub open spec fn quoted(t: Seq<char>) -> bool {
    t.len() > 0 && t[0] == '"' && t.last() == '"'
}

/// The text that replaces `range` when a prompt is renamed to `new_name`:
/// the new name in double quotes where the old one was quoted.
pub open spec fn replacement_text(source: Seq<char>, range: TextRange, new_name: Seq<char>) -> Seq<char> {
    match selection_text(source, range) {
        Some(t) => if quoted(t) {
            seq!['"'] + new_name + seq!['"']
        } else {
            new_name
        },
        None => new_name,
    }
}

/// Returns the text that replaces `range` when a prompt is renamed.
pub fn replacement_text_for_range(source: &str, range: &TextRange, new_name: &str) -> (res: String)
    ensures
        res@ == replacement_text(source@, *range, new_name@),
{
    let is_quoted = match selected_text(source, range) {
        Some(text) => {
            let chars = chars_of(text);
            chars.len() > 0 && chars[0] == '"' && chars[chars.len() - 1] == '"'
        },
        None => false,
    };
    if is_quoted {
        let mut quoted_name = "\"".to_owned();
        quoted_name.append(new_name);
        quoted_name.append("\"");
        proof {
            reveal_strlit("\"");
        }
        quoted_name
    } else {
        new_name.to_owned()
    }
}

/// A text edit: the range it replaces and the new text.
#[derive(Debug)]
pub struct TextEdit {
    /// The range to replace.
    pub range: TextRange,
    /// The replacement text.
    pub new_text: String,
}

/// The edits of a rename: each reference range with its replacement.
pub open spec fn rename_edits(source: Seq<char>, ranges: Seq<TextRange>, new_name: Seq<char>) -> Seq<(TextRange, Seq<char>)> {
    ranges.map_values(|r: TextRange| (r, replacement_text(source, r, new_name)))
}

/// The edits as ranges and texts.
pub open spec fn edits_view(edits: Seq<TextEdit>) -> Seq<(TextRange, Seq<char>)> {
    edits.map_values(|e: TextEdit| (e.range, e.new_text@))
}

/// The edits that rename the prompt at `position` (its declaration and its
/// references) to `new_name`, in the document's own text.
pub fn achitekfile_edits(analysis: &DocumentModel, position: TextPosition, new_name: &str) -> (res: Vec<TextEdit>)
    ensures
        edits_view(res@) == rename_edits(
            analysis.spec_source(),
            references_at(analysis.spec_source(), analysis.spec_nodes(), analysis.spec_symbols(), position, true),
            new_name@,
        ),
{
    let source = analysis.syntax().source();
    let targets = analysis.references(position, true);
    let ghost ranges = target_ranges(targets@);
    let mut edits: Vec<TextEdit> = Vec::new();
    let mut i: usize = 0;
    while i < targets.len()
        invariant
            source@ == analysis.spec_source(),
            ranges == target_ranges(targets@),
            0 <= i <= targets@.len(),
            edits_view(edits@) == rename_edits(source@, ranges.take(i as int), new_name@),
        decreases targets@.len() - i,
    {
        let range = targets[i].range();
        let new_text = replacement_text_for_range(source, &range, new_name);
        let ghost before = edits@;
        let edit = TextEdit { range, new_text };
        edits.push(edit);
        assert(ranges.take(i + 1) =~= ranges.take(i as int).push(range));
        assert(edits_view(edits@) =~= edits_view(before).push((range, edit.new_text@)));
        assert(rename_edits(source@, ranges.take(i + 1), new_name@) =~= rename_edits(
            source@,
            ranges.take(i as int),
            new_name@,
        ).push((range, replacement_text(source@, range, new_name@))));
        i = i + 1;
    }
    assert(ranges.take(i as int) =~= ranges);
    proof {
        let expected = references_at(analysis.spec_source(), analysis.spec_nodes(), analysis.spec_symbols(), position, true);
        assert(targets@.len() == expected.len());
        assert(ranges =~= expected);
    }
    edits
}

// Prompt lookups made from templates.

impl DocumentModel {
    /// The prompt declared under `name`, if any.
    pub fn prompt_declaration(&self, name: &str) -> (res: Option<&Symbol>)
        ensures
            match find_prompt(self.spec_symbols(), name@) {
                Some(i) => res matches Some(s) && *s == self.spec_symbols()[i],
                None => res is None,
            },
    {
        let symbols = self.symbols();
        let mut i: usize = 0;
        while i < symbols.len()
            invariant
                symbols@ == self.spec_symbols(),
                0 <= i <= symbols@.len(),
                find_prompt(symbols@.take(i as int), name@) is None,
            decreases symbols@.len() - i,
        {
            assert(symbols@.take(i + 1).drop_last() =~= symbols@.take(i as int));
            let symbol = &symbols[i];
            if symbol.kind() == SymbolKind::Prompt && str_eq(symbol.name(), name) {
                proof {
                    crate::editor::lemma_find_prompt_prefix(symbols@, name@, i + 1);
                }
                return Some(symbol);
            }
            i = i + 1;
        }
        assert(symbols@.take(i as int) =~= symbols@);
        None
    }

    /// The references of the prompt declared under `name`, found from the
    /// start of its name: what a template's reference to that prompt
    /// leads to.
    pub fn prompt_references(&self, name: &str, include_declaration: bool) -> (res: Option<Vec<ReferenceTarget>>)
        ensures
            match find_prompt(self.spec_symbols(), name@) {
                Some(i) => res matches Some(targets) && target_ranges(targets@) == references_at(
                    self.spec_source(),
                    self.spec_nodes(),
                    self.spec_symbols(),
                    self.spec_symbols()[i].spec_selection_range().start,
                    include_declaration,
                ),
                None => res is None,
            },
    {
        match self.prompt_declaration(name) {
            Some(symbol) => {
                let targets = self.references(symbol.selection_range().start, include_declaration);
                proof {
                    let expected = references_at(
                        self.spec_source(),
                        self.spec_nodes(),
                        self.spec_symbols(),
                        symbol.spec_selection_range().start,
                        include_declaration,
                    );
                    assert(target_ranges(targets@) =~= expected);
                }
                Some(targets)
            },
            None => None,
        }
    }
}

// Workspace symbols.

/// What `str::to_lowercase` gives for a text.
pub uninterp spec fn lowercase(s: Seq<char>) -> Seq<char>;

/// Calls `str::to_lowercase`.
#[verifier::external_body]
fn to_lowercase(s: &str) -> (res: String)
    ensures
        res@ == lowercase(s@),
{
    s.to_lowercase()
}

/// Whether a symbol belongs in the workspace symbols for `query`: a prompt
/// whose lowercased name contains the lowercased query (any prompt when the
/// query is empty).
pub open spec fn workspace_match(symbol: Symbol, query: Seq<char>) -> bool {
    symbol.spec_kind() == SymbolKind::Prompt && (lowercase(query).len() == 0 || contains(
        lowercase(symbol.spec_name()),
        lowercase(query),
    ))
}

/// The indices of the symbols of `symbols` that match `query`, in order.
pub open spec fn workspace_matches(symbols: Seq<Symbol>, query: Seq<char>) -> Seq<usize>
    decreases symbols.len(),
{
    if symbols.len() == 0 {
        Seq::empty()
    } else {
        let prev = workspace_matches(symbols.drop_last(), query);
        if workspace_match(symbols.last(), query) {
            prev.push((symbols.len() - 1) as usize)
        } else {
            prev
        }
    }
}

/// Whether `p` occurs in `s` at some position `k`.
pub open spec fn occurs_in(s: Seq<char>, p: Seq<char>) -> bool {
    exists|k: int| 0 <= k && k + p.len() <= s.len() && #[trigger] s.subrange(k, k + p.len()) == p
}

/// The search for `p` in `s` succeeds exactly when `p` occurs somewhere in
/// `s`.
proof fn lemma_find_iff_occurs(s: Seq<char>, p: Seq<char>)
    ensures
        find(s, p) is Some <==> occurs_in(s, p),
    decreases s.len(),
{
    if starts_with(s, p) {
        assert(s.subrange(0, 0int + p.len()) == p);
    } else if s.len() == 0 {
        if occurs_in(s, p) {
            let k = choose|k: int| 0 <= k && k + p.len() <= s.len() && #[trigger] s.subrange(k, k + p.len()) == p;
            assert(p.len() == 0);
            assert(s.subrange(0, 0) =~= p);
        }
    } else {
        let t = s.drop_first();
        lemma_find_iff_occurs(t, p);
        if occurs_in(t, p) {
            let k = choose|k: int| 0 <= k && k + p.len() <= t.len() && #[trigger] t.subrange(k, k + p.len()) == p;
            assert(s.subrange(k + 1, k + 1 + p.len()) =~= t.subrange(k, k + p.len()));
        }
        if occurs_in(s, p) {
            let k = choose|k: int| 0 <= k && k + p.len() <= s.len() && #[trigger] s.subrange(k, k + p.len()) == p;
            if k == 0 {
                assert(starts_with(s, p));
            } else {
                assert(t.subrange(k - 1, k - 1 + p.len()) =~= s.subrange(k, k + p.len()));
            }
        }
    }
}

/// Every index that a workspace symbol search returns is an index of the
/// searched symbols.
proof fn lemma_workspace_matches_below(symbols: Seq<Symbol>, query: Seq<char>)
    requires
        symbols.len() <= usize::MAX,
    ensures
        forall|k: int|
            0 <= k < workspace_matches(symbols, query).len() ==> #[trigger] workspace_matches(
                symbols,
                query,
            )[k] < symbols.len(),
    decreases symbols.len(),
{
    if symbols.len() > 0 {
        lemma_workspace_matches_below(symbols.drop_last(), query);
        let prev = workspace_matches(symbols.drop_last(), query);
        let w = workspace_matches(symbols, query);
        assert forall|k: int| 0 <= k < w.len() implies #[trigger] w[k] < symbols.len() by {
            if k < prev.len() {
                assert(w[k] == prev[k]);
            }
        }
    }
}

/// A workspace symbol search finds symbol `i` exactly when it is a prompt
/// whose lowercased name contains the lowercased query at some position (at
/// the start, in the middle or at the end); an empty query finds every
/// prompt.
pub proof fn lemma_workspace_symbols_match_substrings(symbols: Seq<Symbol>, query: Seq<char>, i: int)
    requires
        0 <= i < symbols.len() <= usize::MAX,
    ensures
        workspace_matches(symbols, query).contains(i as usize) <==> (symbols[i].spec_kind() == SymbolKind::Prompt
            && occurs_in(lowercase(symbols[i].spec_name()), lowercase(query))),
    decreases symbols.len(),
{
    let n = symbols.len() - 1;
    let prev = workspace_matches(symbols.drop_last(), query);
    lemma_find_iff_occurs(lowercase(symbols[i].spec_name()), lowercase(query));
    if lowercase(query).len() == 0 {
        assert(lowercase(symbols[i].spec_name()).subrange(0, 0int + lowercase(query).len()) =~= lowercase(query));
    }
    lemma_workspace_matches_below(symbols.drop_last(), query);
    if i == n {
        if prev.contains(i as usize) {
            let k = choose|k: int| 0 <= k < prev.len() && prev[k] == i as usize;
            assert(prev[k] < symbols.drop_last().len());
        }
        assert(symbols.last() == symbols[i]);
        if workspace_match(symbols.last(), query) {
            assert(workspace_matches(symbols, query)[prev.len() as int] == i as usize);
        }
    } else {
        lemma_workspace_symbols_match_substrings(symbols.drop_last(), query, i);
        assert(symbols.drop_last()[i] == symbols[i]);
        if workspace_match(symbols.last(), query) {
            let w = workspace_matches(symbols, query);
            assert(w == prev.push(n as usize));
            if w.contains(i as usize) {
                let k = choose|k: int| 0 <= k < w.len() && w[k] == i as usize;
                if k < prev.len() {
                    assert(prev[k] == i as usize);
                }
            }
            if prev.contains(i as usize) {
                let k = choose|k: int| 0 <= k < prev.len() && prev[k] == i as usize;
                assert(w[k] == i as usize);
            }
        }
    }
}

/// Whether a lowercased symbol name answers a lowercased workspace symbol
/// query: every name answers the empty query, otherwise the name must contain
/// the query.
pub fn lowered_name_matches(lowered_name: &str, lowered_query: &str) -> (res: bool)
    ensures
        res == (lowered_query@.len() == 0 || contains(lowered_name@, lowered_query@)),
{
    lowered_query.is_empty() || contains_str(&chars_of(lowered_name), lowered_query)
}

impl DocumentModel {
    /// The indices into [`DocumentModel::symbols`] of the prompts that match
    /// a workspace symbol query.
    pub fn workspace_symbols(&self, query: &str) -> (res: Vec<usize>)
        ensures
            res@ == workspace_matches(self.spec_symbols(), query@),
    {
        let lowered = to_lowercase(query);
        let symbols = self.symbols();
        let mut found: Vec<usize> = Vec::new();
        let mut i: usize = 0;
        while i < symbols.len()
            invariant
                symbols@ == self.spec_symbols(),
                lowered@ == lowercase(query@),
                0 <= i <= symbols@.len(),
                found@ == workspace_matches(symbols@.take(i as int), query@),
            decreases symbols@.len() - i,
        {
            assert(symbols@.take(i + 1).drop_last() =~= symbols@.take(i as int));
            assert(symbols@.take(i + 1).last() == symbols@[i as int]);
            let symbol = &symbols[i];
            if symbol.kind() == SymbolKind::Prompt {
                let name = to_lowercase(symbol.name());
                let hit = lowered_name_matches(name.as_str(), lowered.as_str());
                if hit {
                    found.push(i);
                }
            }
            i = i + 1;
        }
        assert(symbols@.take(i as int) =~= symbols@);
        found
    }
}

// Project diagnostics about prompts.

/// The code of a template reference to a prompt that is not declared.
pub open spec fn unknown_prompt_code() -> Seq<char> {
    "ACHLS0001"@
}

/// The code of a prompt that no template uses.
pub open spec fn unused_prompt_code() -> Seq<char> {
    "ACHLS0002"@
}

/// A diagnostic about prompts across a blueprint project.
#[derive(Debug)]
pub struct ProjectDiagnostic {
    /// Where the problem is.
    pub range: TextRange,
    /// How strongly to surface it.
    pub severity: Severity,
    /// Its stable code.
    pub code: String,
    /// Its message.
    pub message: String,
}

/// A project diagnostic as its range, severity, code and message.
pub open spec fn project_diagnostic_view(d: ProjectDiagnostic) -> (TextRange, Severity, Seq<char>, Seq<char>) {
    (d.range, d.severity, d.code@, d.message@)
}

/// Project diagnostics as views.
pub open spec fn project_diagnostics_view(ds: Seq<ProjectDiagnostic>) -> Seq<(TextRange, Severity, Seq<char>, Seq<char>)> {
    ds.map_values(|d: ProjectDiagnostic| project_diagnostic_view(d))
}

/// Whether `names` holds `name`.
pub open spec fn has_name(names: Seq<String>, name: Seq<char>) -> bool {
    exists|i: int| 0 <= i < names.len() && #[trigger] names[i]@ == name
}

/// Whether a list of names holds `name`.
fn contains_name(names: &[String], name: &str) -> (res: bool)
    ensures
        res == has_name(names@, name@),
{
    let mut i: usize = 0;
    while i < names.len()
        invariant
            0 <= i <= names@.len(),
            forall|j: int| 0 <= j < i ==> #[trigger] names@[j]@ != name@,
        decreases names@.len() - i,
    {
        if str_eq(names[i].as_str(), name) {
            return true;
        }
        i = i + 1;
    }
    false
}

/// One warning per declared prompt (name and range) that no template
/// uses: "prompt `name` is not used by any template".
pub open spec fn unused_prompts(prompts: Seq<(String, TextRange)>, used: Seq<String>) -> Seq<
    (TextRange, Severity, Seq<char>, Seq<char>),
>
    decreases prompts.len(),
{
    if prompts.len() == 0 {
        Seq::empty()
    } else {
        let p = prompts.last();
        let prev = unused_prompts(prompts.drop_last(), used);
        if has_name(used, p.0@) {
            prev
        } else {
            prev.push(
                (p.1, Severity::Warning, unused_prompt_code(), "prompt `"@ + p.0@ + "` is not used by any template"@),
            )
        }
    }
}

/// Reports the declared prompts that no template uses.
pub fn unused_prompt_diagnostics(prompts: &[(String, TextRange)], used: &[String]) -> (res: Vec<ProjectDiagnostic>)
    ensures
        project_diagnostics_view(res@) == unused_prompts(prompts@, used@),
{
    let mut out: Vec<ProjectDiagnostic> = Vec::new();
    let mut i: usize = 0;
    while i < prompts.len()
        invariant
            0 <= i <= prompts@.len(),
            project_diagnostics_view(out@) == unused_prompts(prompts@.take(i as int), used@),
        decreases prompts@.len() - i,
    {
        assert(prompts@.take(i + 1).drop_last() =~= prompts@.take(i as int));
        assert(prompts@.take(i + 1).last() == prompts@[i as int]);
        let (name, range) = (&prompts[i].0, prompts[i].1);
        if !contains_name(used, name.as_str()) {
            let mut message = "prompt `".to_owned();
            message.append(name.as_str());
            message.append("` is not used by any template");
            let d = ProjectDiagnostic { range, severity: Severity::Warning, code: "ACHLS0002".to_owned(), message };
            let ghost before = out@;
            out.push(d);
            assert(project_diagnostics_view(out@) =~= project_diagnostics_view(before).push(project_diagnostic_view(d)));
        }
        i = i + 1;
    }
    assert(prompts@.take(i as int) =~= prompts@);
    out
}

/// One error per template reference (name and range) to a prompt that is
/// not declared: "unknown prompt reference `name`".
pub open spec fn unknown_prompts(references: Seq<(String, TextRange)>, declared: Seq<String>) -> Seq<
    (TextRange, Severity, Seq<char>, Seq<char>),
>
    decreases references.len(),
{
    if references.len() == 0 {
        Seq::empty()
    } else {
        let r = references.last();
        let prev = unknown_prompts(references.drop_last(), declared);
        if has_name(declared, r.0@) {
            prev
        } else {
            prev.push((r.1, Severity::Error, unknown_prompt_code(), "unknown prompt reference `"@ + r.0@ + "`"@))
        }
    }
}

/// Reports the template references to prompts that are not declared.
pub fn unknown_prompt_diagnostics(references: &[(String, TextRange)], prompt_names: &[String]) -> (res: Vec<ProjectDiagnostic>)
    ensures
        project_diagnostics_view(res@) == unknown_prompts(references@, prompt_names@),
{
    let mut out: Vec<ProjectDiagnostic> = Vec::new();
    let mut i: usize = 0;
    while i < references.len()
        invariant
            0 <= i <= references@.len(),
            project_diagnostics_view(out@) == unknown_prompts(references@.take(i as int), prompt_names@),
        decreases references@.len() - i,
    {
        assert(references@.take(i + 1).drop_last() =~= references@.take(i as int));
        assert(references@.take(i + 1).last() == references@[i as int]);
        let (name, range) = (&references[i].0, references[i].1);
        if !contains_name(prompt_names, name.as_str()) {
            let mut message = "unknown prompt reference `".to_owned();
            message.append(name.as_str());
            message.append("`");
            let d = ProjectDiagnostic { range, severity: Severity::Error, code: "ACHLS0001".to_owned(), message };
            let ghost before = out@;
            out.push(d);
            assert(project_diagnostics_view(out@) =~= project_diagnostics_view(before).push(project_diagnostic_view(d)));
        }
        i = i + 1;
    }
    assert(references@.take(i as int) =~= references@);
    out
}

/// Renaming writes the new name itself, or the new name in double quotes
/// where the old text was quoted.
pub proof fn lemma_replacement_is_new_name(source: Seq<char>, range: TextRange, new_name: Seq<char>)
    ensures
        replacement_text(source, range, new_name) == new_name || replacement_text(source, range, new_name)
            == seq!['"'] + new_name + seq!['"'],
{
}

} // verus!
