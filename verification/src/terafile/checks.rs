//! Text checks that classify unparsable Tera source.
//!
//! Every check reads characters only: which tags a piece of text opens and
//! closes, what it starts with, and whether a tag occurs inside a macro
//! definition.

use vstd::prelude::*;

use crate::text::{chars_of, leading_white_space, starts_with, trim_start};

verus! {

/// The index of the first occurrence of `p` in `s`.
pub open spec fn find(s: Seq<char>, p: Seq<char>) -> Option<int>
    decreases s.len(),
{
    if starts_with(s, p) {
        Some(0)
    } else if s.len() == 0 {
        None
    } else {
        match find(s.drop_first(), p) {
            Some(i) => Some(i + 1),
            None => None,
        }
    }
}

/// Whether `p` occurs in `s`.
pub open spec fn contains(s: Seq<char>, p: Seq<char>) -> bool {
    find(s, p) is Some
}

/// The number of non-overlapping occurrences of a non-empty `p` in `s`,
/// counted from the left, as `str::matches` finds them.
pub open spec fn count_matches(s: Seq<char>, p: Seq<char>) -> nat
    decreases s.len(),
{
    if s.len() == 0 || p.len() == 0 {
        0
    } else if starts_with(s, p) {
        1 + count_matches(s.skip(p.len() as int), p)
    } else {
        count_matches(s.drop_first(), p)
    }
}

/// Whether text opens more Tera tags (`{{`, `{%`, `{#`) than it closes
/// (`}}`, `%}`, `#}`).
pub open spec fn unclosed_tag_start(t: Seq<char>) -> bool {
    count_matches(t, "{{"@) + count_matches(t, "{%"@) + count_matches(t, "{#"@) > count_matches(
        t,
        "}}"@,
    ) + count_matches(t, "%}"@) + count_matches(t, "#}"@)
}

/// The end tags of Tera blocks.
pub open spec fn end_tags() -> Seq<Seq<char>> {
    seq!["{% endif"@, "{% endfor"@, "{% endblock"@, "{% endmacro"@, "{% endfilter"@, "{% endraw"@]
}

/// The open tags of Tera blocks.
pub open spec fn open_tags() -> Seq<Seq<char>> {
    seq!["{% if"@, "{% for"@, "{% block"@, "{% macro"@, "{% filter"@, "{% raw"@]
}

/// Whether text, after leading white space, starts with an end tag.
pub open spec fn starts_with_end_tag(t: Seq<char>) -> bool {
    exists|k: int| 0 <= k < end_tags().len() && starts_with(trim_start(t), #[trigger] end_tags()[k])
}

/// Whether text, after leading white space, is an include without any quote
/// character, so that its path cannot be a string literal.
pub open spec fn dynamic_include_start(t: Seq<char>) -> bool {
    let r = trim_start(t);
    starts_with(r, "{% include"@) && !contains(r, seq!['"']) && !contains(r, seq!['\''])
        && !contains(r, seq!['`'])
}

/// Whether text holds both some open tag and some end tag.
pub open spec fn mismatched_end_tag(t: Seq<char>) -> bool {
    (exists|k: int| 0 <= k < open_tags().len() && contains(t, #[trigger] open_tags()[k])) && (exists|
        k: int,
    |
        0 <= k < end_tags().len() && contains(t, #[trigger] end_tags()[k]))
}

/// The first occurrence of `p` in `s` ends within `s`.
pub proof fn lemma_find_bounds(s: Seq<char>, p: Seq<char>)
    ensures
        find(s, p) matches Some(i) ==> 0 <= i && i + p.len() <= s.len(),
    decreases s.len(),
{
    if !starts_with(s, p) && s.len() > 0 {
        lemma_find_bounds(s.drop_first(), p);
    }
}

/// Whether `tag` occurs inside a macro definition of `rem`: between a
/// `{% macro` and the next `{% endmacro`, or after a `{% macro` that is never
/// closed.
pub open spec fn tag_inside_macro(rem: Seq<char>, tag: Seq<char>) -> bool
    decreases rem.len(),
{
    match find(rem, "{% macro"@) {
        Some(ms) => {
            let r = rem.skip(ms);
            match find(r, "{% endmacro"@) {
                Some(me) => {
                    proof {
                        lemma_find_bounds(rem, "{% macro"@);
                        lemma_find_bounds(r, "{% endmacro"@);
                    }
                    if 0 <= ms && 0 <= me && me + 11 <= r.len() {
                        contains(r.take(me), tag) || tag_inside_macro(r.skip(me + 11), tag)
                    } else {
                        false
                    }
                },
                None => contains(r, tag),
            }
        },
        None => false,
    }
}

/// Whether `s[i..hi]` starts with `p`.
fn matches_within(s: &Vec<char>, i: usize, hi: usize, p: &Vec<char>) -> (res: bool)
    requires
        i <= hi <= s@.len(),
    ensures
        res == starts_with(s@.subrange(i as int, hi as int), p@),
{
    if p.len() > hi - i {
        return false;
    }
    let mut k: usize = 0;
    while k < p.len()
        invariant
            i + p@.len() <= hi <= s@.len(),
            0 <= k <= p@.len(),
            forall|j: int| 0 <= j < k ==> s@[i + j] == p@[j],
        decreases p@.len() - k,
    {
        if s[i + k] != p[k] {
            assert(s@.subrange(i as int, hi as int).subrange(0, p@.len() as int)[k as int] != p@[k as int]);
            return false;
        }
        k = k + 1;
    }
    assert(s@.subrange(i as int, hi as int).subrange(0, p@.len() as int) =~= p@);
    true
}

/// The first occurrence of `p` in `s[lo..hi]`, as an index into `s`.
fn find_within(s: &Vec<char>, lo: usize, hi: usize, p: &Vec<char>) -> (res: Option<usize>)
    requires
        lo <= hi <= s@.len(),
    ensures
        match find(s@.subrange(lo as int, hi as int), p@) {
            Some(j) => res == Some((lo + j) as usize),
            None => res is None,
        },
{
    let mut i: usize = lo;
    while i < hi
        invariant
            lo <= i <= hi <= s@.len(),
            find(s@.subrange(lo as int, hi as int), p@) == match find(s@.subrange(i as int, hi as int), p@) {
                Some(j) => Some(j + (i - lo)),
                None => None,
            },
        decreases hi - i,
    {
        if matches_within(s, i, hi, p) {
            return Some(i);
        }
        assert(s@.subrange(i as int, hi as int).drop_first() =~= s@.subrange(i + 1, hi as int));
        i = i + 1;
    }
    assert(starts_with(s@.subrange(i as int, hi as int), p@) == (p@.len() == 0)) by {
        if p@.len() == 0 {
            assert(s@.subrange(i as int, hi as int).subrange(0, 0) =~= p@);
        }
    }
    if p.len() == 0 {
        return Some(i);
    }
    None
}

/// Whether `p` occurs in `s[lo..hi]`.
fn contains_within(s: &Vec<char>, lo: usize, hi: usize, p: &Vec<char>) -> (res: bool)
    requires
        lo <= hi <= s@.len(),
    ensures
        res == contains(s@.subrange(lo as int, hi as int), p@),
{
    find_within(s, lo, hi, p).is_some()
}

/// There are no more non-overlapping occurrences than characters.
proof fn lemma_count_matches_bound(s: Seq<char>, p: Seq<char>)
    ensures
        count_matches(s, p) <= s.len(),
    decreases s.len(),
{
    if s.len() > 0 && p.len() > 0 {
        if starts_with(s, p) {
            lemma_count_matches_bound(s.skip(p.len() as int), p);
        } else {
            lemma_count_matches_bound(s.drop_first(), p);
        }
    }
}

/// The number of non-overlapping occurrences of `p` in `s`.
fn count_in(s: &Vec<char>, p: &str) -> (res: usize)
    ensures
        res == count_matches(s@, p@),
{
    let pat = chars_of(p);
    let n = s.len();
    if pat.len() == 0 {
        return 0;
    }
    let mut i: usize = 0;
    let mut count: usize = 0;
    assert(s@.subrange(0, n as int) =~= s@);
    while i < n
        invariant
            n == s@.len(),
            pat@ == p@,
            pat@.len() > 0,
            0 <= i <= n,
            count <= i,
            count_matches(s@, p@) == count + count_matches(s@.subrange(i as int, n as int), p@),
        decreases n - i,
    {
        let hit = matches_within(s, i, n, &pat);
        if hit {
            assert(s@.subrange(i as int, n as int).skip(pat@.len() as int) =~= s@.subrange(
                i + pat@.len(),
                n as int,
            ));
            count = count + 1;
            i = i + pat.len();
        } else {
            assert(s@.subrange(i as int, n as int).drop_first() =~= s@.subrange(i + 1, n as int));
            i = i + 1;
        }
    }
    assert(s@.subrange(i as int, n as int).len() == 0);
    count
}

/// Whether text opens more Tera tags than it closes.
pub fn has_unclosed_tag_start(text: &str) -> (res: bool)
    ensures
        res == unclosed_tag_start(text@),
{
    let t = chars_of(text);
    let opens = count_in(&t, "{{") as u128 + count_in(&t, "{%") as u128 + count_in(&t, "{#") as u128;
    let closes = count_in(&t, "}}") as u128 + count_in(&t, "%}") as u128 + count_in(&t, "#}") as u128;
    opens > closes
}

/// Whether `t[from..]` starts with `p`.
fn starts_with_str(t: &Vec<char>, from: usize, p: &str) -> (res: bool)
    requires
        from <= t@.len(),
    ensures
        res == starts_with(t@.skip(from as int), p@),
{
    let pat = chars_of(p);
    assert(t@.subrange(from as int, t@.len() as int) =~= t@.skip(from as int));
    matches_within(t, from, t.len(), &pat)
}

/// Whether text, after leading white space, starts with an end tag.
pub fn starts_with_any_end_tag(text: &str) -> (res: bool)
    ensures
        res == starts_with_end_tag(text@),
{
    let t = chars_of(text);
    let skip = leading_white_space(&t);
    let r = starts_with_str(&t, skip, "{% endif") || starts_with_str(&t, skip, "{% endfor")
        || starts_with_str(&t, skip, "{% endblock") || starts_with_str(&t, skip, "{% endmacro")
        || starts_with_str(&t, skip, "{% endfilter") || starts_with_str(&t, skip, "{% endraw");
    proof {
        let tags = end_tags();
        if r {
            if starts_with(trim_start(text@), "{% endif"@) {
                assert(starts_with(trim_start(text@), tags[0]));
            } else if starts_with(trim_start(text@), "{% endfor"@) {
                assert(starts_with(trim_start(text@), tags[1]));
            } else if starts_with(trim_start(text@), "{% endblock"@) {
                assert(starts_with(trim_start(text@), tags[2]));
            } else if starts_with(trim_start(text@), "{% endmacro"@) {
                assert(starts_with(trim_start(text@), tags[3]));
            } else if starts_with(trim_start(text@), "{% endfilter"@) {
                assert(starts_with(trim_start(text@), tags[4]));
            } else {
                assert(starts_with(trim_start(text@), tags[5]));
            }
        } else {
            assert forall|k: int| 0 <= k < tags.len() implies !starts_with(trim_start(text@), #[trigger] tags[k]) by {
                if k == 0 {} else if k == 1 {} else if k == 2 {} else if k == 3 {} else if k == 4 {} else {}
            }
        }
    }
    r
}

/// Whether the characters of `t` include `c`.
fn has_char(t: &Vec<char>, from: usize, c: char) -> (res: bool)
    requires
        from <= t@.len(),
    ensures
        res == contains(t@.skip(from as int), seq![c]),
{
    let pat: Vec<char> = vec![c];
    assert(pat@ =~= seq![c]);
    assert(t@.subrange(from as int, t@.len() as int) =~= t@.skip(from as int));
    contains_within(t, from, t.len(), &pat)
}

/// Whether text, after leading white space, is an `include` whose path
/// cannot be a string literal.
pub fn starts_with_dynamic_include(text: &str) -> (res: bool)
    ensures
        res == dynamic_include_start(text@),
{
    let t = chars_of(text);
    let skip = leading_white_space(&t);
    starts_with_str(&t, skip, "{% include") && !has_char(&t, skip, '"') && !has_char(&t, skip, '\'')
        && !has_char(&t, skip, '`')
}

/// Whether `t` contains `p`.
pub(crate) fn contains_str(t: &Vec<char>, p: &str) -> (res: bool)
    ensures
        res == contains(t@, p@),
{
    let pat = chars_of(p);
    assert(t@.subrange(0, t@.len() as int) =~= t@);
    contains_within(t, 0, t.len(), &pat)
}

/// Whether text holds both an open tag and an end tag of Tera blocks.
pub fn contains_mismatched_end_tag(text: &str) -> (res: bool)
    ensures
        res == mismatched_end_tag(text@),
{
    let t = chars_of(text);
    let has_open = contains_str(&t, "{% if") || contains_str(&t, "{% for") || contains_str(&t, "{% block")
        || contains_str(&t, "{% macro") || contains_str(&t, "{% filter") || contains_str(&t, "{% raw");
    let has_end = contains_str(&t, "{% endif") || contains_str(&t, "{% endfor") || contains_str(
        &t,
        "{% endblock",
    ) || contains_str(&t, "{% endmacro") || contains_str(&t, "{% endfilter") || contains_str(
        &t,
        "{% endraw",
    );
    proof {
        let s = text@;
        let opens = open_tags();
        let ends = end_tags();
        if has_open {
            if contains(s, "{% if"@) {
                assert(contains(s, opens[0]));
            } else if contains(s, "{% for"@) {
                assert(contains(s, opens[1]));
            } else if contains(s, "{% block"@) {
                assert(contains(s, opens[2]));
            } else if contains(s, "{% macro"@) {
                assert(contains(s, opens[3]));
            } else if contains(s, "{% filter"@) {
                assert(contains(s, opens[4]));
            } else {
                assert(contains(s, opens[5]));
            }
        } else {
            assert forall|k: int| 0 <= k < opens.len() implies !contains(s, #[trigger] opens[k]) by {
                if k == 0 {} else if k == 1 {} else if k == 2 {} else if k == 3 {} else if k == 4 {} else {}
            }
        }
        if has_end {
            if contains(s, "{% endif"@) {
                assert(contains(s, ends[0]));
            } else if contains(s, "{% endfor"@) {
                assert(contains(s, ends[1]));
            } else if contains(s, "{% endblock"@) {
                assert(contains(s, ends[2]));
            } else if contains(s, "{% endmacro"@) {
                assert(contains(s, ends[3]));
            } else if contains(s, "{% endfilter"@) {
                assert(contains(s, ends[4]));
            } else {
                assert(contains(s, ends[5]));
            }
        } else {
            assert forall|k: int| 0 <= k < ends.len() implies !contains(s, #[trigger] ends[k]) by {
                if k == 0 {} else if k == 1 {} else if k == 2 {} else if k == 3 {} else if k == 4 {} else {}
            }
        }
    }
    has_open && has_end
}

/// Whether `tag` occurs inside a macro definition of `source`.
pub fn tag_appears_inside_macro(source: &str, tag: &str) -> (res: bool)
    ensures
        res == tag_inside_macro(source@, tag@),
{
    let s = chars_of(source);
    let n = s.len();
    let open = chars_of("{% macro");
    let close = chars_of("{% endmacro");
    let pat = chars_of(tag);
    proof {
        reveal_strlit("{% endmacro");
        assert(s@.subrange(0, n as int) =~= s@);
    }
    let mut lo: usize = 0;
    while lo <= n
        invariant
            n == s@.len(),
            s@ == source@,
            open@ == "{% macro"@,
            close@ == "{% endmacro"@,
            close@.len() == 11,
            pat@ == tag@,
            0 <= lo <= n,
            tag_inside_macro(s@, tag@) == tag_inside_macro(s@.subrange(lo as int, n as int), tag@),
        decreases n - lo,
    {
        let ghost rem = s@.subrange(lo as int, n as int);
        let start = match find_within(&s, lo, n, &open) {
            Some(start) => start,
            None => {
                return false;
            },
        };
        proof {
            lemma_find_bounds(rem, open@);
            assert(rem.skip(start - lo) =~= s@.subrange(start as int, n as int));
        }
        let end = match find_within(&s, start, n, &close) {
            Some(end) => end,
            None => {
                return contains_within(&s, start, n, &pat);
            },
        };
        proof {
            let r = s@.subrange(start as int, n as int);
            lemma_find_bounds(r, close@);
            assert(r.take(end - start) =~= s@.subrange(start as int, end as int));
            assert(r.skip(end - start + 11) =~= s@.subrange(end + 11, n as int));
        }
        if contains_within(&s, start, end, &pat) {
            return true;
        }
        lo = end + 11;
    }
    false
}

} // verus!
