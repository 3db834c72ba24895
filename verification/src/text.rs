//! Source coordinates and character-level text helpers.

use vstd::prelude::*;
use vstd::string::StringSliceAdditionalSpecFns;
use vstd::utf8::*;

verus! {

/// A zero-based position in source text: a line number and a UTF-8 byte
/// offset within that line.
#[derive(Debug, Clone, Copy, PartialEq, Eq, Structural, Hash, Default)]
pub struct TextPosition {
    /// Zero-based line number.
    pub line: usize,
    /// Zero-based UTF-8 byte offset within the line.
    pub byte: usize,
}

/// A range of source text between two positions.
#[derive(Debug, Clone, Copy, PartialEq, Eq, Structural, Hash, Default)]
pub struct TextRange {
    /// Start position of the range.
    pub start: TextPosition,
    /// End position of the range.
    pub end: TextPosition,
}

/// Collects the characters of a string slice.
pub fn chars_of(s: &str) -> (res: Vec<char>)
    ensures
        res@ == s@,
{
    let mut res: Vec<char> = Vec::new();
    for c in it: s.chars()
        invariant
            res@ == it.seq().take(it.index() as int),
            it.seq() == s@,
    {
        res.push(c);
    }
    res
}

/// Whether two string slices hold the same characters.
pub fn str_eq(a: &str, b: &str) -> (res: bool)
    ensures
        res == (a@ == b@),
{
    let x = a.as_bytes();
    let y = b.as_bytes();
    proof {
        encode_utf8_decode_utf8(a@);
        encode_utf8_decode_utf8(b@);
    }
    if x.len() != y.len() {
        return false;
    }
    let mut i: usize = 0;
    while i < x.len()
        invariant
            x@ == a.spec_bytes(),
            y@ == b.spec_bytes(),
            x@.len() == y@.len(),
            0 <= i <= x@.len(),
            forall|j: int| 0 <= j < i ==> x@[j] == y@[j],
        decreases x@.len() - i,
    {
        if x[i] != y[i] {
            return false;
        }
        i = i + 1;
    }
    assert(x@ =~= y@);
    true
}

/// Whether `c` has the Unicode `White_Space` property, which is what
/// `char::is_whitespace` tests.
pub open spec fn is_white_space(c: char) -> bool {
    let u = c as u32;
    ||| 0x09 <= u <= 0x0d
    ||| u == 0x20
    ||| u == 0x85
    ||| u == 0xa0
    ||| u == 0x1680
    ||| 0x2000 <= u <= 0x200a
    ||| u == 0x2028
    ||| u == 0x2029
    ||| u == 0x202f
    ||| u == 0x205f
    ||| u == 0x3000
}

/// Whether `c` has the Unicode `White_Space` property.
pub fn is_whitespace(c: char) -> (res: bool)
    ensures
        res == is_white_space(c),
{
    let u = c as u32;
    (0x09 <= u && u <= 0x0d) || u == 0x20 || u == 0x85 || u == 0xa0 || u == 0x1680 || (0x2000 <= u
        && u <= 0x200a) || u == 0x2028 || u == 0x2029 || u == 0x202f || u == 0x205f || u == 0x3000
}

/// `s` without its leading white space.
pub open spec fn trim_start(s: Seq<char>) -> Seq<char>
    decreases s.len(),
{
    if s.len() > 0 && is_white_space(s[0]) {
        trim_start(s.drop_first())
    } else {
        s
    }
}

/// Whether `s` begins with `prefix`.
pub open spec fn starts_with(s: Seq<char>, prefix: Seq<char>) -> bool {
    prefix.len() <= s.len() && s.subrange(0, prefix.len() as int) == prefix
}

/// The number of leading white-space characters of `s`.
pub fn leading_white_space(s: &Vec<char>) -> (res: usize)
    ensures
        res <= s@.len(),
        trim_start(s@) == s@.skip(res as int),
{
    let mut i: usize = 0;
    assert(s@.skip(0) =~= s@);
    while i < s.len() && is_whitespace(s[i])
        invariant
            0 <= i <= s@.len(),
            trim_start(s@) == trim_start(s@.skip(i as int)),
        decreases s@.len() - i,
    {
        assert(s@.skip(i as int).drop_first() =~= s@.skip(i + 1));
        i = i + 1;
    }
    i
}

/// Whether `s[from..]` begins with `prefix`.
pub fn starts_with_at(s: &Vec<char>, from: usize, prefix: &str) -> (res: bool)
    requires
        from <= s@.len(),
    ensures
        res == starts_with(s@.skip(from as int), prefix@),
{
    let p = chars_of(prefix);
    let n = s.len();
    if p.len() > n - from {
        return false;
    }
    let mut i: usize = 0;
    while i < p.len()
        invariant
            n == s@.len(),
            p@ == prefix@,
            from + p@.len() <= s@.len(),
            0 <= i <= p@.len(),
            forall|j: int| 0 <= j < i ==> s@[from + j] == p@[j],
        decreases p@.len() - i,
    {
        if s[from + i] != p[i] {
            assert(s@.skip(from as int).subrange(0, p@.len() as int)[i as int] != p@[i as int]);
            return false;
        }
        i = i + 1;
    }
    assert(s@.skip(from as int).subrange(0, p@.len() as int) =~= p@);
    true
}

/// A byte that is not the start of a multi-byte character is followed by a
/// character boundary.
pub proof fn lemma_boundary_after_ascii(b: Seq<u8>, i: int)
    requires
        valid_utf8(b),
        0 <= i < b.len(),
        is_char_boundary(b, i),
        b[i] <= 0x7f,
    ensures
        is_char_boundary(b, i + 1),
    decreases b.len(),
{
    if i == 0 {
        reveal_with_fuel(is_char_boundary, 2);
    } else {
        let len = length_of_first_scalar(b);
        let rest = pop_first_scalar(b);
        assert(is_char_boundary(rest, i - len));
        assert(rest[i - len] == b[i]);
        lemma_boundary_after_ascii(rest, i - len);
    }
}

/// An ASCII byte starts a character.
pub proof fn lemma_boundary_at_ascii(b: Seq<u8>, i: int)
    requires
        valid_utf8(b),
        0 <= i < b.len(),
        b[i] <= 0x7f,
    ensures
        is_char_boundary(b, i),
{
    is_char_boundary_iff_is_leading_byte(b, i);
}

/// A character boundary of a text is one of each prefix that extends past
/// it.
pub proof fn lemma_boundary_in_prefix(b: Seq<u8>, i: int, j: int)
    requires
        valid_utf8(b),
        0 <= i <= j <= b.len(),
        is_char_boundary(b, i),
        is_char_boundary(b, j),
    ensures
        valid_utf8(b.subrange(0, j)),
        is_char_boundary(b.subrange(0, j), i),
    decreases b.len(),
{
    valid_utf8_split(b, j);
    if i > 0 {
        let len = length_of_first_scalar(b);
        let rest = pop_first_scalar(b);
        assert(is_char_boundary(rest, i - len));
        assert(is_char_boundary(rest, j - len));
        lemma_boundary_in_prefix(rest, i - len, j - len);
        let c = b.subrange(0, j);
        assert(pop_first_scalar(c) =~= rest.subrange(0, j - len));
    }
}

/// The index of the first line feed at or after `from`, or the length of
/// `b` when there is none.
pub open spec fn next_newline(b: Seq<u8>, from: int) -> int
    decreases b.len() - from,
{
    if from < 0 || from >= b.len() {
        b.len() as int
    } else if b[from] == 10u8 {
        from
    } else {
        next_newline(b, from + 1)
    }
}

/// Where line `row` starts in `b`, when `b` has at least `row` line feeds.
pub open spec fn line_start(b: Seq<u8>, row: nat) -> Option<int>
    decreases row,
{
    if row == 0 {
        Some(0)
    } else {
        match line_start(b, (row - 1) as nat) {
            Some(p) => {
                let q = next_newline(b, p);
                if q < b.len() {
                    Some(q + 1)
                } else {
                    None
                }
            },
            None => None,
        }
    }
}

/// The byte range of line `row`, the way `str::lines` splits text: lines
/// end at a line feed, a carriage return right before that line feed is
/// dropped, and there is no line after a final line feed. A line that does
/// not exist is the empty range at 0.
pub open spec fn line_bounds(b: Seq<u8>, row: nat) -> (int, int) {
    match line_start(b, row) {
        Some(s) => if s < b.len() {
            let e = next_newline(b, s);
            let end = if e < b.len() && e > s && b[e - 1] == 13u8 {
                e - 1
            } else {
                e
            };
            (s, end)
        } else {
            (0, 0)
        },
        None => (0, 0),
    }
}

proof fn lemma_next_newline_bounds(b: Seq<u8>, from: int)
    requires
        0 <= from <= b.len(),
    ensures
        from <= next_newline(b, from) <= b.len(),
        next_newline(b, from) < b.len() ==> b[next_newline(b, from)] == 10u8,
    decreases b.len() - from,
{
    if from < b.len() && b[from] != 10u8 {
        lemma_next_newline_bounds(b, from + 1);
    }
}

proof fn lemma_line_start_none(b: Seq<u8>, k: nat, row: nat)
    requires
        k <= row,
        line_start(b, k) is None,
    ensures
        line_start(b, row) is None,
    decreases row - k,
{
    if k < row {
        lemma_line_start_none(b, (k + 1) as nat, row);
    }
}

/// The index of the first line feed in `b` at or after `from`.
fn find_newline(b: &[u8], from: usize) -> (res: usize)
    requires
        from <= b@.len(),
    ensures
        res == next_newline(b@, from as int),
{
    let mut i = from;
    while i < b.len() && b[i] != 10u8
        invariant
            from <= i <= b@.len(),
            next_newline(b@, from as int) == next_newline(b@, i as int),
        decreases b@.len() - i,
    {
        i = i + 1;
    }
    i
}

/// The byte range of line `row` of `b`, as [`line_bounds`] defines it.
pub fn line_bounds_of(b: &[u8], row: usize) -> (res: (usize, usize))
    ensures
        res.0 == line_bounds(b@, row as nat).0,
        res.1 == line_bounds(b@, row as nat).1,
{
    let mut start: usize = 0;
    let mut r: usize = 0;
    while r < row
        invariant
            0 <= r <= row,
            0 <= start <= b@.len(),
            line_start(b@, r as nat) == Some(start as int),
        decreases row - r,
    {
        let q = find_newline(b, start);
        proof {
            lemma_next_newline_bounds(b@, start as int);
        }
        if q >= b.len() {
            proof {
                assert(line_start(b@, (r + 1) as nat) is None);
                lemma_line_start_none(b@, (r + 1) as nat, row as nat);
            }
            return (0, 0);
        }
        start = q + 1;
        r = r + 1;
    }
    if start >= b.len() {
        return (0, 0);
    }
    let e = find_newline(b, start);
    proof {
        lemma_next_newline_bounds(b@, start as int);
    }
    let end = if e < b.len() && e > start && b[e - 1] == 13u8 {
        e - 1
    } else {
        e
    };
    (start, end)
}

/// Line `row` of `source`, the way `source.lines().nth(row)` finds it, or
/// the empty string when there is no such line.
pub fn source_line(source: &str, row: usize) -> (res: &str)
    ensures
        ({
            let b = source.spec_bytes();
            let (s, e) = line_bounds(b, row as nat);
            res.spec_bytes() == b.subrange(s, e)
        }),
{
    let b = source.as_bytes();
    let (s, e) = line_bounds_of(b, row);
    proof {
        let bytes = b@;
        encode_utf8_valid_utf8(source@);
        is_char_boundary_start_end_of_seq(bytes);
        if s != 0 || e != 0 {
            let ls = line_start(bytes, row as nat)->0;
            lemma_next_newline_bounds(bytes, ls);
            if row > 0 {
                let prev = line_start(bytes, (row - 1) as nat)->0;
                lemma_line_start_bounds(bytes, (row - 1) as nat);
                lemma_next_newline_bounds(bytes, prev);
                lemma_boundary_at_ascii(bytes, s - 1);
                lemma_boundary_after_ascii(bytes, s - 1);
            }
            if e < bytes.len() {
                lemma_boundary_at_ascii(bytes, e as int);
            }
            lemma_boundary_in_prefix(bytes, s as int, e as int);
        }
    }
    let (head, _) = source.split_at(e);
    let (_, line) = head.split_at(s);
    proof {
        assert(line.spec_bytes() =~= b@.subrange(s as int, e as int));
    }
    line
}

proof fn lemma_line_start_bounds(b: Seq<u8>, row: nat)
    ensures
        line_start(b, row) matches Some(s) ==> 0 <= s <= b.len(),
    decreases row,
{
    if row > 0 {
        lemma_line_start_bounds(b, (row - 1) as nat);
        if let Some(p) = line_start(b, (row - 1) as nat) {
            lemma_next_newline_bounds(b, p);
        }
    }
}

/// The byte range that [`line_bounds`] gives lies within `b`.
pub proof fn lemma_line_bounds(b: Seq<u8>, row: nat)
    ensures
        0 <= line_bounds(b, row).0 <= line_bounds(b, row).1 <= b.len(),
{
    lemma_line_start_bounds(b, row);
    if let Some(s) = line_start(b, row) {
        if s < b.len() {
            lemma_next_newline_bounds(b, s);
        }
    }
}

/// Whether `b` has a line `row`, the way `str::lines` counts lines: there
/// is no line after a final line feed.
pub open spec fn line_exists(b: Seq<u8>, row: nat) -> bool {
    line_start(b, row) matches Some(s) && s < b.len()
}

/// Where line `row` starts, when there are at least `row` line feeds.
fn line_start_of(b: &[u8], row: usize) -> (res: Option<usize>)
    ensures
        res is None <==> line_start(b@, row as nat) is None,
        res matches Some(x) ==> line_start(b@, row as nat) == Some(x as int),
{
    let mut start: usize = 0;
    let mut r: usize = 0;
    while r < row
        invariant
            0 <= r <= row,
            0 <= start <= b@.len(),
            line_start(b@, r as nat) == Some(start as int),
        decreases row - r,
    {
        let q = find_newline(b, start);
        proof {
            lemma_next_newline_bounds(b@, start as int);
        }
        if q >= b.len() {
            proof {
                assert(line_start(b@, (r + 1) as nat) is None);
                lemma_line_start_none(b@, (r + 1) as nat, row as nat);
            }
            return None;
        }
        start = q + 1;
        r = r + 1;
    }
    Some(start)
}

/// Line `row` of `source`, the way `source.lines().nth(row)` finds it.
pub fn nth_line(source: &str, row: usize) -> (res: Option<&str>)
    ensures
        res is Some <==> line_exists(source.spec_bytes(), row as nat),
        res matches Some(l) ==> ({
            let b = source.spec_bytes();
            let (s, e) = line_bounds(b, row as nat);
            l.spec_bytes() == b.subrange(s, e)
        }),
{
    let b = source.as_bytes();
    match line_start_of(b, row) {
        Some(s) => {
            if s >= b.len() {
                return None;
            }
        },
        None => {
            return None;
        },
    }
    Some(source_line(source, row))
}

} // verus!
