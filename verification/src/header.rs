//! The grammar of the `Cookie` request header.
//!
//! A header is a list of segments separated by `;`. A segment that holds
//! nothing but white space is skipped; any other segment must hold a `=`,
//! which parts a name from a value, and both are trimmed of white space.

use vstd::prelude::*;

verus! {

/// Whether `c` has the Unicode property `White_Space`.
pub open spec fn spec_is_whitespace(c: char) -> bool {
    let n = c as u32;
    ||| 0x09 <= n <= 0x0D
    ||| n == 0x20
    ||| n == 0x85
    ||| n == 0xA0
    ||| n == 0x1680
    ||| 0x2000 <= n <= 0x200A
    ||| n == 0x2028
    ||| n == 0x2029
    ||| n == 0x202F
    ||| n == 0x205F
    ||| n == 0x3000
}

/// Whether every character of `s` is white space.
pub open spec fn all_whitespace(s: Seq<char>) -> bool {
    forall|i: int| 0 <= i < s.len() ==> spec_is_whitespace(#[trigger] s[i])
}

/// The index of the first `c` in `s`, or the length of `s` if it holds none.
pub open spec fn position(s: Seq<char>, c: char) -> nat
    decreases s.len(),
{
    if s.len() == 0 || s[0] == c {
        0
    } else {
        1 + position(s.drop_first(), c)
    }
}

/// The pieces of `s` between the occurrences of `sep`, in order. There is
/// always one piece more than there are separators.
pub open spec fn split(s: Seq<char>, sep: char) -> Seq<Seq<char>>
    decreases s.len(),
{
    let p = position(s, sep) as int;
    if p < s.len() {
        seq![s.take(p)] + split(s.skip(p + 1), sep)
    } else {
        seq![s]
    }
}

/// `s` without its leading white space.
pub open spec fn trim_start(s: Seq<char>) -> Seq<char>
    decreases s.len(),
{
    if s.len() > 0 && spec_is_whitespace(s.first()) {
        trim_start(s.drop_first())
    } else {
        s
    }
}

/// `s` without its trailing white space.
pub open spec fn trim_end(s: Seq<char>) -> Seq<char>
    decreases s.len(),
{
    if s.len() > 0 && spec_is_whitespace(s.last()) {
        trim_end(s.drop_last())
    } else {
        s
    }
}

/// `s` without its leading and trailing white space.
pub open spec fn trim(s: Seq<char>) -> Seq<char> {
    trim_end(trim_start(s))
}

/// What one segment of a cookie header holds.
#[derive(Debug, Clone, PartialEq, Eq)]
pub enum Segment {
    /// Nothing but white space.
    Blank,
    /// A name that is not empty, and a value.
    Pair { name: String, value: String },
    /// No `=`: the segment as it stood.
    MissingPair { fragment: String },
    /// A `=` with nothing but white space before it: the value after it.
    EmptyName { value: String },
}

/// The mathematical model of a [`Segment`].
pub enum SegmentView {
    Blank,
    Pair { name: Seq<char>, value: Seq<char> },
    MissingPair { fragment: Seq<char> },
    EmptyName { value: Seq<char> },
}

impl View for Segment {
    type V = SegmentView;

    open spec fn view(&self) -> SegmentView {
        match self {
            Segment::Blank => SegmentView::Blank,
            Segment::Pair { name, value } => SegmentView::Pair { name: name@, value: value@ },
            Segment::MissingPair { fragment } => SegmentView::MissingPair { fragment: fragment@ },
            Segment::EmptyName { value } => SegmentView::EmptyName { value: value@ },
        }
    }
}

/// What the segment `segment` holds: the name is what stands before the
/// first `=`, the value is all that follows it.
pub open spec fn classify(segment: Seq<char>) -> SegmentView {
    let p = position(segment, '=') as int;
    if all_whitespace(segment) {
        SegmentView::Blank
    } else if p >= segment.len() {
        SegmentView::MissingPair { fragment: segment }
    } else if trim(segment.take(p)).len() == 0 {
        SegmentView::EmptyName { value: trim(segment.skip(p + 1)) }
    } else {
        SegmentView::Pair { name: trim(segment.take(p)), value: trim(segment.skip(p + 1)) }
    }
}

/// The views of a sequence of strings.
pub open spec fn texts(v: Seq<String>) -> Seq<Seq<char>> {
    v.map_values(|s: String| s@)
}

/// An index of which these three hold is the one that `position` returns.
pub proof fn lemma_position_is(s: Seq<char>, c: char, p: int)
    requires
        0 <= p <= s.len(),
        forall|j: int| 0 <= j < p ==> s[j] != c,
        p < s.len() ==> s[p] == c,
    ensures
        position(s, c) == p,
    decreases p,
{
    if p > 0 {
        let rest = s.drop_first();
        assert(s[0] != c);
        assert forall|j: int| 0 <= j < p - 1 implies rest[j] != c by {
            assert(rest[j] == s[j + 1]);
        }
        lemma_position_is(rest, c, p - 1);
    }
}

/// Whether `c` is white space.
pub fn is_whitespace(c: char) -> (r: bool)
    ensures
        r == spec_is_whitespace(c),
{
    let n: u32 = c as u32;
    (0x09 <= n && n <= 0x0D) || n == 0x20 || n == 0x85 || n == 0xA0 || n == 0x1680 || (0x2000
        <= n && n <= 0x200A) || n == 0x2028 || n == 0x2029 || n == 0x202F || n == 0x205F || n
        == 0x3000
}

/// The characters of `s`.
fn chars_of(s: &str) -> (r: Vec<char>)
    ensures
        r@ == s@,
{
    let mut out: Vec<char> = Vec::new();
    for c in it: s.chars()
        invariant
            it.seq() == s@,
            out@ == s@.subrange(0, it.index()),
    {
        out.push(c);
    }
    assert(out@ == s@);
    out
}

/// The index of the first `c` at or after `from`, or the length.
fn find(chars: &Vec<char>, from: usize, c: char) -> (r: usize)
    requires
        from <= chars.len(),
    ensures
        from <= r <= chars.len(),
        r - from == position(chars@.skip(from as int), c),
{
    let mut i: usize = from;
    while i < chars.len() && chars[i] != c
        invariant
            from <= i <= chars.len(),
            forall|j: int| from <= j < i ==> chars@[j] != c,
        decreases chars.len() - i,
    {
        i = i + 1;
    }
    proof {
        lemma_position_is(chars@.skip(from as int), c, i - from);
    }
    i
}

/// Whether the characters from `a` to `b` are all white space.
fn blank(chars: &Vec<char>, a: usize, b: usize) -> (r: bool)
    requires
        a <= b <= chars.len(),
    ensures
        r == all_whitespace(chars@.subrange(a as int, b as int)),
{
    let ghost s = chars@.subrange(a as int, b as int);
    let mut i: usize = a;
    while i < b
        invariant
            a <= i <= b <= chars.len(),
            s == chars@.subrange(a as int, b as int),
            forall|j: int| 0 <= j < i - a ==> spec_is_whitespace(#[trigger] s[j]),
        decreases b - i,
    {
        if !is_whitespace(chars[i]) {
            assert(!spec_is_whitespace(s[i - a]));
            return false;
        }
        i = i + 1;
    }
    true
}

/// The bounds of what is left of the characters from `a` to `b` once the
/// white space on both sides is gone.
fn trim_bounds(chars: &Vec<char>, a: usize, b: usize) -> (r: (usize, usize))
    requires
        a <= b <= chars.len(),
    ensures
        a <= r.0 <= r.1 <= b,
        chars@.subrange(r.0 as int, r.1 as int) == trim(chars@.subrange(a as int, b as int)),
{
    let mut i: usize = a;
    while i < b && is_whitespace(chars[i])
        invariant
            a <= i <= b <= chars.len(),
            trim_start(chars@.subrange(a as int, b as int)) == trim_start(
                chars@.subrange(i as int, b as int),
            ),
        decreases b - i,
    {
        assert(chars@.subrange(i as int, b as int).drop_first() == chars@.subrange(
            i + 1,
            b as int,
        ));
        i = i + 1;
    }
    assert(trim_start(chars@.subrange(i as int, b as int)) == chars@.subrange(i as int, b as int));
    let mut j: usize = b;
    while i < j && is_whitespace(chars[j - 1])
        invariant
            i <= j <= b <= chars.len(),
            trim_end(chars@.subrange(i as int, b as int)) == trim_end(
                chars@.subrange(i as int, j as int),
            ),
        decreases j - i,
    {
        assert(chars@.subrange(i as int, j as int).drop_last() == chars@.subrange(
            i as int,
            j - 1,
        ));
        j = j - 1;
    }
    assert(trim_end(chars@.subrange(i as int, j as int)) == chars@.subrange(i as int, j as int));
    (i, j)
}

/// Reads one segment of a cookie header.
pub fn parse_segment(segment: &str) -> (r: Segment)
    ensures
        r@ == classify(segment@),
{
    let chars = chars_of(segment);
    let n = chars.len();
    assert(chars@.subrange(0, n as int) == segment@);
    if blank(&chars, 0, n) {
        return Segment::Blank;
    }
    let eq = find(&chars, 0, '=');
    assert(chars@.skip(0) == segment@);
    if eq >= n {
        return Segment::MissingPair { fragment: segment.to_owned() };
    }
    let (na, nb) = trim_bounds(&chars, 0, eq);
    let (va, vb) = trim_bounds(&chars, eq + 1, n);
    assert(chars@.subrange(0, eq as int) == segment@.take(eq as int));
    assert(chars@.subrange(eq + 1, n as int) == segment@.skip(eq + 1));
    let value = segment.substring_char(va, vb).to_owned();
    if na == nb {
        assert(chars@.subrange(na as int, nb as int).len() == 0);
        return Segment::EmptyName { value };
    }
    let name = segment.substring_char(na, nb).to_owned();
    Segment::Pair { name, value }
}

/// The segments of a cookie header: what stands between its `;`.
pub fn segments(header: &str) -> (r: Vec<String>)
    ensures
        texts(r@) == split(header@, ';'),
{
    let chars = chars_of(header);
    let n = chars.len();
    let mut out: Vec<String> = Vec::new();
    let mut start: usize = 0;
    let mut done = false;
    assert(chars@.skip(0) == chars@);
    assert(texts(out@) + split(chars@.skip(0), ';') == split(header@, ';'));
    while !done
        invariant
            start <= n == chars.len(),
            chars@ == header@,
            !done ==> texts(out@) + split(chars@.skip(start as int), ';') == split(header@, ';'),
            done ==> texts(out@) == split(header@, ';'),
        decreases n - start + if done { 0int } else { 1int },
    {
        let end = find(&chars, start, ';');
        let piece = header.substring_char(start, end).to_owned();
        let ghost rest = chars@.skip(start as int);
        let ghost before = out@;
        out.push(piece);
        proof {
            assert(piece@ == rest.take(end - start));
            assert(texts(out@) == texts(before) + seq![piece@]);
            if end < n {
                assert(rest.skip(end - start + 1) == chars@.skip(end + 1));
            } else {
                assert(rest.take(end - start) == rest);
            }
        }
        if end < n {
            start = end + 1;
        } else {
            done = true;
        }
    }
    out
}

} // verus!
