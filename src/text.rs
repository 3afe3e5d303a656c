//! Character-level helpers shared by the parsers: the mathematical notions of
//! "first" and "last" occurrence, their executable counterparts on `Vec<char>`,
//! and the few std conversions between `String`, `Vec<char>` and bytes.
use vstd::prelude::*;
use vstd::utf8::{decode_utf8, valid_utf8};

verus! {

/// `c` does not occur in `s`.
pub open spec fn has_no(s: Seq<char>, c: char) -> bool {
    forall|i: int| 0 <= i < s.len() ==> s[i] != c
}

/// `i` is the position of the first `c` in `s`.
pub open spec fn is_first(s: Seq<char>, c: char, i: int) -> bool {
    0 <= i < s.len() && s[i] == c && has_no(s.subrange(0, i), c)
}

/// `i` is the position of the last `c` in `s`.
pub open spec fn is_last(s: Seq<char>, c: char, i: int) -> bool {
    0 <= i < s.len() && s[i] == c && has_no(s.subrange(i + 1, s.len() as int), c)
}

/// Position of the first `c` in `s`, or -1 when there is none.
pub open spec fn first_index_of(s: Seq<char>, c: char) -> int {
    if has_no(s, c) {
        -1
    } else {
        choose|i: int| is_first(s, c, i)
    }
}

/// Position of the last `c` in `s`, or -1 when there is none.
pub open spec fn last_index_of(s: Seq<char>, c: char) -> int {
    if has_no(s, c) {
        -1
    } else {
        choose|i: int| is_last(s, c, i)
    }
}

/// The first occurrence is the unique index with its defining property.
pub proof fn lemma_first_index(s: Seq<char>, c: char, i: int)
    requires
        is_first(s, c, i),
    ensures
        first_index_of(s, c) == i,
{
    assert(!has_no(s, c));
    let j = choose|j: int| is_first(s, c, j);
    if j < i {
        assert(s.subrange(0, i)[j] == c);
    } else if i < j {
        assert(s.subrange(0, j)[i] == c);
    }
}

/// The last occurrence is the unique index with its defining property.
pub proof fn lemma_last_index(s: Seq<char>, c: char, i: int)
    requires
        is_last(s, c, i),
    ensures
        last_index_of(s, c) == i,
{
    assert(!has_no(s, c));
    let j = choose|j: int| is_last(s, c, j);
    if j < i {
        assert(s.subrange(j + 1, s.len() as int)[i - j - 1] == c);
    } else if i < j {
        assert(s.subrange(i + 1, s.len() as int)[j - i - 1] == c);
    }
}

/// Some occurrence at `k` gives the first one, at or before `k`.
proof fn lemma_first_from(s: Seq<char>, c: char, k: int)
    requires
        0 <= k < s.len(),
        s[k] == c,
    ensures
        is_first(s, c, first_index_of(s, c)),
    decreases k,
{
    if has_no(s.subrange(0, k), c) {
        lemma_first_index(s, c, k);
    } else {
        let j = choose|j: int| 0 <= j < k && s.subrange(0, k)[j] == c;
        lemma_first_from(s, c, j);
    }
}

/// Some occurrence at `k` gives the last one, at or after `k`.
proof fn lemma_last_from(s: Seq<char>, c: char, k: int)
    requires
        0 <= k < s.len(),
        s[k] == c,
    ensures
        is_last(s, c, last_index_of(s, c)),
    decreases s.len() - k,
{
    let t = s.subrange(k + 1, s.len() as int);
    if has_no(t, c) {
        lemma_last_index(s, c, k);
    } else {
        let j = choose|j: int| 0 <= j < t.len() && t[j] == c;
        lemma_last_from(s, c, k + 1 + j);
    }
}

/// `first_index_of` is -1 exactly when `c` is absent, and else the first occurrence.
pub proof fn lemma_first_index_of(s: Seq<char>, c: char)
    ensures
        first_index_of(s, c) == -1 <==> has_no(s, c),
        !has_no(s, c) ==> is_first(s, c, first_index_of(s, c)),
{
    if !has_no(s, c) {
        let k = choose|k: int| 0 <= k < s.len() && s[k] == c;
        lemma_first_from(s, c, k);
    }
}

/// `last_index_of` is -1 exactly when `c` is absent, and else the last occurrence.
pub proof fn lemma_last_index_of(s: Seq<char>, c: char)
    ensures
        last_index_of(s, c) == -1 <==> has_no(s, c),
        !has_no(s, c) ==> is_last(s, c, last_index_of(s, c)),
{
    if !has_no(s, c) {
        let k = choose|k: int| 0 <= k < s.len() && s[k] == c;
        lemma_last_from(s, c, k);
    }
}

/// Position of the first `c` among `v[0..end]`, found left to right.
pub fn find_first(v: &Vec<char>, c: char, end: usize) -> (r: Option<usize>)
    requires
        end <= v@.len(),
    ensures
        match r {
            Some(i) => i < end && is_first(v@.subrange(0, end as int), c, i as int)
                && first_index_of(v@.subrange(0, end as int), c) == i,
            None => has_no(v@.subrange(0, end as int), c) && first_index_of(
                v@.subrange(0, end as int),
                c,
            ) == -1,
        },
{
    let ghost s = v@.subrange(0, end as int);
    let mut i: usize = 0;
    while i < end
        invariant
            i <= end <= v@.len(),
            s == v@.subrange(0, end as int),
            has_no(s.subrange(0, i as int), c),
        decreases end - i,
    {
        if v[i] == c {
            proof {
                lemma_first_index(s, c, i as int);
            }
            return Some(i);
        }
        proof {
            assert(s.subrange(0, i + 1) =~= s.subrange(0, i as int).push(v@[i as int]));
        }
        i = i + 1;
    }
    assert(s.subrange(0, end as int) =~= s);
    None
}

/// Position of the last `c` among `v[0..end]`, found right to left.
pub fn find_last(v: &Vec<char>, c: char, end: usize) -> (r: Option<usize>)
    requires
        end <= v@.len(),
    ensures
        match r {
            Some(i) => i < end && is_last(v@.subrange(0, end as int), c, i as int)
                && last_index_of(v@.subrange(0, end as int), c) == i,
            None => has_no(v@.subrange(0, end as int), c) && last_index_of(
                v@.subrange(0, end as int),
                c,
            ) == -1,
        },
{
    let ghost s = v@.subrange(0, end as int);
    let mut i: usize = end;
    while i > 0
        invariant
            i <= end <= v@.len(),
            s == v@.subrange(0, end as int),
            has_no(s.subrange(i as int, end as int), c),
        decreases i,
    {
        if v[i - 1] == c {
            proof {
                lemma_last_index(s, c, i - 1);
            }
            return Some(i - 1);
        }
        proof {
            assert(s.subrange(i - 1, end as int) =~= seq![v@[i - 1]] + s.subrange(
                i as int,
                end as int,
            ));
        }
        i = i - 1;
    }
    assert(s.subrange(0, end as int) =~= s);
    None
}

/// The characters of `s`, one per element.
pub fn chars_of(s: &str) -> (r: Vec<char>)
    ensures
        r@ == s@,
{
    let mut r: Vec<char> = Vec::new();
    for c in it: s.chars()
        invariant
            r@ == it.seq().subrange(0, it.index() as int),
            it.seq() == s@,
    {
        r.push(c);
    }
    r
}

/// Relies on `String::push`: appends the character to the end of the string.
#[verifier::external_body]
fn push_char(s: &mut String, c: char)
    ensures
        final(s)@ == old(s)@.push(c),
{
    s.push(c)
}

/// A new string holding exactly `chars`, in order.
pub fn string_of(chars: &[char]) -> (r: String)
    ensures
        r@ == chars@,
{
    let mut r = String::new();
    let mut i: usize = 0;
    while i < chars.len()
        invariant
            i <= chars@.len(),
            r@ == chars@.subrange(0, i as int),
        decreases chars@.len() - i,
    {
        push_char(&mut r, chars[i]);
        assert(chars@.subrange(0, i + 1) =~= chars@.subrange(0, i as int).push(chars@[i as int]));
        i = i + 1;
    }
    assert(chars@.subrange(0, i as int) =~= chars@);
    r
}

/// Relies on `String::from_utf8`: it succeeds exactly on well-formed UTF-8 and
/// then holds the characters those bytes encode.
#[verifier::external_body]
pub(crate) fn utf8_string(bytes: Vec<u8>) -> (r: Option<String>)
    ensures
        r is Some <==> valid_utf8(bytes@),
        r is Some ==> r->0@ == decode_utf8(bytes@),
{
    match String::from_utf8(bytes) {
        Ok(s) => Some(s),
        Err(_) => None,
    }
}

/// The characters `v[from..to]` as a new string.
pub fn string_range(v: &Vec<char>, from: usize, to: usize) -> (r: String)
    requires
        from <= to <= v@.len(),
    ensures
        r@ == v@.subrange(from as int, to as int),
{
    string_of(&v.as_slice()[from..to])
}

/// `a` and `b` are the same text.
pub fn same_str(a: &str, b: &str) -> (r: bool)
    ensures
        r == (a@ == b@),
{
    String::from_str(a) == String::from_str(b)
}

/// `a` and `b` hold the same characters.
pub fn same_chars(a: &Vec<char>, b: &Vec<char>) -> (r: bool)
    ensures
        r == (a@ == b@),
{
    if a.len() != b.len() {
        return false;
    }
    let mut i: usize = 0;
    while i < a.len()
        invariant
            a@.len() == b@.len(),
            i <= a@.len(),
            a@.subrange(0, i as int) == b@.subrange(0, i as int),
        decreases a@.len() - i,
    {
        if a[i] != b[i] {
            return false;
        }
        assert(a@.subrange(0, i + 1) =~= a@.subrange(0, i as int).push(a@[i as int]));
        assert(b@.subrange(0, i + 1) =~= b@.subrange(0, i as int).push(b@[i as int]));
        i = i + 1;
    }
    assert(a@.subrange(0, i as int) =~= a@);
    assert(b@.subrange(0, i as int) =~= b@);
    true
}

/// `s` ends with `suffix`.
pub open spec fn ends_with(s: Seq<char>, suffix: Seq<char>) -> bool {
    suffix.len() <= s.len() && s.subrange(s.len() - suffix.len(), s.len() as int) == suffix
}

/// `v` ends with `suffix`.
pub fn chars_end_with(v: &Vec<char>, suffix: &Vec<char>) -> (r: bool)
    ensures
        r == ends_with(v@, suffix@),
{
    if suffix.len() > v.len() {
        return false;
    }
    let off = v.len() - suffix.len();
    let mut i: usize = 0;
    while i < suffix.len()
        invariant
            off + suffix@.len() == v@.len(),
            v@.len() <= usize::MAX,
            i <= suffix@.len(),
            forall|j: int| 0 <= j < i ==> v@[off + j] == suffix@[j],
        decreases suffix@.len() - i,
    {
        if v[off + i] != suffix[i] {
            assert(v@.subrange(off as int, v@.len() as int)[i as int] != suffix@[i as int]);
            return false;
        }
        i = i + 1;
    }
    assert(v@.subrange(off as int, v@.len() as int) =~= suffix@);
    true
}

/// The pieces of `s` between newlines, as `str::split('\n')` gives them: there
/// is always at least one, and a trailing newline leaves an empty last piece.
pub open spec fn split_lines(s: Seq<char>) -> Seq<Seq<char>>
    decreases s.len(),
{
    if s.len() == 0 {
        seq![Seq::empty()]
    } else {
        let prev = split_lines(s.drop_last());
        if s.last() == '\n' {
            prev.push(Seq::empty())
        } else {
            prev.update(prev.len() - 1, prev.last().push(s.last()))
        }
    }
}

pub proof fn lemma_split_lines_nonempty(s: Seq<char>)
    ensures
        split_lines(s).len() >= 1,
    decreases s.len(),
{
    if s.len() > 0 {
        lemma_split_lines_nonempty(s.drop_last());
    }
}

/// The views of a list of strings.
pub open spec fn views(names: Seq<String>) -> Seq<Seq<char>> {
    names.map_values(|s: String| s@)
}

pub open spec fn char_views(ls: Seq<Vec<char>>) -> Seq<Seq<char>> {
    ls.map_values(|l: Vec<char>| l@)
}

/// The lines of `v`, split at each newline.
pub fn lines_of(v: &Vec<char>) -> (r: Vec<Vec<char>>)
    ensures
        char_views(r@) == split_lines(v@),
{
    let mut out: Vec<Vec<char>> = Vec::new();
    let mut cur: Vec<char> = Vec::new();
    let mut i: usize = 0;
    while i < v.len()
        invariant
            i <= v@.len(),
            char_views(out@).push(cur@) == split_lines(v@.take(i as int)),
        decreases v@.len() - i,
    {
        let ghost prev = split_lines(v@.take(i as int));
        assert(v@.take(i + 1).drop_last() =~= v@.take(i as int));
        if v[i] == '\n' {
            let done = cur;
            out.push(done);
            cur = Vec::new();
            assert(char_views(out@).push(cur@) =~= prev.push(Seq::empty()));
        } else {
            cur.push(v[i]);
            assert(char_views(out@).push(cur@) =~= prev.update(
                prev.len() - 1,
                prev.last().push(v@[i as int]),
            ));
        }
        i = i + 1;
    }
    assert(v@.take(i as int) =~= v@);
    out.push(cur);
    assert(char_views(out@) =~= split_lines(v@));
    out
}

/// The lines of `s` as `str::split_terminator('\n')` gives them: a final
/// newline ends the last line rather than starting another.
pub open spec fn terminated_lines(s: Seq<char>) -> Seq<Seq<char>> {
    let ls = split_lines(s);
    if ls.last().len() == 0 {
        ls.drop_last()
    } else {
        ls
    }
}

/// The lines of `v`, each ended by a newline or by the end of `v`.
pub fn terminated_lines_of(v: &Vec<char>) -> (r: Vec<Vec<char>>)
    ensures
        char_views(r@) == terminated_lines(v@),
{
    let mut lines = lines_of(v);
    proof {
        lemma_split_lines_nonempty(v@);
    }
    if lines[lines.len() - 1].len() == 0 {
        let ghost before = lines@;
        lines.pop();
        assert(char_views(lines@) =~= char_views(before).drop_last());
    }
    lines
}

} // verus!
