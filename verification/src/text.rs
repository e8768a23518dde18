//! Character-level text helpers shared by the routing and rendering code.
//!
//! Every function here works on sequences of `char`s; the contracts are
//! stated over `Seq<char>`, the view of `str` and `String`.

use vstd::prelude::*;

verus! {

/// The characters of `s`, in order.
pub fn chars_of(s: &str) -> (out: Vec<char>)
    ensures
        out@ == s@,
{
    let mut out: Vec<char> = Vec::new();
    for c in it: s.chars()
        invariant
            it.seq() == s@,
            out@ == it.seq().take(it.index()),
    {
        out.push(c);
    }
    out
}

/// Trusted: `String::from_iter` over the characters of a slice. The standard
/// library documents that the string holds exactly the characters it was
/// collected from, in order; that is all the contract claims.
#[verifier::external_body]
pub(crate) fn collect_string(chars: &[char]) -> (out: String)
    ensures
        out@ == chars@,
{
    String::from_iter(chars.iter())
}

/// A copy of `s[from..to]`.
pub fn slice_of(s: &[char], from: usize, to: usize) -> (out: Vec<char>)
    requires
        from <= to <= s.len(),
    ensures
        out@ == s@.subrange(from as int, to as int),
{
    let mut out: Vec<char> = Vec::new();
    let mut i: usize = from;
    while i < to
        invariant
            from <= i <= to <= s.len(),
            out@ == s@.subrange(from as int, i as int),
        decreases to - i,
    {
        out.push(s[i]);
        i += 1;
    }
    out
}

/// Appends all of `tail` to `out`.
pub fn push_all(out: &mut Vec<char>, tail: &[char])
    ensures
        final(out)@ == old(out)@ + tail@,
{
    let mut i: usize = 0;
    while i < tail.len()
        invariant
            i <= tail.len(),
            out@ == old(out)@ + tail@.take(i as int),
        decreases tail.len() - i,
    {
        out.push(tail[i]);
        i += 1;
    }
}

/// Appends the characters of `tail` to `out`.
pub fn push_text(out: &mut Vec<char>, tail: &str)
    ensures
        final(out)@ == old(out)@ + tail@,
{
    let chars = chars_of(tail);
    push_all(out, chars.as_slice());
}

/// Whether two character sequences are equal.
pub fn same_chars(a: &[char], b: &[char]) -> (same: bool)
    ensures
        same == (a@ == b@),
{
    if a.len() != b.len() {
        return false;
    }
    let mut i: usize = 0;
    while i < a.len()
        invariant
            i <= a.len(),
            a.len() == b.len(),
            a@.take(i as int) == b@.take(i as int),
        decreases a.len() - i,
    {
        if a[i] != b[i] {
            return false;
        }
        i += 1;
    }
    assert(a@.take(a.len() as int) == a@);
    assert(b@.take(b.len() as int) == b@);
    true
}

/// `pat` occurs in `s` starting at index `at`.
pub open spec fn matches_at(s: Seq<char>, at: int, pat: Seq<char>) -> bool {
    0 <= at && at + pat.len() <= s.len() && s.subrange(at, at + pat.len()) == pat
}

/// `s` begins with `pat`.
pub open spec fn has_prefix(s: Seq<char>, pat: Seq<char>) -> bool {
    matches_at(s, 0, pat)
}

/// Tests whether `pat` occurs in `s` at index `at`.
pub fn occurs_at(s: &[char], at: usize, pat: &[char]) -> (found: bool)
    ensures
        found == matches_at(s@, at as int, pat@),
{
    if at > s.len() || pat.len() > s.len() - at {
        return false;
    }
    let mut k: usize = 0;
    while k < pat.len()
        invariant
            k <= pat.len(),
            at + pat.len() <= s.len(),
            s@.subrange(at as int, at + k) == pat@.take(k as int),
        decreases pat.len() - k,
    {
        if s[at + k] != pat[k] {
            return false;
        }
        assert(s@.subrange(at as int, at + k + 1) == s@.subrange(at as int, at + k).push(
            s@[at + k],
        ));
        k += 1;
    }
    assert(pat@.take(pat.len() as int) == pat@);
    true
}

/// Tests whether `s` begins with `pat`.
pub fn starts_with(s: &[char], pat: &[char]) -> (found: bool)
    ensures
        found == has_prefix(s@, pat@),
{
    occurs_at(s, 0, pat)
}

/// The index of the first occurrence of `pat` in `s` at or after `from`.
pub open spec fn find_from(s: Seq<char>, pat: Seq<char>, from: int) -> Option<int>
    decreases s.len() - from + 1,
{
    if from < 0 || from + pat.len() > s.len() {
        None
    } else if matches_at(s, from, pat) {
        Some(from)
    } else {
        find_from(s, pat, from + 1)
    }
}

/// The index of the first occurrence of `pat` in `s`.
pub open spec fn find(s: Seq<char>, pat: Seq<char>) -> Option<int> {
    find_from(s, pat, 0)
}

/// What `find_from` returns is the least matching index from `from` on.
pub proof fn lemma_find_from(s: Seq<char>, pat: Seq<char>, from: int)
    requires
        0 <= from,
    ensures
        match find_from(s, pat, from) {
            Some(i) => from <= i && matches_at(s, i, pat) && forall|j: int|
                from <= j < i ==> !matches_at(s, j, pat),
            None => forall|j: int| from <= j ==> !matches_at(s, j, pat),
        },
    decreases s.len() - from + 1,
{
    if from + pat.len() > s.len() {
    } else if matches_at(s, from, pat) {
    } else {
        lemma_find_from(s, pat, from + 1);
    }
}

/// Searches `s` for the first occurrence of `pat`.
pub fn find_first(s: &[char], pat: &[char]) -> (at: Option<usize>)
    ensures
        match at {
            Some(i) => find(s@, pat@) == Some(i as int),
            None => find(s@, pat@).is_none(),
        },
{
    if pat.len() > s.len() {
        return None;
    }
    if pat.len() == 0 {
        assert(s@.subrange(0, 0) == pat@);
        return Some(0);
    }
    let end: usize = s.len() - pat.len() + 1;
    let mut i: usize = 0;
    while i < end
        invariant
            i <= end,
            end == s.len() - pat.len() + 1,
            find(s@, pat@) == find_from(s@, pat@, i as int),
        decreases end - i,
    {
        if occurs_at(s, i, pat) {
            return Some(i);
        }
        i += 1;
    }
    None
}

/// `s` without its leading run of `c`.
pub open spec fn trim_start(s: Seq<char>, c: char) -> Seq<char>
    decreases s.len(),
{
    if s.len() > 0 && s[0] == c {
        trim_start(s.drop_first(), c)
    } else {
        s
    }
}

/// `s` without its trailing run of `c`.
pub open spec fn trim_end(s: Seq<char>, c: char) -> Seq<char>
    decreases s.len(),
{
    if s.len() > 0 && s.last() == c {
        trim_end(s.drop_last(), c)
    } else {
        s
    }
}

/// `s` without its leading and trailing runs of `c`.
pub open spec fn trim_both(s: Seq<char>, c: char) -> Seq<char> {
    trim_end(trim_start(s, c), c)
}

/// Strips every leading and trailing `c` from `s`.
pub fn trim_matches(s: &[char], c: char) -> (out: Vec<char>)
    ensures
        out@ == trim_both(s@, c),
{
    let mut from: usize = 0;
    assert(s@.skip(0) == s@);
    while from < s.len() && s[from] == c
        invariant
            from <= s.len(),
            trim_start(s@, c) == trim_start(s@.skip(from as int), c),
        decreases s.len() - from,
    {
        assert(s@.skip(from as int).drop_first() == s@.skip(from + 1));
        from += 1;
    }
    let mut to: usize = s.len();
    while to > from && s[to - 1] == c
        invariant
            from <= to <= s.len(),
            trim_both(s@, c) == trim_end(s@.subrange(from as int, to as int), c),
        decreases to - from,
    {
        assert(s@.subrange(from as int, to as int).drop_last() == s@.subrange(
            from as int,
            to - 1,
        ));
        to -= 1;
    }
    slice_of(s, from, to)
}

/// `s` with every non-overlapping occurrence of `pat`, found from the left,
/// replaced by `with`. An empty `pat` replaces nothing.
pub open spec fn replaced(s: Seq<char>, pat: Seq<char>, with: Seq<char>) -> Seq<char>
    decreases s.len(),
{
    if pat.len() == 0 || s.len() < pat.len() {
        s
    } else if matches_at(s, 0, pat) {
        with + replaced(s.skip(pat.len() as int), pat, with)
    } else {
        seq![s[0]] + replaced(s.drop_first(), pat, with)
    }
}

/// Replaces every occurrence of `pat` in `s` by `with`, scanning from the left.
pub fn replace_all(s: &[char], pat: &[char], with: &[char]) -> (out: Vec<char>)
    ensures
        out@ == replaced(s@, pat@, with@),
{
    if pat.len() == 0 {
        return slice_of(s, 0, s.len());
    }
    let mut out: Vec<char> = Vec::new();
    let mut i: usize = 0;
    assert(s@.skip(0) == s@);
    while i < s.len()
        invariant
            i <= s.len(),
            pat.len() > 0,
            replaced(s@, pat@, with@) == out@ + replaced(s@.skip(i as int), pat@, with@),
        decreases s.len() - i,
    {
        let ghost rest = s@.skip(i as int);
        let ghost before = out@;
        if occurs_at(s, i, pat) {
            assert(rest.subrange(0, pat.len() as int) == s@.subrange(i as int, i + pat.len()));
            assert(rest.skip(pat.len() as int) == s@.skip(i + pat.len()));
            push_all(&mut out, with);
            i += pat.len();
            assert(out@ + replaced(s@.skip(i as int), pat@, with@) == before + (with@ + replaced(
                s@.skip(i as int),
                pat@,
                with@,
            )));
        } else {
            assert(rest.len() >= pat.len() ==> rest.subrange(0, pat.len() as int)
                == s@.subrange(i as int, i + pat.len()));
            assert(rest.drop_first() == s@.skip(i + 1));
            assert(rest.len() < pat.len() ==> rest == seq![rest[0]] + rest.drop_first());
            out.push(s[i]);
            i += 1;
            assert(out@ + replaced(s@.skip(i as int), pat@, with@) == before + (seq![rest[0]]
                + replaced(s@.skip(i as int), pat@, with@)));
        }
    }
    out
}

/// Replacing a character by nothing leaves the other characters of the
/// text, in their order.
pub proof fn lemma_replaced_by_nothing(s: Seq<char>, c: char)
    ensures
        replaced(s, seq![c], Seq::empty()) == s.filter(|x: char| x != c),
    decreases s.len(),
{
    let keep = |x: char| x != c;
    if s.len() == 0 {
        reveal(Seq::filter);
    } else {
        let rest = s.drop_first();
        lemma_replaced_by_nothing(rest, c);
        rest.lemma_filter_prepend(s[0], keep);
        assert(seq![s[0]] + rest == s);
        assert(s.skip(1) == rest);
        if s[0] == c {
            assert(s.subrange(0, 1) == seq![c]);
            assert(Seq::<char>::empty() + rest.filter(keep) == rest.filter(keep));
        } else {
            assert(s.subrange(0, 1)[0] == s[0]);
        }
    }
}

/// What precedes the first `c` in `s`; all of `s` where `c` does not occur.
pub open spec fn before_first(s: Seq<char>, c: char) -> Seq<char> {
    match find(s, seq![c]) {
        Some(i) => s.take(i),
        None => s,
    }
}

/// What follows the first occurrence of `pat` in `s`; empty where `pat`
/// does not occur.
pub open spec fn after_first(s: Seq<char>, pat: Seq<char>) -> Seq<char> {
    match find(s, pat) {
        Some(i) => s.skip(i + pat.len()),
        None => Seq::empty(),
    }
}

/// The part of `s` in front of its first `c`.
pub fn head_before_first(s: &[char], c: char) -> (out: Vec<char>)
    ensures
        out@ == before_first(s@, c),
{
    let pat: Vec<char> = vec![c];
    assert(pat@ == seq![c]);
    match find_first(s, pat.as_slice()) {
        Some(i) => {
            proof {
                lemma_find_from(s@, pat@, 0);
            }
            assert(s@.take(i as int) == s@.subrange(0, i as int));
            slice_of(s, 0, i)
        },
        None => {
            slice_of(s, 0, s.len())
        },
    }
}

/// The part of `s` behind the first occurrence of `pat`.
pub fn tail_after_first(s: &[char], pat: &[char]) -> (out: Vec<char>)
    ensures
        out@ == after_first(s@, pat@),
{
    match find_first(s, pat) {
        Some(i) => {
            proof {
                lemma_find_from(s@, pat@, 0);
            }
            assert(s@.skip(i + pat.len()) == s@.subrange(i + pat.len(), s.len() as int));
            slice_of(s, i + pat.len(), s.len())
        },
        None => Vec::new(),
    }
}

} // verus!
