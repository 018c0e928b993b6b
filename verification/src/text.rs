//! Character-level string helpers shared by the rest of the library.

use vstd::prelude::*;

verus! {

/// Appends one character to a `String` (std's `String::push`).
#[verifier::external_body]
pub(crate) fn push_char(s: &mut String, c: char)
    ensures
        final(s)@ == old(s)@.push(c),
{
    s.push(c);
}

/// The characters of `s`, in order.
pub fn chars_of(s: &str) -> (v: Vec<char>)
    ensures
        v@ == s@,
{
    let mut v: Vec<char> = Vec::new();
    for c in it: s.chars()
        invariant
            v@ == it.seq().take(it.index() as int),
    {
        v.push(c);
    }
    v
}

/// A `String` made of the given characters.
pub fn string_of(cs: &[char]) -> (s: String)
    ensures
        s@ == cs@,
{
    let mut s = String::new();
    let mut i: usize = 0;
    while i < cs.len()
        invariant
            i <= cs@.len(),
            s@ == cs@.take(i as int),
        decreases cs@.len() - i,
    {
        push_char(&mut s, cs[i]);
        proof {
            assert(cs@.take(i as int + 1) == cs@.take(i as int).push(cs@[i as int]));
        }
        i = i + 1;
    }
    proof {
        assert(cs@.take(cs@.len() as int) == cs@);
    }
    s
}

} // verus!

verus! {

/// `p` occurs in `s` starting at position `i`.
pub open spec fn matches_at(s: Seq<char>, p: Seq<char>, i: int) -> bool {
    0 <= i && i + p.len() <= s.len() && s.subrange(i, i + p.len()) == p
}

/// `s` begins with `p`.
pub open spec fn starts_with(s: Seq<char>, p: Seq<char>) -> bool {
    matches_at(s, p, 0)
}

/// The first position at or after `i` where `p` occurs in `s`.
pub open spec fn find_from(s: Seq<char>, p: Seq<char>, i: int) -> Option<int>
    decreases s.len() + 1 - i,
{
    if i < 0 || i + p.len() > s.len() {
        None
    } else if matches_at(s, p, i) {
        Some(i)
    } else {
        find_from(s, p, i + 1)
    }
}

/// The first position where `p` occurs in `s` (what `str::find` returns, counted in characters).
pub open spec fn find(s: Seq<char>, p: Seq<char>) -> Option<int> {
    find_from(s, p, 0)
}

/// `s` with every leading copy of the non-empty prefix `p` removed (`str::trim_start_matches`).
pub open spec fn trim_prefix_all(s: Seq<char>, p: Seq<char>) -> Seq<char>
    decreases s.len(),
{
    if p.len() > 0 && starts_with(s, p) {
        trim_prefix_all(s.skip(p.len() as int), p)
    } else {
        s
    }
}

/// `s` with every leading `c` removed.
pub open spec fn trim_start_char(s: Seq<char>, c: char) -> Seq<char>
    decreases s.len(),
{
    if s.len() > 0 && s[0] == c {
        trim_start_char(s.skip(1), c)
    } else {
        s
    }
}

/// `s` with every trailing `c` removed.
pub open spec fn trim_end_char(s: Seq<char>, c: char) -> Seq<char>
    decreases s.len(),
{
    if s.len() > 0 && s.last() == c {
        trim_end_char(s.drop_last(), c)
    } else {
        s
    }
}

/// `str::replace` with an empty pattern: `to` before every character and at the end.
pub open spec fn replace_empty(s: Seq<char>, to: Seq<char>) -> Seq<char>
    decreases s.len(),
{
    if s.len() == 0 {
        to
    } else {
        to + seq![s[0]] + replace_empty(s.skip(1), to)
    }
}

/// `str::replace`: every non-overlapping occurrence of `from`, taken left to right,
/// replaced by `to`.
pub open spec fn replace_all(s: Seq<char>, from: Seq<char>, to: Seq<char>) -> Seq<char>
    decreases s.len(),
{
    if from.len() == 0 {
        replace_empty(s, to)
    } else if s.len() == 0 {
        s
    } else if starts_with(s, from) {
        to + replace_all(s.skip(from.len() as int), from, to)
    } else {
        seq![s[0]] + replace_all(s.skip(1), from, to)
    }
}

/// Whether `p` occurs in `s` at `i`.
pub fn matches_at_exec(s: &[char], p: &[char], i: usize) -> (r: bool)
    ensures
        r == matches_at(s@, p@, i as int),
{
    if i > s.len() || p.len() > s.len() - i {
        return false;
    }
    let n = s.len();
    let mut j: usize = 0;
    while j < p.len()
        invariant
            n == s@.len(),
            i + p@.len() <= s@.len(),
            j <= p@.len(),
            s@.subrange(i as int, i + j) == p@.take(j as int),
        decreases p@.len() - j,
    {
        if s[i + j] != p[j] {
            assert(s@.subrange(i as int, i + p@.len())[j as int] != p@[j as int]);
            return false;
        }
        assert(s@.subrange(i as int, i + j + 1) == s@.subrange(i as int, i + j).push(s@[i + j]));
        assert(p@.take(j + 1) == p@.take(j as int).push(p@[j as int]));
        j = j + 1;
    }
    assert(p@.take(p@.len() as int) == p@);
    true
}

/// The first position at or after `i` where `p` occurs in `s`.
pub fn find_from_exec(s: &[char], p: &[char], i: usize) -> (r: Option<usize>)
    ensures
        match r {
            Some(k) => find_from(s@, p@, i as int) == Some(k as int),
            None => find_from(s@, p@, i as int) is None,
        },
{
    let n = s.len();
    let mut k = i;
    while k <= s.len() && p.len() <= s.len() - k
        invariant
            n == s@.len(),
            k >= i,
            find_from(s@, p@, i as int) == find_from(s@, p@, k as int),
        decreases s@.len() + 1 - k,
    {
        if matches_at_exec(s, p, k) {
            return Some(k);
        }
        assert(k < n) by {
            if k == n {
                assert(s@.subrange(k as int, k as int) =~= p@);
            }
        }
        k = k + 1;
    }
    None
}

/// The length of the run of leading copies of `p` in `s`, removed by `trim_prefix_all`.
pub fn trim_prefix_all_exec(s: &[char], p: &[char]) -> (k: usize)
    requires
        p@.len() > 0,
    ensures
        k <= s@.len(),
        s@.skip(k as int) == trim_prefix_all(s@, p@),
{
    let mut k: usize = 0;
    assert(s@.skip(0) == s@);
    let n = s.len();
    while matches_at_exec(s, p, k)
        invariant
            n == s@.len(),
            p@.len() > 0,
            k <= s@.len(),
            trim_prefix_all(s@, p@) == trim_prefix_all(s@.skip(k as int), p@),
        decreases s@.len() - k,
    {
        assert(starts_with(s@.skip(k as int), p@)) by {
            assert(s@.skip(k as int).subrange(0, p@.len() as int) == s@.subrange(k as int, k + p@.len()));
        }
        assert(s@.skip(k as int).skip(p@.len() as int) == s@.skip(k + p@.len()));
        k = k + p.len();
    }
    assert(!starts_with(s@.skip(k as int), p@)) by {
        if starts_with(s@.skip(k as int), p@) {
            assert(s@.skip(k as int).subrange(0, p@.len() as int) == s@.subrange(k as int, k + p@.len()));
        }
    }
    k
}

/// The number of leading `c` in `s`, removed by `trim_start_char`.
pub fn trim_start_char_exec(s: &[char], c: char) -> (k: usize)
    ensures
        k <= s@.len(),
        s@.skip(k as int) == trim_start_char(s@, c),
{
    let mut k: usize = 0;
    assert(s@.skip(0) == s@);
    while k < s.len() && s[k] == c
        invariant
            k <= s@.len(),
            trim_start_char(s@, c) == trim_start_char(s@.skip(k as int), c),
        decreases s@.len() - k,
    {
        assert(s@.skip(k as int).skip(1) == s@.skip(k + 1));
        k = k + 1;
    }
    k
}

/// The length of `s` once its trailing `c` are removed by `trim_end_char`.
pub fn trim_end_char_exec(s: &[char], c: char) -> (k: usize)
    ensures
        k <= s@.len(),
        s@.take(k as int) == trim_end_char(s@, c),
{
    let mut k: usize = s.len();
    assert(s@.take(s@.len() as int) == s@);
    while k > 0 && s[k - 1] == c
        invariant
            k <= s@.len(),
            trim_end_char(s@, c) == trim_end_char(s@.take(k as int), c),
        decreases k,
    {
        assert(s@.take(k as int).drop_last() == s@.take(k - 1));
        k = k - 1;
    }
    k
}

/// A copy of `s[lo..hi]`.
pub fn sub_chars(s: &[char], lo: usize, hi: usize) -> (v: Vec<char>)
    requires
        lo <= hi <= s@.len(),
    ensures
        v@ == s@.subrange(lo as int, hi as int),
{
    let mut v: Vec<char> = Vec::new();
    let mut i = lo;
    while i < hi
        invariant
            lo <= i <= hi,
            hi <= s@.len(),
            v@ == s@.subrange(lo as int, i as int),
        decreases hi - i,
    {
        v.push(s[i]);
        assert(s@.subrange(lo as int, i + 1) == s@.subrange(lo as int, i as int).push(s@[i as int]));
        i = i + 1;
    }
    v
}

/// Appends `t` to `v`.
pub fn append_chars(v: &mut Vec<char>, t: &[char])
    ensures
        final(v)@ == old(v)@ + t@,
{
    let ghost v0 = v@;
    let mut i: usize = 0;
    while i < t.len()
        invariant
            i <= t@.len(),
            v@ == v0 + t@.take(i as int),
        decreases t@.len() - i,
    {
        v.push(t[i]);
        assert(t@.take(i + 1) == t@.take(i as int).push(t@[i as int]));
        i = i + 1;
    }
    assert(t@.take(t@.len() as int) == t@);
}

proof fn lemma_replace_all_step(s: Seq<char>, from: Seq<char>, to: Seq<char>, k: int)
    requires
        from.len() > 0,
        0 <= k < s.len(),
    ensures
        starts_with(s.skip(k), from) ==> replace_all(s.skip(k), from, to) == to + replace_all(
            s.skip(k + from.len()),
            from,
            to,
        ),
        !starts_with(s.skip(k), from) ==> replace_all(s.skip(k), from, to) == seq![s[k]]
            + replace_all(s.skip(k + 1), from, to),
{
    assert(s.skip(k).skip(1) == s.skip(k + 1));
    if starts_with(s.skip(k), from) {
        assert(s.skip(k).skip(from.len() as int) == s.skip(k + from.len()));
    }
}

/// `str::replace` on character sequences.
pub fn replace_all_exec(s: &[char], from: &[char], to: &[char]) -> (r: Vec<char>)
    ensures
        r@ == replace_all(s@, from@, to@),
{
    let mut out: Vec<char> = Vec::new();
    let mut k: usize = 0;
    assert(s@.skip(0) == s@);
    if from.len() == 0 {
        while k < s.len()
            invariant
                k <= s@.len(),
                from@.len() == 0,
                replace_all(s@, from@, to@) == out@ + replace_empty(s@.skip(k as int), to@),
            decreases s@.len() - k,
        {
            assert(s@.skip(k as int).skip(1) == s@.skip(k + 1));
            let ghost before = out@;
            append_chars(&mut out, to);
            out.push(s[k]);
            assert(out@ == before + to@ + seq![s@[k as int]]);
            k = k + 1;
        }
        append_chars(&mut out, to);
        return out;
    }
    while k < s.len()
        invariant
            k <= s@.len(),
            from@.len() > 0,
            replace_all(s@, from@, to@) == out@ + replace_all(s@.skip(k as int), from@, to@),
        decreases s@.len() - k,
    {
        proof {
            lemma_replace_all_step(s@, from@, to@, k as int);
        }
        let hit = matches_at_exec(s, from, k);
        assert(hit == starts_with(s@.skip(k as int), from@)) by {
            if k + from@.len() <= s@.len() {
                assert(s@.skip(k as int).subrange(0, from@.len() as int) == s@.subrange(
                    k as int,
                    k + from@.len(),
                ));
            }
        }
        if hit {
            append_chars(&mut out, to);
            k = k + from.len();
        } else {
            out.push(s[k]);
            k = k + 1;
        }
    }
    assert(s@.skip(k as int).len() == 0);
    out
}

} // verus!

verus! {

/// A match reported by `find_from` lies at or after the start and is a real occurrence.
pub proof fn lemma_find_from_some(s: Seq<char>, p: Seq<char>, i: int)
    ensures
        find_from(s, p, i) matches Some(k) ==> i <= k && matches_at(s, p, k),
    decreases s.len() + 1 - i,
{
    if !(i < 0 || i + p.len() > s.len()) && !matches_at(s, p, i) {
        lemma_find_from_some(s, p, i + 1);
    }
}

/// Searching a suffix is searching the whole sequence from the suffix's start.
pub proof fn lemma_find_from_skip(s: Seq<char>, p: Seq<char>, pos: int, j: int)
    requires
        0 <= pos <= s.len(),
        0 <= j,
    ensures
        find_from(s.skip(pos), p, j) == (match find_from(s, p, pos + j) {
            Some(k) => Some(k - pos),
            None => None,
        }),
    decreases s.len() + 1 - (pos + j),
{
    let t = s.skip(pos);
    if j + p.len() <= t.len() {
        assert(t.subrange(j, j + p.len()) == s.subrange(pos + j, pos + j + p.len()));
        if !matches_at(t, p, j) {
            lemma_find_from_skip(s, p, pos, j + 1);
        }
    }
}

/// No leading `c` is left by `trim_start_char`.
pub proof fn lemma_trim_start_char(s: Seq<char>, c: char)
    ensures
        trim_start_char(s, c).len() == 0 || trim_start_char(s, c)[0] != c,
    decreases s.len(),
{
    if s.len() > 0 && s[0] == c {
        lemma_trim_start_char(s.skip(1), c);
    }
}

/// `trim_end_char` keeps a prefix of `s`, removes only `c`, and leaves no trailing `c`.
pub proof fn lemma_trim_end_char(s: Seq<char>, c: char)
    ensures
        trim_end_char(s, c).is_prefix_of(s),
        trim_end_char(s, c).len() == 0 || trim_end_char(s, c).last() != c,
        forall|i: int| trim_end_char(s, c).len() <= i < s.len() ==> s[i] == c,
    decreases s.len(),
{
    if s.len() > 0 && s.last() == c {
        let t = s.drop_last();
        lemma_trim_end_char(t, c);
        let r = trim_end_char(t, c);
        assert(r =~= s.subrange(0, r.len() as int));
        assert forall|i: int| r.len() <= i < s.len() implies s[i] == c by {
            if i < t.len() {
                assert(s[i] == t[i]);
            }
        }
    } else {
        assert(s =~= s.subrange(0, s.len() as int));
    }
}

/// Whether `a` and `b` hold the same characters.
pub fn chars_eq(a: &[char], b: &[char]) -> (r: bool)
    ensures
        r == (a@ == b@),
{
    if a.len() != b.len() {
        return false;
    }
    let mut i: usize = 0;
    while i < a.len()
        invariant
            a@.len() == b@.len(),
            i <= a@.len(),
            a@.take(i as int) == b@.take(i as int),
        decreases a@.len() - i,
    {
        if a[i] != b[i] {
            return false;
        }
        assert(a@.take(i + 1) == a@.take(i as int).push(a@[i as int]));
        assert(b@.take(i + 1) == b@.take(i as int).push(b@[i as int]));
        i = i + 1;
    }
    assert(a@ == a@.take(a@.len() as int));
    assert(b@ == b@.take(b@.len() as int));
    true
}

/// The views of a sequence of strings.
pub open spec fn views(v: Seq<String>) -> Seq<Seq<char>> {
    v.map_values(|u: String| u@)
}

/// Pushes a string made of `cs` onto `out`.
pub fn push_string(out: &mut Vec<String>, cs: &[char])
    ensures
        views(final(out)@) == views(old(out)@).push(cs@),
{
    let s = string_of(cs);
    out.push(s);
    assert(views(out@) =~= views(old(out)@).push(cs@));
}

} // verus!

verus! {

/// Replacing a non-empty pattern that does not occur leaves the text unchanged.
pub proof fn law_replace_absent_unchanged(s: Seq<char>, from: Seq<char>, to: Seq<char>)
    requires
        from.len() > 0,
        find(s, from) is None,
    ensures
        replace_all(s, from, to) == s,
    decreases s.len(),
{
    if s.len() > 0 {
        assert(!starts_with(s, from)) by {
            if starts_with(s, from) {
                assert(find_from(s, from, 0) == Some(0int));
            }
        }
        lemma_find_from_skip(s, from, 1, 0);
        assert(find_from(s, from, 0) is None ==> find_from(s, from, 1) is None) by {
            if !(0 + from.len() > s.len()) {
                assert(!matches_at(s, from, 0));
            }
        }
        law_replace_absent_unchanged(s.skip(1), from, to);
        assert(seq![s[0]] + s.skip(1) == s);
    }
}

} // verus!
