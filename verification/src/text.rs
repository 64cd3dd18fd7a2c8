//! Character-level string helpers, stated over `Seq<char>`.
use vstd::prelude::*;

verus! {

broadcast use vstd::string::group_string_axioms;

/// `p` is a prefix of `s`.
pub open spec fn has_prefix(s: Seq<char>, p: Seq<char>) -> bool {
    p.len() <= s.len() && s.take(p.len() as int) == p
}

/// `p` is a suffix of `s`.
pub open spec fn has_suffix(s: Seq<char>, p: Seq<char>) -> bool {
    p.len() <= s.len() && s.skip(s.len() - p.len()) == p
}

/// Every non-overlapping occurrence of `from` in `s`, scanned left to right,
/// replaced by `to` (what `str::replace` does for a non-empty pattern).
pub open spec fn replace_all(s: Seq<char>, from: Seq<char>, to: Seq<char>) -> Seq<char>
    decreases s.len(),
{
    if from.len() == 0 || s.len() < from.len() {
        s
    } else if s.take(from.len() as int) == from {
        to + replace_all(s.skip(from.len() as int), from, to)
    } else {
        seq![s[0]] + replace_all(s.skip(1), from, to)
    }
}

/// `s` with every leading repetition of the non-empty pattern `p` removed
/// (what `str::trim_start_matches` does for a string pattern).
pub open spec fn trim_prefix_repeated(s: Seq<char>, p: Seq<char>) -> Seq<char>
    decreases s.len(),
{
    if p.len() > 0 && has_prefix(s, p) {
        trim_prefix_repeated(s.skip(p.len() as int), p)
    } else {
        s
    }
}

/// `s` with every leading occurrence of the character `c` removed.
pub open spec fn trim_char_start(s: Seq<char>, c: char) -> Seq<char>
    decreases s.len(),
{
    if s.len() > 0 && s[0] == c {
        trim_char_start(s.skip(1), c)
    } else {
        s
    }
}

/// `p` occurs somewhere in `s`.
pub open spec fn occurs_in(s: Seq<char>, p: Seq<char>) -> bool {
    exists|i: int| 0 <= i && i + p.len() <= s.len() && #[trigger] s.subrange(i, i + p.len()) == p
}

/// Text in which the pattern does not occur is left as it is.
pub proof fn lemma_replace_all_absent(s: Seq<char>, from: Seq<char>, to: Seq<char>)
    requires
        !occurs_in(s, from),
    ensures
        replace_all(s, from, to) == s,
    decreases s.len(),
{
    if from.len() == 0 || s.len() < from.len() {
    } else {
        if s.take(from.len() as int) == from {
            assert(s.subrange(0int, 0int + from.len()) =~= s.take(from.len() as int));
            assert(occurs_in(s, from));
        }
        let t = s.skip(1);
        assert forall|i: int| 0 <= i && i + from.len() <= t.len() implies #[trigger] t.subrange(i, i + from.len()) != from by {
            assert(t.subrange(i, i + from.len()) =~= s.subrange(i + 1, i + 1 + from.len()));
        }
        lemma_replace_all_absent(t, from, to);
        assert(seq![s[0]] + t =~= s);
    }
}

/// A pattern at the very start is replaced, and the rest is scanned on.
pub proof fn lemma_replace_all_at_start(p: Seq<char>, rest: Seq<char>, to: Seq<char>)
    requires
        p.len() > 0,
    ensures
        replace_all(p + rest, p, to) == to + replace_all(rest, p, to),
{
    let s = p + rest;
    assert(s.take(p.len() as int) =~= p);
    assert(s.skip(p.len() as int) =~= rest);
}

/// Dropping leading `c`s from `a + b` where `a` has another character drops
/// them from `a` alone.
pub proof fn lemma_trim_char_start_concat(a: Seq<char>, b: Seq<char>, c: char)
    requires
        exists|i: int| 0 <= i < a.len() && a[i] != c,
    ensures
        trim_char_start(a + b, c) == trim_char_start(a, c) + b,
    decreases a.len(),
{
    if a[0] == c {
        let w = choose|i: int| 0 <= i < a.len() && a[i] != c;
        assert(w > 0);
        assert(a.skip(1)[w - 1] != c);
        assert((a + b).skip(1) =~= a.skip(1) + b);
        lemma_trim_char_start_concat(a.skip(1), b, c);
    } else {
        assert((a + b)[0] == a[0]);
    }
}

/// The decimal digit for `d`, which is below ten.
pub open spec fn digit_char(d: nat) -> char {
    if d == 0 { '0' }
    else if d == 1 { '1' }
    else if d == 2 { '2' }
    else if d == 3 { '3' }
    else if d == 4 { '4' }
    else if d == 5 { '5' }
    else if d == 6 { '6' }
    else if d == 7 { '7' }
    else if d == 8 { '8' }
    else { '9' }
}

/// The decimal notation of `n`, without leading zeros.
pub open spec fn decimal(n: nat) -> Seq<char>
    decreases n,
{
    if n < 10 {
        seq![digit_char(n)]
    } else {
        decimal(n / 10).push(digit_char(n % 10))
    }
}

/// What `PathBuf::join` gives on a Unix system: an absolute `rel` replaces
/// `base`, otherwise a separator is put between them unless `base` is empty or
/// already ends in one.
pub open spec fn join_path(base: Seq<char>, rel: Seq<char>) -> Seq<char> {
    if rel.len() > 0 && rel[0] == '/' {
        rel
    } else if base.len() == 0 {
        rel
    } else if base.last() == '/' {
        base + rel
    } else {
        base + seq!['/'] + rel
    }
}

/// Appends `c` to `s` (`String::push`).
#[verifier::external_body]
pub(crate) fn push_char(s: &mut String, c: char)
    ensures
        final(s)@ == old(s)@.push(c),
{
    s.push(c);
}

/// The characters of `s`, in order.
pub fn chars_of(s: &str) -> (v: Vec<char>)
    ensures
        v@ == s@,
{
    let mut v: Vec<char> = Vec::new();
    for c in it: s.chars()
        invariant
            it.seq() == s@,
            v@ == it.seq().take(it.index() as int),
    {
        v.push(c);
    }
    v
}

/// A string holding the characters of `v`.
pub fn string_of(v: &[char]) -> (s: String)
    ensures
        s@ == v@,
{
    let mut s = String::new();
    let n = v.len();
    for i in 0..n
        invariant
            n == v@.len(),
            s@ == v@.take(i as int),
    {
        push_char(&mut s, v[i]);
        assert(v@.take(i + 1) == v@.take(i as int).push(v@[i as int]));
    }
    assert(v@.take(n as int) == v@);
    s
}

/// Appends the characters of `src` to `dst`.
pub fn extend_chars(dst: &mut Vec<char>, src: &[char])
    ensures
        final(dst)@ == old(dst)@ + src@,
{
    let n = src.len();
    for i in 0..n
        invariant
            n == src@.len(),
            dst@ == old(dst)@ + src@.take(i as int),
    {
        dst.push(src[i]);
        assert(src@.take(i + 1) == src@.take(i as int).push(src@[i as int]));
    }
    assert(src@.take(n as int) == src@);
}

/// The concatenation of `a` and `b`.
pub fn concat_chars(a: &[char], b: &[char]) -> (r: Vec<char>)
    ensures
        r@ == a@ + b@,
{
    let mut r: Vec<char> = Vec::new();
    extend_chars(&mut r, a);
    extend_chars(&mut r, b);
    r
}

/// Whether `a` and `b` hold the same characters.
pub fn chars_eq(a: &[char], b: &[char]) -> (r: bool)
    ensures
        r == (a@ == b@),
{
    if a.len() != b.len() {
        return false;
    }
    let n = a.len();
    for i in 0..n
        invariant
            n == a@.len(),
            n == b@.len(),
            forall|j: int| 0 <= j < i ==> a@[j] == b@[j],
    {
        if a[i] != b[i] {
            return false;
        }
    }
    assert(a@ =~= b@);
    true
}

/// Whether `p` occurs in `s` at position `at`.
pub fn occurs_at(s: &[char], p: &[char], at: usize) -> (r: bool)
    requires
        at <= s@.len(),
    ensures
        r == has_prefix(s@.skip(at as int), p@),
{
    if p.len() > s.len() - at {
        return false;
    }
    let n = p.len();
    for i in 0..n
        invariant
            n == p@.len(),
            at + n <= s@.len(),
            s@.len() == s.len(),
            forall|j: int| 0 <= j < i ==> s@[at + j] == p@[j],
    {
        if s[at + i] != p[i] {
            assert(s@.skip(at as int).take(n as int)[i as int] != p@[i as int]);
            return false;
        }
    }
    assert(s@.skip(at as int).take(n as int) =~= p@);
    true
}

/// Whether `s` begins with `p`.
pub fn starts_with(s: &[char], p: &[char]) -> (r: bool)
    ensures
        r == has_prefix(s@, p@),
{
    assert(s@.skip(0) == s@);
    occurs_at(s, p, 0)
}

/// Whether `s` ends with `p`.
pub fn ends_with(s: &[char], p: &[char]) -> (r: bool)
    ensures
        r == has_suffix(s@, p@),
{
    if p.len() > s.len() {
        return false;
    }
    let at = s.len() - p.len();
    let r = occurs_at(s, p, at);
    assert(s@.skip(at as int).take(p@.len() as int) =~= s@.skip(at as int));
    r
}

/// `s` with every occurrence of the non-empty pattern `from` replaced by `to`.
pub fn replace_all_chars(s: &[char], from: &[char], to: &[char]) -> (r: Vec<char>)
    requires
        from@.len() > 0,
    ensures
        r@ == replace_all(s@, from@, to@),
{
    let mut out: Vec<char> = Vec::new();
    let mut i: usize = 0;
    let n = s.len();
    assert(s@.skip(0) == s@);
    while i < n
        invariant
            n == s@.len(),
            i <= n,
            from@.len() > 0,
            replace_all(s@, from@, to@) == out@ + replace_all(s@.skip(i as int), from@, to@),
        decreases n - i,
    {
        let rest = Ghost(s@.skip(i as int));
        if from.len() <= n - i && occurs_at(s, from, i) {
            extend_chars(&mut out, to);
            assert(rest@.skip(from@.len() as int) == s@.skip(i + from@.len()));
            i = i + from.len();
        } else {
            out.push(s[i]);
            assert(rest@.skip(1) == s@.skip(i + 1));
            i = i + 1;
        }
    }
    assert(s@.skip(n as int).len() == 0);
    out
}

/// `s` with every leading repetition of the non-empty pattern `p` removed.
pub fn trim_prefix_repeated_chars(s: &[char], p: &[char]) -> (r: Vec<char>)
    requires
        p@.len() > 0,
    ensures
        r@ == trim_prefix_repeated(s@, p@),
{
    let mut i: usize = 0;
    let n = s.len();
    assert(s@.skip(0) == s@);
    while p.len() <= n - i && occurs_at(s, p, i)
        invariant
            n == s@.len(),
            i <= n,
            p@.len() > 0,
            trim_prefix_repeated(s@, p@) == trim_prefix_repeated(s@.skip(i as int), p@),
        decreases n - i,
    {
        assert(s@.skip(i as int).skip(p@.len() as int) == s@.skip(i + p@.len()));
        i = i + p.len();
    }
    let r = slice_from(s, i);
    r
}

/// `s` with every leading `c` removed.
pub fn trim_char_start_chars(s: &[char], c: char) -> (r: Vec<char>)
    ensures
        r@ == trim_char_start(s@, c),
{
    let mut i: usize = 0;
    let n = s.len();
    assert(s@.skip(0) == s@);
    while i < n && s[i] == c
        invariant
            n == s@.len(),
            i <= n,
            trim_char_start(s@, c) == trim_char_start(s@.skip(i as int), c),
        decreases n - i,
    {
        assert(s@.skip(i as int).skip(1) == s@.skip(i + 1));
        i = i + 1;
    }
    slice_from(s, i)
}

/// The characters of `s` from position `from` on.
pub fn slice_from(s: &[char], from: usize) -> (r: Vec<char>)
    requires
        from <= s@.len(),
    ensures
        r@ == s@.skip(from as int),
{
    let mut r: Vec<char> = Vec::new();
    let n = s.len();
    let mut i = from;
    while i < n
        invariant
            n == s@.len(),
            from <= i <= n,
            r@ == s@.subrange(from as int, i as int),
        decreases n - i,
    {
        r.push(s[i]);
        assert(s@.subrange(from as int, i + 1) == s@.subrange(from as int, i as int).push(s@[i as int]));
        i = i + 1;
    }
    assert(s@.subrange(from as int, n as int) == s@.skip(from as int));
    r
}

/// The first `len` characters of `s`.
pub fn slice_to(s: &[char], len: usize) -> (r: Vec<char>)
    requires
        len <= s@.len(),
    ensures
        r@ == s@.take(len as int),
{
    let mut r: Vec<char> = Vec::new();
    for i in 0..len
        invariant
            len <= s@.len(),
            r@ == s@.take(i as int),
    {
        r.push(s[i]);
        assert(s@.take(i + 1) == s@.take(i as int).push(s@[i as int]));
    }
    r
}

/// The digit character for `d`.
fn digit_of(d: u64) -> (c: char)
    requires
        d < 10,
    ensures
        c == digit_char(d as nat),
{
    if d == 0 { '0' }
    else if d == 1 { '1' }
    else if d == 2 { '2' }
    else if d == 3 { '3' }
    else if d == 4 { '4' }
    else if d == 5 { '5' }
    else if d == 6 { '6' }
    else if d == 7 { '7' }
    else if d == 8 { '8' }
    else { '9' }
}

/// The decimal notation of `n`.
pub fn decimal_chars(n: u64) -> (r: Vec<char>)
    ensures
        r@ == decimal(n as nat),
    decreases n,
{
    if n < 10 {
        let mut r: Vec<char> = Vec::new();
        r.push(digit_of(n));
        r
    } else {
        let mut r = decimal_chars(n / 10);
        r.push(digit_of(n % 10));
        r
    }
}

/// `base` joined with `rel` as `PathBuf::join` does on Unix.
pub fn join_path_chars(base: &[char], rel: &[char]) -> (r: Vec<char>)
    ensures
        r@ == join_path(base@, rel@),
{
    if rel.len() > 0 && rel[0] == '/' {
        slice_from(rel, 0)
    } else if base.len() == 0 {
        slice_from(rel, 0)
    } else if base[base.len() - 1] == '/' {
        concat_chars(base, rel)
    } else {
        let mut r = slice_from(base, 0);
        r.push('/');
        extend_chars(&mut r, rel);
        r
    }
}

} // verus!
