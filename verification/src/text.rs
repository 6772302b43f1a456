//! Character-sequence helpers: the small pieces of `str` behaviour that the
//! rest of the library is specified against (trimming, prefix/suffix and
//! substring tests, splitting, line iteration, replacement, joining).
//!
//! Text is handled as `Seq<char>` in specifications and as `Vec<char>` /
//! `&[char]` in executable code; `chars_of` and `string_of` convert to and
//! from `str`/`String`.
use vstd::prelude::*;

verus! {

// ─── Conversions ────────────────────────────────────────────────────

/// The characters of `s`, in order.
pub fn chars_of(s: &str) -> (v: Vec<char>)
    ensures
        v@ == s@,
{
    broadcast use vstd::string::group_string_axioms;

    let mut v: Vec<char> = Vec::new();
    for c in it: s.chars()
        invariant
            v@ == it.seq().take(it.index() as int),
            it.seq() == s@,
    {
        v.push(c);
    }
    v
}

/// Appending one character to a `String` extends its character sequence by
/// that character.
pub assume_specification[ String::push ](s: &mut String, ch: char)
    ensures
        final(s)@ == old(s)@.push(ch),
;

/// A `String` holding exactly the characters of `v`.
pub fn string_of(v: &[char]) -> (s: String)
    ensures
        s@ == v@,
{
    let mut s = String::new();
    for i in 0..v.len()
        invariant
            s@ == v@.take(i as int),
    {
        s.push(v[i]);
    }
    s
}

/// Appends the characters of `s` to `v`.
pub fn push_all(v: &mut Vec<char>, s: &[char])
    ensures
        final(v)@ == old(v)@ + s@,
{
    for i in 0..s.len()
        invariant
            v@ == old(v)@ + s@.take(i as int),
    {
        v.push(s[i]);
    }
}

/// Appends the characters of the string slice `s` to `v`.
pub fn push_str(v: &mut Vec<char>, s: &str)
    ensures
        final(v)@ == old(v)@ + s@,
{
    let cs = chars_of(s);
    push_all(v, cs.as_slice());
}

// ─── Whitespace and trimming ───────────────────────────────────────

/// The Unicode `White_Space` property, which is what `char::is_whitespace`
/// (and so `str::trim`) tests.
pub open spec fn is_ws(c: char) -> bool {
    ||| ('\t' <= c && c <= '\r')
    ||| c == ' '
    ||| c == '\u{85}'
    ||| c == '\u{a0}'
    ||| c == '\u{1680}'
    ||| ('\u{2000}' <= c && c <= '\u{200a}')
    ||| c == '\u{2028}'
    ||| c == '\u{2029}'
    ||| c == '\u{202f}'
    ||| c == '\u{205f}'
    ||| c == '\u{3000}'
}

pub fn is_whitespace(c: char) -> (b: bool)
    ensures
        b == is_ws(c),
{
    ('\t' <= c && c <= '\r') || c == ' ' || c == '\u{85}' || c == '\u{a0}' || c == '\u{1680}'
        || ('\u{2000}' <= c && c <= '\u{200a}') || c == '\u{2028}' || c == '\u{2029}' || c
        == '\u{202f}' || c == '\u{205f}' || c == '\u{3000}'
}

/// The first index at or after `i` that does not hold whitespace (or the
/// length of `s` when there is none).
pub open spec fn lead_end(s: Seq<char>, i: int) -> int
    decreases s.len() - i,
{
    if 0 <= i < s.len() && is_ws(s[i]) {
        lead_end(s, i + 1)
    } else {
        i
    }
}

/// The smallest `k <= j` such that `s[k..j]` is all whitespace.
pub open spec fn trail_start(s: Seq<char>, j: int) -> int
    decreases j,
{
    if 0 < j <= s.len() && is_ws(s[j - 1]) {
        trail_start(s, j - 1)
    } else {
        j
    }
}

/// `s` without leading and trailing whitespace (`str::trim`).
pub open spec fn trim(s: Seq<char>) -> Seq<char> {
    let a = lead_end(s, 0);
    let b = trail_start(s, s.len() as int);
    if a < b {
        s.subrange(a, b)
    } else {
        Seq::empty()
    }
}

/// `s` without trailing whitespace (`str::trim_end`).
pub open spec fn trim_end(s: Seq<char>) -> Seq<char> {
    s.take(trail_start(s, s.len() as int))
}

pub proof fn lemma_lead_end(s: Seq<char>, i: int)
    requires
        0 <= i <= s.len(),
    ensures
        i <= lead_end(s, i) <= s.len(),
        forall|k: int| i <= k < lead_end(s, i) ==> is_ws(#[trigger] s[k]),
        lead_end(s, i) < s.len() ==> !is_ws(s[lead_end(s, i)]),
    decreases s.len() - i,
{
    if i < s.len() && is_ws(s[i]) {
        lemma_lead_end(s, i + 1);
    }
}

pub proof fn lemma_trail_start(s: Seq<char>, j: int)
    requires
        0 <= j <= s.len(),
    ensures
        0 <= trail_start(s, j) <= j,
        forall|k: int| trail_start(s, j) <= k < j ==> is_ws(#[trigger] s[k]),
        trail_start(s, j) > 0 ==> !is_ws(s[trail_start(s, j) - 1]),
    decreases j,
{
    if 0 < j && is_ws(s[j - 1]) {
        lemma_trail_start(s, j - 1);
    }
}

/// Trimming twice trims once.
pub proof fn lemma_trim_idempotent(s: Seq<char>)
    ensures
        trim(trim(s)) == trim(s),
        forall|c: char| trim(s).contains(c) ==> s.contains(c),
{
    let t = trim(s);
    lemma_lead_end(s, 0);
    lemma_trail_start(s, s.len() as int);
    let a = lead_end(s, 0);
    let b = trail_start(s, s.len() as int);
    if a < b {
        assert(!is_ws(t[0]));
        assert(!is_ws(t[t.len() - 1]));
        assert(lead_end(t, 0) == 0);
        assert(trail_start(t, t.len() as int) == t.len());
        assert(t.subrange(0, t.len() as int) =~= t);
        assert forall|c: char| t.contains(c) implies s.contains(c) by {
            let m = choose|m: int| 0 <= m < t.len() && t[m] == c;
            assert(s[a + m] == c);
        }
    } else {
        assert(lead_end(t, 0) == 0);
        assert(trim(t) =~= t);
    }
}

/// The index of the first non-whitespace character at or after `i`.
pub fn skip_ws(s: &[char], i: usize) -> (r: usize)
    requires
        i <= s@.len(),
    ensures
        r == lead_end(s@, i as int),
        i <= r <= s@.len(),
{
    let mut k: usize = i;
    while k < s.len() && is_whitespace(s[k])
        invariant
            i <= k <= s@.len(),
            lead_end(s@, i as int) == lead_end(s@, k as int),
        decreases s@.len() - k,
    {
        k = k + 1;
    }
    k
}

/// `s` without leading and trailing whitespace.
pub fn trim_chars(s: &[char]) -> (r: Vec<char>)
    ensures
        r@ == trim(s@),
{
    let a = skip_ws(s, 0);
    let mut b: usize = s.len();
    while b > 0 && is_whitespace(s[b - 1])
        invariant
            b <= s@.len(),
            trail_start(s@, s@.len() as int) == trail_start(s@, b as int),
        decreases b,
    {
        b = b - 1;
    }
    let mut r: Vec<char> = Vec::new();
    if a < b {
        let mut k: usize = a;
        while k < b
            invariant
                a <= k <= b <= s@.len(),
                r@ == s@.subrange(a as int, k as int),
            decreases b - k,
        {
            r.push(s[k]);
            k = k + 1;
        }
    }
    r
}

/// `s` without trailing whitespace.
pub fn trim_end_chars(s: &[char]) -> (r: Vec<char>)
    ensures
        r@ == trim_end(s@),
{
    let mut b: usize = s.len();
    while b > 0 && is_whitespace(s[b - 1])
        invariant
            b <= s@.len(),
            trail_start(s@, s@.len() as int) == trail_start(s@, b as int),
        decreases b,
    {
        b = b - 1;
    }
    let mut r: Vec<char> = Vec::new();
    let mut k: usize = 0;
    while k < b
        invariant
            k <= b <= s@.len(),
            r@ == s@.take(k as int),
        decreases b - k,
    {
        r.push(s[k]);
        k = k + 1;
    }
    r
}

/// Whether `trim(s)` is empty, i.e. `s` is all whitespace.
pub fn is_blank(s: &[char]) -> (b: bool)
    ensures
        b == (trim(s@).len() == 0),
        b == (forall|k: int| 0 <= k < s@.len() ==> is_ws(#[trigger] s@[k])),
{
    let a = skip_ws(s, 0);
    proof {
        lemma_lead_end(s@, 0);
        lemma_trail_start(s@, s@.len() as int);
        if a < s.len() {
            assert(!is_ws(s@[a as int]));
            assert(trail_start(s@, s@.len() as int) > a);
        }
    }
    a == s.len()
}

// ─── Prefixes, suffixes, substrings ────────────────────────────────

/// `p` occurs in `s` starting at index `i`.
pub open spec fn matches_at(s: Seq<char>, i: int, p: Seq<char>) -> bool {
    0 <= i && i + p.len() <= s.len() && s.subrange(i, i + p.len()) == p
}

pub open spec fn has_prefix(s: Seq<char>, p: Seq<char>) -> bool {
    matches_at(s, 0, p)
}

pub open spec fn has_suffix(s: Seq<char>, p: Seq<char>) -> bool {
    matches_at(s, s.len() - p.len(), p)
}

/// `p` occurs somewhere in `s` (`str::contains`).
pub open spec fn contains(s: Seq<char>, p: Seq<char>) -> bool {
    exists|i: int| matches_at(s, i, p)
}

pub fn matches_at_exec(s: &[char], i: usize, p: &[char]) -> (b: bool)
    ensures
        b == matches_at(s@, i as int, p@),
{
    if i > s.len() || p.len() > s.len() - i {
        return false;
    }
    let mut k: usize = 0;
    while k < p.len()
        invariant
            i + p@.len() <= s@.len(),
            i + p.len() <= s.len(),
            k <= p.len(),
            k <= p@.len(),
            forall|j: int| 0 <= j < k ==> s@[i + j] == p@[j],
        decreases p@.len() - k,
    {
        if s[i + k] != p[k] {
            assert(s@.subrange(i as int, i + p@.len())[k as int] != p@[k as int]);
            return false;
        }
        k = k + 1;
    }
    assert(s@.subrange(i as int, i + p@.len()) =~= p@);
    true
}

pub fn starts_with(s: &[char], p: &[char]) -> (b: bool)
    ensures
        b == has_prefix(s@, p@),
{
    matches_at_exec(s, 0, p)
}

pub fn ends_with(s: &[char], p: &[char]) -> (b: bool)
    ensures
        b == has_suffix(s@, p@),
{
    if p.len() > s.len() {
        false
    } else {
        matches_at_exec(s, s.len() - p.len(), p)
    }
}

/// The first index `>= i` at which `p` occurs in `s`, if any.
pub open spec fn find_from(s: Seq<char>, p: Seq<char>, i: int) -> Option<int>
    decreases s.len() + 1 - i,
{
    if i < 0 || i > s.len() || i + p.len() > s.len() {
        None
    } else if matches_at(s, i, p) {
        Some(i)
    } else {
        find_from(s, p, i + 1)
    }
}

pub proof fn lemma_find_from(s: Seq<char>, p: Seq<char>, i: int)
    requires
        0 <= i,
    ensures
        find_from(s, p, i) matches Some(k) ==> i <= k && matches_at(s, k, p) && forall|j: int|
            i <= j < k ==> !#[trigger] matches_at(s, j, p),
        find_from(s, p, i) is None ==> forall|j: int| i <= j ==> !#[trigger] matches_at(s, j, p),
    decreases s.len() + 1 - i,
{
    if i > s.len() || i + p.len() > s.len() {
    } else if matches_at(s, i, p) {
    } else {
        lemma_find_from(s, p, i + 1);
    }
}

pub fn find_exec(s: &[char], p: &[char], i: usize) -> (r: Option<usize>)
    ensures
        r matches Some(k) ==> find_from(s@, p@, i as int) == Some(k as int),
        r is None ==> find_from(s@, p@, i as int) is None,
{
    if p.len() == 0 {
        if i <= s.len() {
            assert(s@.subrange(i as int, i as int) =~= p@);
            return Some(i);
        } else {
            return None;
        }
    }
    let mut k: usize = i;
    while p.len() <= s.len() && k <= s.len() - p.len()
        invariant
            i <= k,
            p@.len() > 0,
            find_from(s@, p@, i as int) == find_from(s@, p@, k as int),
        decreases s@.len() + 1 - k,
    {
        if matches_at_exec(s, k, p) {
            return Some(k);
        }
        k = k + 1;
    }
    None
}

pub fn contains_exec(s: &[char], p: &[char]) -> (b: bool)
    ensures
        b == contains(s@, p@),
{
    let r = find_exec(s, p, 0);
    proof {
        lemma_find_from(s@, p@, 0);
    }
    match r {
        Some(k) => {
            assert(matches_at(s@, k as int, p@));
            true
        },
        None => false,
    }
}

/// Whether `s` has the characters of `p` (a string slice) as a prefix.
pub fn starts_with_str(s: &[char], p: &str) -> (b: bool)
    ensures
        b == has_prefix(s@, p@),
{
    let pc = chars_of(p);
    starts_with(s, pc.as_slice())
}

pub fn ends_with_str(s: &[char], p: &str) -> (b: bool)
    ensures
        b == has_suffix(s@, p@),
{
    let pc = chars_of(p);
    ends_with(s, pc.as_slice())
}

pub fn contains_str(s: &[char], p: &str) -> (b: bool)
    ensures
        b == contains(s@, p@),
{
    let pc = chars_of(p);
    contains_exec(s, pc.as_slice())
}

pub fn eq_str(s: &[char], p: &str) -> (b: bool)
    ensures
        b == (s@ == p@),
{
    let pc = chars_of(p);
    if s.len() != pc.len() {
        assert(s@.len() != p@.len());
        return false;
    }
    let b = starts_with(s, pc.as_slice());
    proof {
        if b {
            assert(s@ =~= s@.subrange(0, pc@.len() as int));
        } else {
            if s@ == p@ {
                assert(s@.subrange(0, pc@.len() as int) =~= s@);
            }
        }
    }
    b
}

pub fn eq_chars(s: &[char], p: &[char]) -> (b: bool)
    ensures
        b == (s@ == p@),
{
    if s.len() != p.len() {
        return false;
    }
    let b = starts_with(s, p);
    proof {
        if b {
            assert(s@ =~= s@.subrange(0, p@.len() as int));
        } else {
            if s@ == p@ {
                assert(s@.subrange(0, p@.len() as int) =~= s@);
            }
        }
    }
    b
}

// ─── Splitting ──────────────────────────────────────────────────────

/// The first index `>= i` holding `c`, or the length of `s`.
pub open spec fn char_from(s: Seq<char>, c: char, i: int) -> int
    decreases s.len() - i,
{
    if i < 0 {
        0
    } else if i >= s.len() {
        s.len() as int
    } else if s[i] == c {
        i
    } else {
        char_from(s, c, i + 1)
    }
}

pub proof fn lemma_char_from(s: Seq<char>, c: char, i: int)
    requires
        0 <= i <= s.len(),
    ensures
        i <= char_from(s, c, i) <= s.len(),
        char_from(s, c, i) < s.len() ==> s[char_from(s, c, i)] == c,
        forall|k: int| i <= k < char_from(s, c, i) ==> #[trigger] s[k] != c,
    decreases s.len() - i,
{
    if i < s.len() && s[i] != c {
        lemma_char_from(s, c, i + 1);
    }
}

pub fn char_from_exec(s: &[char], c: char, i: usize) -> (r: usize)
    requires
        i <= s@.len(),
    ensures
        r == char_from(s@, c, i as int),
        i <= r <= s@.len(),
{
    let mut k: usize = i;
    while k < s.len() && s[k] != c
        invariant
            i <= k <= s@.len(),
            char_from(s@, c, i as int) == char_from(s@, c, k as int),
        decreases s@.len() - k,
    {
        k = k + 1;
    }
    k
}

/// The pieces of `s[i..]` between occurrences of `c` (`str::split` with a
/// character pattern).
pub open spec fn split_from(s: Seq<char>, c: char, i: int) -> Seq<Seq<char>>
    decreases s.len() - i,
{
    let k = char_from(s, c, i);
    if i < 0 || i > s.len() || k >= s.len() || k < i {
        seq![s.subrange(i, s.len() as int)]
    } else {
        seq![s.subrange(i, k)] + split_from(s, c, k + 1)
    }
}

pub open spec fn split(s: Seq<char>, c: char) -> Seq<Seq<char>> {
    split_from(s, c, 0)
}

/// `char_from` finds the first `c` at or after `i`.
pub proof fn lemma_char_from_at(s: Seq<char>, c: char, i: int, k: int)
    requires
        0 <= i <= k <= s.len(),
        k < s.len() ==> s[k] == c,
        forall|j: int| i <= j < k ==> #[trigger] s[j] != c,
    ensures
        char_from(s, c, i) == k,
    decreases k - i,
{
    if i < k {
        lemma_char_from_at(s, c, i + 1, k);
    }
}

proof fn lemma_split_from_shift(a: Seq<char>, y: Seq<char>, c: char, j: int)
    requires
        0 <= j <= y.len(),
    ensures
        split_from(a + y, c, a.len() + j) == split_from(y, c, j),
    decreases y.len() - j,
{
    let s = a + y;
    let i = a.len() + j;
    lemma_char_from(y, c, j);
    let k = char_from(y, c, j);
    lemma_char_from_at(s, c, i, a.len() + k);
    if k < y.len() {
        lemma_split_from_shift(a, y, c, k + 1);
    }
    assert(s.subrange(i, a.len() + k) =~= y.subrange(j, k));
    assert(s.subrange(i, s.len() as int) =~= y.subrange(j, y.len() as int));
}

proof fn lemma_split_from_concat(x: Seq<char>, y: Seq<char>, c: char, i: int)
    requires
        0 <= i <= x.len(),
    ensures
        split_from(x + seq![c] + y, c, i) == split_from(x, c, i) + split_from(y, c, 0),
    decreases x.len() - i,
{
    let s = x + seq![c] + y;
    lemma_char_from(x, c, i);
    let k = char_from(x, c, i);
    lemma_char_from_at(s, c, i, k);
    assert(s.subrange(i, k) =~= x.subrange(i, k));
    if k < x.len() {
        lemma_split_from_concat(x, y, c, k + 1);
    } else {
        lemma_split_from_shift(x + seq![c], y, c, 0);
        assert(x + seq![c] + y =~= (x + seq![c]) + y);
    }
}

/// Splitting at `c` across an occurrence of `c` splits each side.
pub proof fn lemma_split_concat(x: Seq<char>, y: Seq<char>, c: char)
    ensures
        split(x + seq![c] + y, c) == split(x, c) + split(y, c),
{
    lemma_split_from_concat(x, y, c, 0);
}

proof fn lemma_split_from_no_sep(s: Seq<char>, c: char, i: int)
    requires
        0 <= i <= s.len(),
    ensures
        forall|k: int| 0 <= k < split_from(s, c, i).len() ==> !(#[trigger] split_from(s, c, i)[k]).contains(c),
    decreases s.len() - i,
{
    lemma_char_from(s, c, i);
    let k = char_from(s, c, i);
    if k < s.len() {
        lemma_split_from_no_sep(s, c, k + 1);
    }
    let piece = if k < s.len() { s.subrange(i, k) } else { s.subrange(i, s.len() as int) };
    assert forall|m: int| 0 <= m < piece.len() implies piece[m] != c by {
        assert(piece[m] == s[i + m]);
    }
    assert(!piece.contains(c));
    let sp = split_from(s, c, i);
    assert(sp[0] == piece);
    assert forall|q: int| 0 <= q < sp.len() implies !(#[trigger] sp[q]).contains(c) by {
        if q > 0 {
            assert(sp[q] == split_from(s, c, k + 1)[q - 1]);
        }
    }
}

/// No piece of a split holds the separator.
pub proof fn lemma_split_no_sep(s: Seq<char>, c: char)
    ensures
        forall|k: int| 0 <= k < split(s, c).len() ==> !(#[trigger] split(s, c)[k]).contains(c),
{
    lemma_split_from_no_sep(s, c, 0);
}

/// Joining pieces without the separator and splitting again gives the
/// pieces back.
pub proof fn lemma_split_join(ps: Seq<Seq<char>>, c: char)
    requires
        ps.len() > 0,
        forall|k: int| 0 <= k < ps.len() ==> !(#[trigger] ps[k]).contains(c),
    ensures
        split(join(ps, seq![c]), c) == ps,
    decreases ps.len(),
{
    if ps.len() == 1 {
        let p = ps[0];
        lemma_char_from(p, c, 0);
        if char_from(p, c, 0) < p.len() {
            assert(p[char_from(p, c, 0)] == c);
        }
        assert(p.subrange(0, p.len() as int) =~= p);
        assert(split(p, c) =~= seq![p]);
        assert(ps =~= seq![p]);
    } else {
        let init = ps.drop_last();
        lemma_split_join(init, c);
        lemma_split_concat(join(init, seq![c]), ps.last(), c);
        let p = ps.last();
        lemma_char_from(p, c, 0);
        if char_from(p, c, 0) < p.len() {
            assert(p[char_from(p, c, 0)] == c);
        }
        assert(p.subrange(0, p.len() as int) =~= p);
        assert(split(p, c) =~= seq![p]);
        assert(init + seq![p] =~= ps);
    }
}

/// The character sequences of a sequence of `String`s.
pub open spec fn strings_view(v: Seq<String>) -> Seq<Seq<char>> {
    v.map_values(|s: String| s@)
}

/// The characters of an optional `String`.
pub open spec fn opt_string(o: Option<String>) -> Option<Seq<char>> {
    match o {
        Some(s) => Some(s@),
        None => None,
    }
}

/// The views of a vector of character vectors.
pub open spec fn views(v: Seq<Vec<char>>) -> Seq<Seq<char>> {
    v.map_values(|x: Vec<char>| x@)
}

pub fn split_exec(s: &[char], c: char) -> (r: Vec<Vec<char>>)
    ensures
        views(r@) == split(s@, c),
{
    let mut r: Vec<Vec<char>> = Vec::new();
    let mut i: usize = 0;
    loop
        invariant
            i <= s@.len(),
            views(r@) + split_from(s@, c, i as int) == split(s@, c),
        decreases s@.len() - i,
    {
        let k = char_from_exec(s, c, i);
        let mut piece: Vec<char> = Vec::new();
        let mut j: usize = i;
        while j < k
            invariant
                i <= j <= k <= s@.len(),
                piece@ == s@.subrange(i as int, j as int),
            decreases k - j,
        {
            piece.push(s[j]);
            j = j + 1;
        }
        let ghost old_r = r@;
        r.push(piece);
        assert(views(r@) =~= views(old_r) + seq![s@.subrange(i as int, k as int)]);
        if k >= s.len() {
            assert(views(r@) =~= split(s@, c));
            return r;
        }
        assert(views(r@) + split_from(s@, c, k + 1) =~= views(old_r) + split_from(s@, c, i as int));
        i = k + 1;
    }
}

/// The lines of `s[i..]` as `str::lines` yields them: split at `'\n'`, a
/// `'\r'` right before the `'\n'` dropped, and no empty line after a final
/// line break.
pub open spec fn lines_from(s: Seq<char>, i: int) -> Seq<Seq<char>>
    decreases s.len() - i,
{
    if i < 0 || i >= s.len() {
        Seq::empty()
    } else {
        let k = char_from(s, '\n', i);
        if k >= s.len() || k < i {
            seq![s.subrange(i, s.len() as int)]
        } else {
            seq![strip_cr(s.subrange(i, k))] + lines_from(s, k + 1)
        }
    }
}

pub open spec fn strip_cr(x: Seq<char>) -> Seq<char> {
    if x.len() > 0 && x.last() == '\r' {
        x.drop_last()
    } else {
        x
    }
}

pub open spec fn lines(s: Seq<char>) -> Seq<Seq<char>> {
    lines_from(s, 0)
}

pub fn lines_exec(s: &[char]) -> (r: Vec<Vec<char>>)
    ensures
        views(r@) == lines(s@),
{
    let mut r: Vec<Vec<char>> = Vec::new();
    let mut i: usize = 0;
    while i < s.len()
        invariant
            i <= s@.len(),
            views(r@) + lines_from(s@, i as int) == lines(s@),
        decreases s@.len() - i,
    {
        let k = char_from_exec(s, '\n', i);
        let mut end: usize = k;
        if k < s.len() && k > i && s[k - 1] == '\r' {
            end = k - 1;
        }
        let mut piece: Vec<char> = Vec::new();
        let mut j: usize = i;
        while j < end
            invariant
                i <= j <= end <= k <= s@.len(),
                piece@ == s@.subrange(i as int, j as int),
            decreases end - j,
        {
            piece.push(s[j]);
            j = j + 1;
        }
        let ghost old_r = r@;
        r.push(piece);
        if k >= s.len() {
            assert(views(r@) =~= views(old_r) + seq![s@.subrange(i as int, k as int)]);
            assert(lines_from(s@, s@.len() as int) =~= Seq::<Seq<char>>::empty());
            assert(views(r@) + lines_from(s@, s@.len() as int) =~= views(old_r) + lines_from(
                s@,
                i as int,
            ));
            i = k;
        } else {
            assert(piece@ =~= strip_cr(s@.subrange(i as int, k as int)));
            assert(views(r@) =~= views(old_r) + seq![strip_cr(s@.subrange(i as int, k as int))]);
            assert(views(r@) + lines_from(s@, k + 1) =~= views(old_r) + lines_from(s@, i as int));
            i = k + 1;
        }
    }
    assert(lines_from(s@, i as int) =~= Seq::<Seq<char>>::empty());
    assert(views(r@) =~= views(r@) + lines_from(s@, i as int));
    r
}

// ─── Replacement ────────────────────────────────────────────────────

/// `s[i..]` with every non-overlapping occurrence of `p` (scanning left to
/// right) replaced by `r` (`str::replace`).
pub open spec fn replace_from(s: Seq<char>, p: Seq<char>, r: Seq<char>, i: int) -> Seq<char>
    decreases s.len() - i,
{
    if i < 0 || i >= s.len() {
        Seq::empty()
    } else if p.len() > 0 && matches_at(s, i, p) {
        r + replace_from(s, p, r, i + p.len())
    } else {
        seq![s[i]] + replace_from(s, p, r, i + 1)
    }
}

pub open spec fn replace(s: Seq<char>, p: Seq<char>, r: Seq<char>) -> Seq<char> {
    replace_from(s, p, r, 0)
}

/// Replacement in `s[i..]` depends only on `s[i..]`.
pub proof fn lemma_replace_from_skip(s: Seq<char>, p: Seq<char>, r: Seq<char>, i: int)
    requires
        0 <= i <= s.len(),
    ensures
        replace_from(s, p, r, i) == replace(s.skip(i), p, r),
{
    lemma_replace_from_shift(s.skip(i), s.take(i), p, r, 0);
    assert(s.take(i) + s.skip(i) =~= s);
}

/// Replacement in `x + y` from index `|x| + j` only sees `y`.
proof fn lemma_replace_from_shift(y: Seq<char>, x: Seq<char>, p: Seq<char>, r: Seq<char>, j: int)
    requires
        0 <= j <= y.len(),
    ensures
        replace_from(x + y, p, r, x.len() + j) == replace_from(y, p, r, j),
    decreases y.len() - j,
{
    let s = x + y;
    let i = x.len() + j;
    if j < y.len() {
        if p.len() > 0 && matches_at(y, j, p) {
            assert(s.subrange(i, i + p.len()) =~= y.subrange(j, j + p.len()));
            lemma_replace_from_shift(y, x, p, r, j + p.len());
        } else {
            if p.len() > 0 && matches_at(s, i, p) {
                assert(s.subrange(i, i + p.len()) =~= y.subrange(j, j + p.len()));
            }
            lemma_replace_from_shift(y, x, p, r, j + 1);
        }
    }
}

/// Replacing in `c` followed by `t`, when `c` starts no occurrence of the
/// one-character pattern `[q]`.
pub proof fn lemma_replace_cons(c: char, t: Seq<char>, p: Seq<char>, r: Seq<char>)
    requires
        p.len() > 0,
    ensures
        !matches_at(seq![c] + t, 0, p) ==> replace(seq![c] + t, p, r) == seq![c] + replace(t, p, r),
        matches_at(seq![c] + t, 0, p) ==> replace(seq![c] + t, p, r) == r + replace((seq![c] + t).skip(p.len() as int), p, r),
{
    let s = seq![c] + t;
    if matches_at(s, 0, p) {
        lemma_replace_from_skip(s, p, r, p.len() as int);
    } else {
        lemma_replace_from_skip(s, p, r, 1);
        assert(s.skip(1) =~= t);
    }
}

/// Replacing a pattern that does not occur changes nothing.
pub proof fn lemma_replace_absent(s: Seq<char>, p: Seq<char>, r: Seq<char>)
    requires
        forall|i: int| !#[trigger] matches_at(s, i, p),
    ensures
        replace(s, p, r) == s,
{
    lemma_replace_absent_from(s, p, r, 0);
    assert(s.skip(0) =~= s);
}

proof fn lemma_replace_absent_from(s: Seq<char>, p: Seq<char>, r: Seq<char>, i: int)
    requires
        0 <= i <= s.len(),
        forall|k: int| !#[trigger] matches_at(s, k, p),
    ensures
        replace_from(s, p, r, i) == s.skip(i),
    decreases s.len() - i,
{
    if i < s.len() {
        assert(!matches_at(s, i, p));
        lemma_replace_absent_from(s, p, r, i + 1);
        assert(seq![s[i]] + s.skip(i + 1) =~= s.skip(i));
    } else {
        assert(s.skip(i) =~= Seq::<char>::empty());
    }
}

/// Doubling every `"` and then collapsing every `""` gives the text back:
/// the verbatim-string escaping of injected SQL loses nothing.
pub proof fn lemma_quote_doubling_roundtrip(s: Seq<char>)
    ensures
        replace(replace(s, seq!['"'], seq!['"', '"']), seq!['"', '"'], seq!['"']) == s,
    decreases s.len(),
{
    let q = seq!['"'];
    let qq = seq!['"', '"'];
    if s.len() == 0 {
        assert(replace(s, q, qq) =~= Seq::<char>::empty());
        assert(replace(Seq::<char>::empty(), qq, q) =~= Seq::<char>::empty());
    } else {
        let c = s[0];
        let t = s.skip(1);
        assert(s =~= seq![c] + t);
        lemma_quote_doubling_roundtrip(t);
        let dt = replace(t, q, qq);
        lemma_replace_cons(c, t, q, qq);
        if c == '"' {
            assert((seq![c] + t).subrange(0, 1) =~= q);
            assert(matches_at(seq![c] + t, 0, q));
            assert((seq![c] + t).skip(1) =~= t);
            assert(replace(s, q, qq) == qq + dt);
            assert(qq + dt =~= seq!['"'] + (seq!['"'] + dt));
            lemma_replace_cons('"', seq!['"'] + dt, qq, q);
            assert((seq!['"'] + (seq!['"'] + dt)).subrange(0, 2) =~= qq);
            assert(matches_at(seq!['"'] + (seq!['"'] + dt), 0, qq));
            assert((seq!['"'] + (seq!['"'] + dt)).skip(2) =~= dt);
            assert(replace(qq + dt, qq, q) == q + replace(dt, qq, q));
            assert(q + t =~= s);
        } else {
            assert((seq![c] + t).subrange(0, 1)[0] == c);
            assert(!matches_at(seq![c] + t, 0, q));
            assert(replace(s, q, qq) == seq![c] + dt);
            lemma_replace_cons(c, dt, qq, q);
            assert((seq![c] + dt).len() < 2 || (seq![c] + dt).subrange(0, 2)[0] == c);
            assert(!matches_at(seq![c] + dt, 0, qq));
        }
    }
}

pub fn replace_exec(s: &[char], p: &[char], rep: &[char]) -> (out: Vec<char>)
    ensures
        out@ == replace(s@, p@, rep@),
{
    let mut out: Vec<char> = Vec::new();
    let mut i: usize = 0;
    while i < s.len()
        invariant
            i <= s@.len(),
            out@ + replace_from(s@, p@, rep@, i as int) == replace(s@, p@, rep@),
        decreases s@.len() - i,
    {
        if p.len() > 0 && matches_at_exec(s, i, p) {
            let ghost old_out = out@;
            push_all(&mut out, rep);
            assert(out@ + replace_from(s@, p@, rep@, i + p@.len()) =~= old_out + replace_from(
                s@,
                p@,
                rep@,
                i as int,
            ));
            i = i + p.len();
        } else {
            let ghost old_out = out@;
            out.push(s[i]);
            assert(out@ + replace_from(s@, p@, rep@, i + 1) =~= old_out + replace_from(
                s@,
                p@,
                rep@,
                i as int,
            ));
            i = i + 1;
        }
    }
    assert(replace_from(s@, p@, rep@, i as int) =~= Seq::<char>::empty());
    assert(out@ =~= out@ + replace_from(s@, p@, rep@, i as int));
    out
}

/// Replaces with string-slice pattern and replacement.
pub fn replace_str(s: &[char], p: &str, rep: &str) -> (out: Vec<char>)
    ensures
        out@ == replace(s@, p@, rep@),
{
    let pc = chars_of(p);
    let rc = chars_of(rep);
    replace_exec(s, pc.as_slice(), rc.as_slice())
}

// ─── Joining ────────────────────────────────────────────────────────

/// The pieces of `parts` with `sep` between neighbours (`[T]::join`).
pub open spec fn join(parts: Seq<Seq<char>>, sep: Seq<char>) -> Seq<char>
    decreases parts.len(),
{
    if parts.len() == 0 {
        Seq::empty()
    } else if parts.len() == 1 {
        parts[0]
    } else {
        join(parts.drop_last(), sep) + sep + parts.last()
    }
}

pub fn join_exec(parts: &Vec<Vec<char>>, sep: &[char]) -> (r: Vec<char>)
    ensures
        r@ == join(views(parts@), sep@),
{
    let mut r: Vec<char> = Vec::new();
    let ghost vs = views(parts@);
    for i in 0..parts.len()
        invariant
            vs == views(parts@),
            r@ == join(vs.take(i as int), sep@),
    {
        let ghost old_r = r@;
        if i > 0 {
            push_all(&mut r, sep);
        }
        push_all(&mut r, parts[i].as_slice());
        assert(vs.take(i + 1).drop_last() =~= vs.take(i as int));
        if i == 0 {
            assert(r@ =~= join(vs.take(i + 1), sep@));
        }
    }
    assert(vs.take(parts@.len() as int) =~= vs);
    r
}

// ─── ASCII case ─────────────────────────────────────────────────────

pub open spec fn ascii_lower(c: char) -> char {
    if 'A' <= c && c <= 'Z' {
        ((c as u32) + 32) as char
    } else {
        c
    }
}

pub open spec fn ascii_upper(c: char) -> char {
    if 'a' <= c && c <= 'z' {
        ((c as u32) - 32) as char
    } else {
        c
    }
}

pub open spec fn to_ascii_lower(s: Seq<char>) -> Seq<char> {
    s.map_values(|c: char| ascii_lower(c))
}

pub open spec fn to_ascii_upper(s: Seq<char>) -> Seq<char> {
    s.map_values(|c: char| ascii_upper(c))
}

pub fn ascii_lower_exec(c: char) -> (r: char)
    ensures
        r == ascii_lower(c),
{
    if 'A' <= c && c <= 'Z' {
        ((c as u8) + 32) as char
    } else {
        c
    }
}

pub fn ascii_upper_exec(c: char) -> (r: char)
    ensures
        r == ascii_upper(c),
{
    if 'a' <= c && c <= 'z' {
        ((c as u8) - 32) as char
    } else {
        c
    }
}

pub fn to_ascii_lower_exec(s: &[char]) -> (r: Vec<char>)
    ensures
        r@ == to_ascii_lower(s@),
{
    let mut r: Vec<char> = Vec::new();
    for i in 0..s.len()
        invariant
            r@ == to_ascii_lower(s@.take(i as int)),
    {
        r.push(ascii_lower_exec(s[i]));
        assert(to_ascii_lower(s@.take(i + 1)) =~= to_ascii_lower(s@.take(i as int)).push(
            ascii_lower(s@[i as int]),
        ));
    }
    assert(s@.take(s@.len() as int) =~= s@);
    r
}

pub fn to_ascii_upper_exec(s: &[char]) -> (r: Vec<char>)
    ensures
        r@ == to_ascii_upper(s@),
{
    let mut r: Vec<char> = Vec::new();
    for i in 0..s.len()
        invariant
            r@ == to_ascii_upper(s@.take(i as int)),
    {
        r.push(ascii_upper_exec(s[i]));
        assert(to_ascii_upper(s@.take(i + 1)) =~= to_ascii_upper(s@.take(i as int)).push(
            ascii_upper(s@[i as int]),
        ));
    }
    assert(s@.take(s@.len() as int) =~= s@);
    r
}


/// The lines of `ls[..n]` trimmed, empty ones dropped.
pub open spec fn nonblank_lines(ls: Seq<Seq<char>>, n: int) -> Seq<Seq<char>>
    decreases n,
{
    if n <= 0 || n > ls.len() {
        Seq::empty()
    } else if trim(ls[n - 1]).len() == 0 {
        nonblank_lines(ls, n - 1)
    } else {
        nonblank_lines(ls, n - 1).push(trim(ls[n - 1]))
    }
}

/// The trimmed, non-empty lines of `s`, as `String`s.
pub fn nonblank_lines_exec(s: &str) -> (r: Vec<String>)
    ensures
        strings_view(r@) == nonblank_lines(lines(s@), lines(s@).len() as int),
{
    let ls = lines_exec(chars_of(s).as_slice());
    let ghost lv = views(ls@);
    let mut out: Vec<String> = Vec::new();
    for i in 0..ls.len()
        invariant
            lv == views(ls@),
            lv == lines(s@),
            strings_view(out@) == nonblank_lines(lv, i as int),
    {
        let t = trim_chars(ls[i].as_slice());
        assert(lv[i as int] == ls@[i as int]@);
        if t.len() != 0 {
            let ghost before = out@;
            out.push(string_of(t.as_slice()));
            assert(strings_view(out@) =~= strings_view(before).push(t@));
        }
    }
    out
}

// ─── Decimal numbers ────────────────────────────────────────────────

/// The character of decimal digit `d`.
pub open spec fn digit_char(d: nat) -> char {
    (48 + d) as char
}

/// The decimal representation of `n`, without leading zeros (`"0"` for 0).
pub open spec fn decimal(n: nat) -> Seq<char>
    decreases n,
{
    if n < 10 {
        seq![digit_char(n)]
    } else {
        decimal(n / 10).push(digit_char(n % 10))
    }
}

pub proof fn lemma_decimal_digits(n: nat)
    ensures
        decimal(n).len() > 0,
        forall|i: int| 0 <= i < decimal(n).len() ==> '0' <= #[trigger] decimal(n)[i] <= '9',
    decreases n,
{
    if n >= 10 {
        lemma_decimal_digits(n / 10);
    }
}

fn digit_char_exec(d: u128) -> (c: char)
    requires
        d < 10,
    ensures
        c == digit_char(d as nat),
{
    let b: u8 = 48u8 + (d as u8);
    b as char
}

/// The decimal representation of `n` (`n.to_string()`).
pub fn decimal_exec(n: u128) -> (r: Vec<char>)
    ensures
        r@ == decimal(n as nat),
    decreases n,
{
    if n < 10 {
        let mut v: Vec<char> = Vec::new();
        v.push(digit_char_exec(n));
        v
    } else {
        let mut v = decimal_exec(n / 10);
        v.push(digit_char_exec(n % 10));
        v
    }
}

/// Appends the decimal representation of `n`.
pub fn push_decimal(v: &mut Vec<char>, n: u128)
    ensures
        final(v)@ == old(v)@ + decimal(n as nat),
{
    let d = decimal_exec(n);
    push_all(v, d.as_slice());
}

// ─── Lexicographic order ────────────────────────────────────────────

/// `a` sorts strictly before `b` (the order of `String`'s `Ord`: by
/// characters, a proper prefix first).
pub open spec fn seq_lt(a: Seq<char>, b: Seq<char>) -> bool
    decreases a.len(),
{
    if b.len() == 0 {
        false
    } else if a.len() == 0 {
        true
    } else if a[0] != b[0] {
        a[0] < b[0]
    } else {
        seq_lt(a.drop_first(), b.drop_first())
    }
}

pub proof fn lemma_seq_lt_irreflexive(a: Seq<char>)
    ensures
        !seq_lt(a, a),
    decreases a.len(),
{
    if a.len() > 0 {
        lemma_seq_lt_irreflexive(a.drop_first());
    }
}

pub proof fn lemma_seq_lt_total(a: Seq<char>, b: Seq<char>)
    ensures
        a == b || seq_lt(a, b) || seq_lt(b, a),
        !(seq_lt(a, b) && seq_lt(b, a)),
    decreases a.len(),
{
    if a.len() > 0 && b.len() > 0 && a[0] == b[0] {
        lemma_seq_lt_total(a.drop_first(), b.drop_first());
        if a.drop_first() == b.drop_first() {
            assert(a =~= seq![a[0]] + a.drop_first());
            assert(b =~= seq![b[0]] + b.drop_first());
        }
    } else if a.len() == 0 && b.len() == 0 {
        assert(a =~= b);
    }
}

pub proof fn lemma_seq_lt_transitive(a: Seq<char>, b: Seq<char>, c: Seq<char>)
    requires
        seq_lt(a, b),
        seq_lt(b, c),
    ensures
        seq_lt(a, c),
    decreases a.len(),
{
    if a.len() > 0 && a[0] == b[0] && b[0] == c[0] {
        lemma_seq_lt_transitive(a.drop_first(), b.drop_first(), c.drop_first());
    }
}

/// Whether `a` sorts strictly before `b`.
pub fn lt_chars(a: &[char], b: &[char]) -> (r: bool)
    ensures
        r == seq_lt(a@, b@),
{
    let mut i: usize = 0;
    assert(a@.skip(0) =~= a@);
    assert(b@.skip(0) =~= b@);
    while i < a.len() && i < b.len() && a[i] == b[i]
        invariant
            i <= a@.len(),
            i <= b@.len(),
            seq_lt(a@, b@) == seq_lt(a@.skip(i as int), b@.skip(i as int)),
        decreases a@.len() - i,
    {
        assert(a@.skip(i as int).drop_first() =~= a@.skip(i + 1));
        assert(b@.skip(i as int).drop_first() =~= b@.skip(i + 1));
        i = i + 1;
    }
    if i >= b.len() {
        false
    } else if i >= a.len() {
        true
    } else {
        a[i] < b[i]
    }
}

/// Strictly increasing: sorted with no element twice.
pub open spec fn strictly_sorted(s: Seq<Seq<char>>) -> bool {
    forall|i: int, j: int| 0 <= i < j < s.len() ==> seq_lt(#[trigger] s[i], #[trigger] s[j])
}

} // verus!
