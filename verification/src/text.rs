//! Character-level helpers on strings: search for the `::` scope separator,
//! prefix and suffix tests, whitespace trimming, equality and building.

use vstd::prelude::*;

verus! {

/// The string holds the scope separator `::` starting at index `i`.
pub open spec fn sep_at(s: Seq<char>, i: int) -> bool {
    0 <= i && i + 1 < s.len() && s[i] == ':' && s[i + 1] == ':'
}

/// The string holds the scope separator `::` somewhere.
pub open spec fn has_sep(s: Seq<char>) -> bool {
    exists|i: int| sep_at(s, i)
}

/// The first index `>= from` at which a separator starts.
pub open spec fn first_sep_from(s: Seq<char>, from: nat) -> Option<int>
    decreases s.len() - from,
{
    if from + 1 >= s.len() {
        None
    } else if sep_at(s, from as int) {
        Some(from as int)
    } else {
        first_sep_from(s, from + 1)
    }
}

/// The last index `< end` at which a separator starts.
pub open spec fn last_sep_before(s: Seq<char>, end: nat) -> Option<int>
    decreases end,
{
    if end == 0 {
        None
    } else if sep_at(s, end - 1) {
        Some(end - 1)
    } else {
        last_sep_before(s, (end - 1) as nat)
    }
}

/// Where `str::rfind("::")` finds the separator: the start of its last occurrence.
pub open spec fn spec_rfind_sep(s: Seq<char>) -> Option<int> {
    last_sep_before(s, s.len())
}

pub proof fn lemma_first_sep_from(s: Seq<char>, from: nat)
    ensures
        match first_sep_from(s, from) {
            Some(i) => from <= i && sep_at(s, i) && forall|j: int|
                from <= j < i ==> !#[trigger] sep_at(s, j),
            None => forall|j: int| from <= j ==> !#[trigger] sep_at(s, j),
        },
    decreases s.len() - from,
{
    if from + 1 < s.len() && !sep_at(s, from as int) {
        lemma_first_sep_from(s, from + 1);
    }
}

pub proof fn lemma_last_sep_before(s: Seq<char>, end: nat)
    requires
        end <= s.len(),
    ensures
        match last_sep_before(s, end) {
            Some(i) => i < end && sep_at(s, i) && forall|j: int|
                i < j < end ==> !#[trigger] sep_at(s, j),
            None => forall|j: int| j < end ==> !#[trigger] sep_at(s, j),
        },
    decreases end,
{
    if end > 0 && !sep_at(s, end - 1) {
        lemma_last_sep_before(s, (end - 1) as nat);
    }
}

/// The pieces that `str::split("::")` yields: the separators are found from the
/// left, and each search resumes after the separator it found.
pub open spec fn spec_split_sep(s: Seq<char>) -> Seq<Seq<char>>
    decreases s.len(),
{
    match first_sep_from(s, 0) {
        Some(i) => {
            proof {
                lemma_first_sep_from(s, 0);
            }
            seq![s.take(i)] + spec_split_sep(s.skip(i + 2))
        },
        None => seq![s],
    }
}

/// The Unicode `White_Space` property, which `char::is_whitespace` tests.
pub open spec fn is_unicode_whitespace(c: char) -> bool {
    ||| ('\u{9}' <= c && c <= '\u{d}')
    ||| c == ' '
    ||| c == '\u{85}'
    ||| c == '\u{a0}'
    ||| c == '\u{1680}'
    ||| ('\u{2000}' <= c && c <= '\u{200a}')
    ||| c == '\u{2028}'
    ||| c == '\u{2029}'
    ||| c == '\u{202f}'
    ||| c == '\u{205f}'
    ||| c == '\u{3000}'
}

/// The first index `>= i` of a character that is not whitespace (or the length).
pub open spec fn trim_start_index(s: Seq<char>, i: nat) -> nat
    decreases s.len() - i,
{
    if i >= s.len() {
        s.len()
    } else if is_unicode_whitespace(s[i as int]) {
        trim_start_index(s, i + 1)
    } else {
        i
    }
}

/// The end of `s[lo..j]` once trailing whitespace is removed.
pub open spec fn trim_end_index(s: Seq<char>, lo: nat, j: nat) -> nat
    decreases j,
{
    if j <= lo {
        lo
    } else if is_unicode_whitespace(s[j - 1]) {
        trim_end_index(s, lo, (j - 1) as nat)
    } else {
        j
    }
}

/// What `str::trim` leaves of a string: the whitespace at both ends is removed.
pub open spec fn spec_trim(s: Seq<char>) -> Seq<char> {
    let lo = trim_start_index(s, 0);
    s.subrange(lo as int, trim_end_index(s, lo, s.len()) as int)
}

pub proof fn lemma_trim_start_index(s: Seq<char>, i: nat)
    requires
        i <= s.len(),
    ensures
        i <= trim_start_index(s, i) <= s.len(),
        forall|k: int| i <= k < trim_start_index(s, i) ==> is_unicode_whitespace(#[trigger] s[k]),
        trim_start_index(s, i) < s.len() ==> !is_unicode_whitespace(s[trim_start_index(s, i) as int]),
    decreases s.len() - i,
{
    if i < s.len() && is_unicode_whitespace(s[i as int]) {
        lemma_trim_start_index(s, i + 1);
    }
}

pub proof fn lemma_trim_end_index(s: Seq<char>, lo: nat, j: nat)
    requires
        lo <= j <= s.len(),
    ensures
        lo <= trim_end_index(s, lo, j) <= j,
        forall|k: int| trim_end_index(s, lo, j) <= k < j ==> is_unicode_whitespace(#[trigger] s[k]),
        trim_end_index(s, lo, j) > lo ==> !is_unicode_whitespace(s[trim_end_index(s, lo, j) - 1]),
    decreases j,
{
    if j > lo && is_unicode_whitespace(s[j - 1]) {
        lemma_trim_end_index(s, lo, (j - 1) as nat);
    }
}

/// Trimming never lengthens a string.
pub proof fn lemma_trim_len(s: Seq<char>)
    ensures
        spec_trim(s).len() <= s.len(),
{
    lemma_trim_start_index(s, 0);
    lemma_trim_end_index(s, trim_start_index(s, 0), s.len());
}

/// Appending a character moves the first non-whitespace index only when all
/// of `s` from `i` on is whitespace.
pub proof fn lemma_trim_start_push(s: Seq<char>, c: char, i: nat)
    requires
        i <= s.len(),
    ensures
        trim_start_index(s.push(c), i) == if trim_start_index(s, i) < s.len() {
            trim_start_index(s, i)
        } else if is_unicode_whitespace(c) {
            s.len() + 1
        } else {
            s.len()
        },
    decreases s.len() - i,
{
    let t = s.push(c);
    if i < s.len() {
        assert(t[i as int] == s[i as int]);
        if is_unicode_whitespace(s[i as int]) {
            lemma_trim_start_push(s, c, i + 1);
        }
    } else {
        assert(t[i as int] == c);
        if is_unicode_whitespace(c) {
            assert(trim_start_index(t, i + 1) == t.len());
        }
    }
}

/// Appending a character does not change trailing-whitespace search below it.
pub proof fn lemma_trim_end_push(s: Seq<char>, c: char, lo: nat, j: nat)
    requires
        lo <= j <= s.len(),
    ensures
        trim_end_index(s.push(c), lo, j) == trim_end_index(s, lo, j),
    decreases j,
{
    if j > lo {
        assert(s.push(c)[j - 1] == s[j - 1]);
        lemma_trim_end_push(s, c, lo, (j - 1) as nat);
    }
}

/// Trailing whitespace does not change what trimming leaves.
pub proof fn lemma_trim_push_whitespace(s: Seq<char>, c: char)
    requires
        is_unicode_whitespace(c),
    ensures
        spec_trim(s.push(c)) == spec_trim(s),
{
    let t = s.push(c);
    lemma_trim_start_index(s, 0);
    lemma_trim_start_push(s, c, 0);
    let lo = trim_start_index(s, 0);
    if lo < s.len() {
        assert(t[s.len() as int] == c);
        assert(trim_end_index(t, lo, t.len()) == trim_end_index(t, lo, s.len()));
        lemma_trim_end_push(s, c, lo, s.len());
        lemma_trim_end_index(s, lo, s.len());
        assert(spec_trim(t) =~= spec_trim(s));
    } else {
        assert(spec_trim(t) =~= spec_trim(s));
    }
}

/// A string whose ends are not whitespace is left as it is by trimming.
pub proof fn lemma_trim_bare(s: Seq<char>)
    requires
        s.len() > 0,
        !is_unicode_whitespace(s[0]),
        !is_unicode_whitespace(s.last()),
    ensures
        spec_trim(s) == s,
{
    assert(trim_start_index(s, 0) == 0);
    assert(trim_end_index(s, 0, s.len()) == s.len());
    assert(spec_trim(s) =~= s);
}

/// A non-empty string that trimming leaves as it is has no whitespace at its ends.
pub proof fn lemma_trim_fixed_ends(s: Seq<char>)
    requires
        s.len() > 0,
        spec_trim(s) == s,
    ensures
        !is_unicode_whitespace(s[0]),
        !is_unicode_whitespace(s.last()),
{
    lemma_trim_start_index(s, 0);
    let lo = trim_start_index(s, 0);
    lemma_trim_end_index(s, lo, s.len());
    if is_unicode_whitespace(s[0]) {
        assert(lo >= 1);
        assert(spec_trim(s).len() < s.len());
    }
    if is_unicode_whitespace(s.last()) {
        if lo < s.len() {
            assert(trim_end_index(s, lo, s.len()) < s.len());
        }
        assert(spec_trim(s).len() < s.len());
    }
}

/// `char::is_whitespace`: true exactly for the characters that have the Unicode
/// `White_Space` property (the set that `is_unicode_whitespace` lists).
#[verifier::external_body]
fn char_is_whitespace(c: char) -> (r: bool)
    ensures
        r == is_unicode_whitespace(c),
{
    c.is_whitespace()
}

/// `String::push`: appends one character at the end.
#[verifier::external_body]
pub(crate) fn push_char(s: &mut String, c: char)
    ensures
        final(s)@ == old(s)@.push(c),
{
    s.push(c)
}

/// The characters of `s`, one by one.
pub fn chars_of(s: &str) -> (v: Vec<char>)
    ensures
        v@ == s@,
{
    let n = s.unicode_len();
    let mut v: Vec<char> = Vec::new();
    let mut i: usize = 0;
    while i < n
        invariant
            n == s@.len(),
            i <= n,
            v@ == s@.take(i as int),
        decreases n - i,
    {
        v.push(s.get_char(i));
        i = i + 1;
        assert(v@ =~= s@.take(i as int));
    }
    assert(v@ =~= s@);
    v
}

/// Whether two strings hold the same characters.
pub fn str_eq(a: &str, b: &str) -> (r: bool)
    ensures
        r == (a@ == b@),
{
    let n = a.unicode_len();
    if n != b.unicode_len() {
        return false;
    }
    let mut i: usize = 0;
    while i < n
        invariant
            n == a@.len(),
            n == b@.len(),
            i <= n,
            forall|k: int| 0 <= k < i ==> a@[k] == b@[k],
        decreases n - i,
    {
        if a.get_char(i) != b.get_char(i) {
            return false;
        }
        i = i + 1;
    }
    assert(a@ =~= b@);
    true
}

/// The first separator at or after `from`, as `first_sep_from` states.
pub fn find_sep_from(s: &Vec<char>, from: usize) -> (r: Option<usize>)
    ensures
        match first_sep_from(s@, from as nat) {
            Some(i) => r == Some(i as usize),
            None => r is None,
        },
{
    let n = s.len();
    let mut i = from;
    while i < n && i + 1 < n
        invariant
            n == s@.len(),
            from <= i,
            first_sep_from(s@, from as nat) == first_sep_from(s@, i as nat),
        decreases n - i,
    {
        if s[i] == ':' && s[i + 1] == ':' {
            return Some(i);
        }
        i = i + 1;
    }
    None
}

/// The last separator of `s`, as `spec_rfind_sep` states.
pub fn rfind_sep(s: &Vec<char>) -> (r: Option<usize>)
    ensures
        match spec_rfind_sep(s@) {
            Some(i) => r == Some(i as usize),
            None => r is None,
        },
{
    let n = s.len();
    let mut j = n;
    while j > 0
        invariant
            n == s@.len(),
            j <= n,
            spec_rfind_sep(s@) == last_sep_before(s@, j as nat),
        decreases j,
    {
        if j < n && s[j - 1] == ':' && s[j] == ':' {
            return Some(j - 1);
        }
        j = j - 1;
    }
    None
}

/// `s` begins with `p`.
pub open spec fn has_prefix(s: Seq<char>, p: Seq<char>) -> bool {
    p.len() <= s.len() && s.take(p.len() as int) == p
}

/// `s` ends with `p`.
pub open spec fn has_suffix(s: Seq<char>, p: Seq<char>) -> bool {
    p.len() <= s.len() && s.skip(s.len() - p.len()) == p
}

/// Whether `s` begins with `p`.
pub fn starts_with(s: &Vec<char>, p: &str) -> (r: bool)
    ensures
        r == has_prefix(s@, p@),
{
    let m = p.unicode_len();
    if m > s.len() {
        return false;
    }
    let mut i: usize = 0;
    while i < m
        invariant
            m == p@.len(),
            m <= s@.len(),
            i <= m,
            forall|k: int| 0 <= k < i ==> s@[k] == p@[k],
        decreases m - i,
    {
        if s[i] != p.get_char(i) {
            assert(s@.take(m as int)[i as int] != p@[i as int]);
            return false;
        }
        i = i + 1;
    }
    assert(s@.take(m as int) =~= p@);
    true
}

/// Whether `s` ends with `p`.
pub fn ends_with(s: &Vec<char>, p: &str) -> (r: bool)
    ensures
        r == has_suffix(s@, p@),
{
    let m = p.unicode_len();
    let n = s.len();
    if m > n {
        return false;
    }
    let base = n - m;
    let mut i: usize = 0;
    while i < m
        invariant
            m == p@.len(),
            n == s@.len(),
            base == n - m,
            i <= m,
            forall|k: int| 0 <= k < i ==> s@[base + k] == p@[k],
        decreases m - i,
    {
        if s[base + i] != p.get_char(i) {
            assert(s@.skip(base as int)[i as int] != p@[i as int]);
            return false;
        }
        i = i + 1;
    }
    assert(s@.skip(base as int) =~= p@);
    true
}

/// `str::trim`: the string without the whitespace at either end.
pub fn trim(s: &str) -> (r: &str)
    ensures
        r@ == spec_trim(s@),
{
    let cs = chars_of(s);
    let n = cs.len();
    let mut lo: usize = 0;
    while lo < n && char_is_whitespace(cs[lo])
        invariant
            n == s@.len(),
            cs@ == s@,
            lo <= n,
            trim_start_index(s@, 0) == trim_start_index(s@, lo as nat),
        decreases n - lo,
    {
        lo = lo + 1;
    }
    let mut hi: usize = n;
    while hi > lo && char_is_whitespace(cs[hi - 1])
        invariant
            n == s@.len(),
            cs@ == s@,
            lo <= hi <= n,
            trim_start_index(s@, 0) == lo,
            trim_end_index(s@, lo as nat, n as nat) == trim_end_index(s@, lo as nat, hi as nat),
        decreases hi,
    {
        hi = hi - 1;
    }
    s.substring_char(lo, hi)
}

} // verus!
