//! Character-level helpers on strings, each stated over `Seq<char>`.
//!
//! Benchmark identifiers are `/`-separated paths such as
//! `prepared_iteration/simple_10k/sky`; the catalog and the publication
//! bookkeeping split, search and parse them with these functions.

use vstd::prelude::*;

verus! {

/// `pat` occurs in `s` starting at index `i`.
pub open spec fn occurs_at(s: Seq<char>, pat: Seq<char>, i: int) -> bool {
    &&& 0 <= i
    &&& i + pat.len() <= s.len()
    &&& s.subrange(i, i + pat.len()) == pat
}

/// `pat` occurs somewhere in `s` (the meaning of `str::contains`).
pub open spec fn contains_seq(s: Seq<char>, pat: Seq<char>) -> bool {
    exists|i: int| occurs_at(s, pat, i)
}

/// `s` begins with `pat` (the meaning of `str::starts_with`).
pub open spec fn starts_with_seq(s: Seq<char>, pat: Seq<char>) -> bool {
    occurs_at(s, pat, 0)
}

/// The greatest index below `k` at which `pat` occurs in `s`.
pub open spec fn last_occurrence_below(s: Seq<char>, pat: Seq<char>, k: int) -> Option<int>
    decreases k,
{
    if k <= 0 {
        None
    } else if occurs_at(s, pat, k - 1) {
        Some(k - 1)
    } else {
        last_occurrence_below(s, pat, k - 1)
    }
}

/// The index of the last occurrence of `pat` in `s`.
pub open spec fn last_occurrence(s: Seq<char>, pat: Seq<char>) -> Option<int> {
    last_occurrence_below(s, pat, s.len() + 1int)
}

/// The least index at or above `k` at which `pat` occurs in `s`.
pub open spec fn first_occurrence_from(s: Seq<char>, pat: Seq<char>, k: int) -> Option<int>
    decreases s.len() + 1 - k,
{
    if k < 0 || k > s.len() {
        None
    } else if occurs_at(s, pat, k) {
        Some(k)
    } else {
        first_occurrence_from(s, pat, k + 1)
    }
}

/// The index of the first occurrence of `pat` in `s`.
pub open spec fn first_occurrence(s: Seq<char>, pat: Seq<char>) -> Option<int> {
    first_occurrence_from(s, pat, 0)
}

/// `str::rsplit_once`: the text before and after the last occurrence of `pat`.
pub open spec fn rsplit_once_seq(s: Seq<char>, pat: Seq<char>) -> Option<(Seq<char>, Seq<char>)> {
    match last_occurrence(s, pat) {
        Some(i) => Some((s.subrange(0, i), s.subrange(i + pat.len(), s.len() as int))),
        None => None,
    }
}

/// `str::split_once`: the text before and after the first occurrence of `pat`.
pub open spec fn split_once_seq(s: Seq<char>, pat: Seq<char>) -> Option<(Seq<char>, Seq<char>)> {
    match first_occurrence(s, pat) {
        Some(i) => Some((s.subrange(0, i), s.subrange(i + pat.len(), s.len() as int))),
        None => None,
    }
}

/// `s` ends with `pat` (the meaning of `str::ends_with`).
pub open spec fn ends_with_seq(s: Seq<char>, pat: Seq<char>) -> bool {
    occurs_at(s, pat, s.len() - pat.len())
}

/// `str::strip_prefix`.
pub open spec fn strip_prefix_seq(s: Seq<char>, pat: Seq<char>) -> Option<Seq<char>> {
    if starts_with_seq(s, pat) {
        Some(s.subrange(pat.len() as int, s.len() as int))
    } else {
        None
    }
}

/// An ASCII decimal digit.
pub open spec fn is_digit(c: char) -> bool {
    '0' <= c && c <= '9'
}

/// Every character of `s` is an ASCII decimal digit.
pub open spec fn all_digits(s: Seq<char>) -> bool {
    forall|i: int| 0 <= i < s.len() ==> is_digit(#[trigger] s[i])
}

/// The number written by the decimal digits `s` (most significant first).
pub open spec fn digits_value(s: Seq<char>) -> nat
    decreases s.len(),
{
    if s.len() == 0 {
        0
    } else {
        digits_value(s.drop_last()) * 10 + ((s.last() as int) - ('0' as int)) as nat
    }
}

/// The digits that `usize::from_str` reads: one leading `+` is skipped.
pub open spec fn unsigned_digits(s: Seq<char>) -> Seq<char> {
    if s.len() > 0 && s[0] == '+' {
        s.subrange(1, s.len() as int)
    } else {
        s
    }
}

/// `usize::from_str(..).ok()`: an optional `+`, then at least one decimal
/// digit and nothing else, whose value fits in a `usize`.
pub open spec fn parse_usize_spec(s: Seq<char>) -> Option<usize> {
    let d = unsigned_digits(s);
    if d.len() > 0 && all_digits(d) && digits_value(d) <= usize::MAX {
        Some(digits_value(d) as usize)
    } else {
        None
    }
}

/// The characters of `s`, in order.
pub fn chars_of(s: &str) -> (r: Vec<char>)
    ensures
        r@ == s@,
{
    let n = s.unicode_len();
    let mut r: Vec<char> = Vec::new();
    let mut i: usize = 0;
    while i < n
        invariant
            n == s@.len(),
            i <= n,
            r@ == s@.subrange(0, i as int),
        decreases n - i,
    {
        let c = s.get_char(i);
        r.push(c);
        i = i + 1;
        assert(r@ =~= s@.subrange(0, i as int));
    }
    assert(r@ =~= s@);
    r
}

/// Whether two character sequences are equal.
pub fn chars_equal(a: &Vec<char>, b: &Vec<char>) -> (r: bool)
    ensures
        r == (a@ == b@),
{
    if a.len() != b.len() {
        return false;
    }
    let mut i: usize = 0;
    while i < a.len()
        invariant
            a@.len() == b@.len(),
            i <= a@.len(),
            forall|j: int| 0 <= j < i ==> a@[j] == b@[j],
        decreases a.len() - i,
    {
        if a[i] != b[i] {
            return false;
        }
        i = i + 1;
    }
    assert(a@ =~= b@);
    true
}

/// Whether `s` and `t` hold the same text.
pub fn str_equal(s: &str, t: &str) -> (r: bool)
    ensures
        r == (s@ == t@),
{
    let a = chars_of(s);
    let b = chars_of(t);
    chars_equal(&a, &b)
}

/// Whether `pat` occurs in `s` at index `i`.
pub fn occurs_at_exec(s: &Vec<char>, pat: &Vec<char>, i: usize) -> (r: bool)
    ensures
        r == occurs_at(s@, pat@, i as int),
{
    if i > s.len() || pat.len() > s.len() - i {
        return false;
    }
    let n = s.len();
    let mut k: usize = 0;
    while k < pat.len()
        invariant
            n == s@.len(),
            i + pat@.len() <= s@.len(),
            k <= pat@.len(),
            forall|j: int| 0 <= j < k ==> s@[i + j] == pat@[j],
        decreases pat.len() - k,
    {
        if s[i + k] != pat[k] {
            assert(s@.subrange(i as int, i + pat@.len())[k as int] != pat@[k as int]);
            return false;
        }
        k = k + 1;
    }
    assert(s@.subrange(i as int, i + pat@.len()) =~= pat@);
    true
}

/// The index of the last occurrence of `pat` in `s`.
pub fn find_last(s: &Vec<char>, pat: &Vec<char>) -> (r: Option<usize>)
    ensures
        match r {
            Some(i) => last_occurrence(s@, pat@) == Some(i as int),
            None => last_occurrence(s@, pat@) is None,
        },
{
    let mut k: usize = s.len();
    loop
        invariant
            k <= s@.len(),
            last_occurrence(s@, pat@) == last_occurrence_below(s@, pat@, k + 1),
        decreases k,
    {
        if occurs_at_exec(s, pat, k) {
            return Some(k);
        }
        if k == 0 {
            assert(last_occurrence_below(s@, pat@, 0) is None);
            return None;
        }
        k = k - 1;
    }
}

/// The index of the first occurrence of `pat` in `s`.
pub fn find_first(s: &Vec<char>, pat: &Vec<char>) -> (r: Option<usize>)
    ensures
        match r {
            Some(i) => first_occurrence(s@, pat@) == Some(i as int),
            None => first_occurrence(s@, pat@) is None,
        },
{
    let n = s.len();
    let mut k: usize = 0;
    loop
        invariant
            n == s@.len(),
            k <= n,
            first_occurrence(s@, pat@) == first_occurrence_from(s@, pat@, k as int),
        decreases n - k,
    {
        if occurs_at_exec(s, pat, k) {
            return Some(k);
        }
        if k == n {
            assert(first_occurrence_from(s@, pat@, k + 1) is None);
            return None;
        }
        k = k + 1;
    }
}

/// Whether `pat` occurs in `s`.
pub fn contains_chars(s: &Vec<char>, pat: &Vec<char>) -> (r: bool)
    ensures
        r == contains_seq(s@, pat@),
{
    match find_first(s, pat) {
        Some(i) => {
            proof {
                lemma_first_occurrence_sound(s@, pat@, 0int);
            }
            true
        },
        None => {
            proof {
                lemma_first_occurrence_complete(s@, pat@, 0int);
            }
            false
        },
    }
}

/// Whether the text `t` occurs in `s`.
pub fn contains_str(s: &Vec<char>, t: &str) -> (r: bool)
    ensures
        r == contains_seq(s@, t@),
{
    let pat = chars_of(t);
    contains_chars(s, &pat)
}

/// Whether `s` begins with the text `t`.
pub fn starts_with_str(s: &Vec<char>, t: &str) -> (r: bool)
    ensures
        r == starts_with_seq(s@, t@),
{
    let pat = chars_of(t);
    occurs_at_exec(s, &pat, 0)
}

/// The characters of `s` from `from` (inclusive) to `to` (exclusive).
pub fn slice_chars(s: &Vec<char>, from: usize, to: usize) -> (r: Vec<char>)
    requires
        from <= to <= s@.len(),
    ensures
        r@ == s@.subrange(from as int, to as int),
{
    let mut r: Vec<char> = Vec::new();
    let mut i: usize = from;
    while i < to
        invariant
            from <= i <= to <= s@.len(),
            r@ == s@.subrange(from as int, i as int),
        decreases to - i,
    {
        r.push(s[i]);
        i = i + 1;
        assert(r@ =~= s@.subrange(from as int, i as int));
    }
    r
}

/// `str::rsplit_once` on characters.
pub fn rsplit_once_chars(s: &Vec<char>, pat: &Vec<char>) -> (r: Option<(Vec<char>, Vec<char>)>)
    ensures
        match r {
            Some((a, b)) => rsplit_once_seq(s@, pat@) == Some((a@, b@)),
            None => rsplit_once_seq(s@, pat@) is None,
        },
{
    match find_last(s, pat) {
        Some(i) => {
            proof {
                lemma_last_occurrence_sound(s@, pat@, s@.len() + 1int);
            }
            let n = s.len();
            let a = slice_chars(s, 0, i);
            let b = slice_chars(s, i + pat.len(), n);
            Some((a, b))
        },
        None => None,
    }
}

/// `str::split_once` on characters.
pub fn split_once_chars(s: &Vec<char>, pat: &Vec<char>) -> (r: Option<(Vec<char>, Vec<char>)>)
    ensures
        match r {
            Some((a, b)) => split_once_seq(s@, pat@) == Some((a@, b@)),
            None => split_once_seq(s@, pat@) is None,
        },
{
    match find_first(s, pat) {
        Some(i) => {
            proof {
                lemma_first_occurrence_sound(s@, pat@, 0int);
            }
            let n = s.len();
            let a = slice_chars(s, 0, i);
            let b = slice_chars(s, i + pat.len(), n);
            Some((a, b))
        },
        None => None,
    }
}

/// `str::strip_prefix` on characters.
pub fn strip_prefix_chars(s: &Vec<char>, pat: &Vec<char>) -> (r: Option<Vec<char>>)
    ensures
        match r {
            Some(a) => strip_prefix_seq(s@, pat@) == Some(a@),
            None => strip_prefix_seq(s@, pat@) is None,
        },
{
    if occurs_at_exec(s, pat, 0) {
        Some(slice_chars(s, pat.len(), s.len()))
    } else {
        None
    }
}

/// `usize::from_str(..).ok()` on characters.
pub fn parse_usize_chars(s: &Vec<char>) -> (r: Option<usize>)
    ensures
        r == parse_usize_spec(s@),
{
    let start: usize = if s.len() > 0 && s[0] == '+' {
        1
    } else {
        0
    };
    let ghost d = unsigned_digits(s@);
    assert(d =~= s@.subrange(start as int, s@.len() as int));
    if start >= s.len() {
        return None;
    }
    let mut value: usize = 0;
    let mut i: usize = start;
    while i < s.len()
        invariant
            start <= i <= s@.len(),
            d == s@.subrange(start as int, s@.len() as int),
            d == unsigned_digits(s@),
            all_digits(d.subrange(0, i - start)),
            value as nat == digits_value(d.subrange(0, i - start)),
        decreases s.len() - i,
    {
        let c = s[i];
        if !('0' <= c && c <= '9') {
            assert(d[i - start] == c);
            assert(!is_digit(d[i - start]));
            return None;
        }
        let digit = (c as u32 - '0' as u32) as usize;
        assert(d.subrange(0, i + 1 - start).drop_last() =~= d.subrange(0, i - start));
        assert(d.subrange(0, i + 1 - start).last() == c);
        assert(digit as int == (c as int) - ('0' as int));
        assert(digits_value(d.subrange(0, i + 1 - start)) == value * 10 + digit);
        if value > (usize::MAX - digit) / 10 {
            proof {
                assert(value * 10 + digit > usize::MAX) by (nonlinear_arith)
                    requires
                        value > (usize::MAX - digit) / 10,
                        digit <= 9,
                ;
                lemma_digits_value_prefix(d, (i + 1 - start) as int);
            }
            return None;
        }
        value = value * 10 + digit;
        i = i + 1;
    }
    assert(d.subrange(0, s@.len() - start) =~= d);
    Some(value)
}

/// `usize::from_str(t).ok()`.
pub fn parse_usize_str(t: &str) -> (r: Option<usize>)
    ensures
        r == parse_usize_spec(t@),
{
    let s = chars_of(t);
    parse_usize_chars(&s)
}

/// A longer run of digits is worth at least as much as any of its prefixes,
/// whatever digits follow.
pub proof fn lemma_digits_value_prefix(d: Seq<char>, k: int)
    requires
        0 <= k <= d.len(),
    ensures
        all_digits(d) ==> digits_value(d.subrange(0, k)) <= digits_value(d),
    decreases d.len() - k,
{
    if k < d.len() && all_digits(d) {
        let longer = d.subrange(0, k + 1);
        assert(longer.drop_last() =~= d.subrange(0, k));
        assert(is_digit(d[k]));
        lemma_digits_value_prefix(d, k + 1);
    } else if k == d.len() {
        assert(d.subrange(0, k) =~= d);
    }
}

/// What `first_occurrence_from` returns is an occurrence.
pub proof fn lemma_first_occurrence_sound(s: Seq<char>, pat: Seq<char>, k: int)
    ensures
        first_occurrence_from(s, pat, k) matches Some(i) ==> occurs_at(s, pat, i) && k <= i,
    decreases s.len() + 1 - k,
{
    if 0 <= k <= s.len() && !occurs_at(s, pat, k) {
        lemma_first_occurrence_sound(s, pat, k + 1);
    }
}

/// When `first_occurrence_from` finds nothing, `pat` occurs nowhere at or above `k`.
pub proof fn lemma_first_occurrence_complete(s: Seq<char>, pat: Seq<char>, k: int)
    requires
        0 <= k,
    ensures
        first_occurrence_from(s, pat, k) is None ==> forall|i: int|
            k <= i ==> !#[trigger] occurs_at(s, pat, i),
    decreases s.len() + 1 - k,
{
    if k <= s.len() && !occurs_at(s, pat, k) {
        lemma_first_occurrence_complete(s, pat, k + 1);
    }
}

/// What `last_occurrence_below` returns is an occurrence below `k`.
pub proof fn lemma_last_occurrence_sound(s: Seq<char>, pat: Seq<char>, k: int)
    ensures
        last_occurrence_below(s, pat, k) matches Some(i) ==> occurs_at(s, pat, i) && i < k,
    decreases k,
{
    if k > 0 && !occurs_at(s, pat, k - 1) {
        lemma_last_occurrence_sound(s, pat, k - 1);
    }
}

/// Where `s[p]` is a `/` and no `/` follows it, the last `/` below any
/// `k` past `p` is at `p`.
proof fn lemma_last_slash_below(s: Seq<char>, p: int, k: int)
    requires
        0 <= p < s.len(),
        s[p] == '/',
        p + 1 <= k <= s.len() + 1,
        forall|q: int| p < q < s.len() ==> s[q] != '/',
    ensures
        last_occurrence_below(s, seq!['/'], k) == Some(p),
    decreases k,
{
    if k > p + 1 {
        if k - 1 < s.len() {
            assert(s.subrange(k - 1, k)[0] == s[k - 1]);
        }
        lemma_last_slash_below(s, p, k - 1);
    } else {
        assert(s.subrange(p, p + 1) =~= seq!['/']);
    }
}

/// Splitting `f/e` at its last `/`, where `e` holds no `/`, gives back `f`
/// and `e`.
pub proof fn lemma_rsplit_once_last_slash(f: Seq<char>, e: Seq<char>)
    requires
        !e.contains('/'),
    ensures
        rsplit_once_seq(f + seq!['/'] + e, seq!['/']) == Some((f, e)),
{
    let s = f + seq!['/'] + e;
    assert forall|q: int| f.len() < q < s.len() implies s[q] != '/' by {
        assert(s[q] == e[q - f.len() - 1]);
    }
    lemma_last_slash_below(s, f.len() as int, s.len() + 1int);
    assert(s.subrange(0, f.len() as int) =~= f);
    assert(s.subrange(f.len() + 1int, s.len() as int) =~= e);
}

/// `pat[j..]` lies in `s` from `i + j` on, compared one character at a
/// time.
pub open spec fn matches_from(s: Seq<char>, pat: Seq<char>, i: int, j: int) -> bool
    decreases pat.len() - j,
{
    if j >= pat.len() {
        i + pat.len() <= s.len()
    } else {
        0 <= i + j < s.len() && s[i + j] == pat[j] && matches_from(s, pat, i, j + 1)
    }
}

/// `pat` occurs at no index in `k..end` of `s`, checked one index at a time.
pub open spec fn no_match_in(s: Seq<char>, pat: Seq<char>, k: int, end: int) -> bool
    decreases end - k,
{
    if k >= end {
        true
    } else {
        !matches_from(s, pat, k, 0) && no_match_in(s, pat, k + 1, end)
    }
}

/// Comparing one character at a time decides an occurrence.
pub proof fn lemma_matches_from(s: Seq<char>, pat: Seq<char>, i: int, j: int)
    requires
        0 <= i,
        0 <= j <= pat.len(),
    ensures
        matches_from(s, pat, i, j) <==> i + pat.len() <= s.len() && forall|t: int|
            j <= t < pat.len() ==> s[i + t] == #[trigger] pat[t],
    decreases pat.len() - j,
{
    if j < pat.len() {
        lemma_matches_from(s, pat, i, j + 1);
    }
}

/// `matches_from` from the first character is `occurs_at`.
pub proof fn lemma_matches_occurs(s: Seq<char>, pat: Seq<char>, i: int)
    requires
        0 <= i,
    ensures
        matches_from(s, pat, i, 0) <==> occurs_at(s, pat, i),
{
    lemma_matches_from(s, pat, i, 0);
    if occurs_at(s, pat, i) {
        assert forall|t: int| 0 <= t < pat.len() implies s[i + t] == #[trigger] pat[t] by {
            assert(s.subrange(i, i + pat.len())[t] == s[i + t]);
        }
    }
    if matches_from(s, pat, i, 0) && i + pat.len() <= s.len() {
        assert(s.subrange(i, i + pat.len()) =~= pat);
    }
}

/// What `no_match_in` checks: no occurrence in `k..end`.
pub proof fn lemma_no_match_in(s: Seq<char>, pat: Seq<char>, k: int, end: int)
    requires
        0 <= k,
        no_match_in(s, pat, k, end),
    ensures
        forall|i: int| k <= i < end ==> !#[trigger] occurs_at(s, pat, i),
    decreases end - k,
{
    if k < end {
        lemma_matches_occurs(s, pat, k);
        lemma_no_match_in(s, pat, k + 1, end);
    }
}

/// `pat` does not occur in `s` when no index up to `s.len() - pat.len()`
/// matches.
pub proof fn lemma_not_contains(s: Seq<char>, pat: Seq<char>)
    requires
        no_match_in(s, pat, 0, s.len() - pat.len() + 1int),
    ensures
        !contains_seq(s, pat),
{
    lemma_no_match_in(s, pat, 0, s.len() - pat.len() + 1int);
}

/// Where `pat` matches at `p` and at no later index, its last occurrence
/// is at `p`.
pub proof fn lemma_last_occurrence_at(s: Seq<char>, pat: Seq<char>, p: int)
    requires
        0 <= p,
        matches_from(s, pat, p, 0),
        no_match_in(s, pat, p + 1, s.len() + 1int),
    ensures
        last_occurrence(s, pat) == Some(p),
        rsplit_once_seq(s, pat) == Some((s.subrange(0, p), s.subrange(p + pat.len(), s.len() as int))),
{
    lemma_matches_occurs(s, pat, p);
    lemma_no_match_in(s, pat, p + 1, s.len() + 1int);
    lemma_last_occurrence_below_at(s, pat, p, s.len() + 1int);
}

/// The last occurrence below `k` is at `p` when `p` is an occurrence and
/// none lies in `p + 1..k`.
proof fn lemma_last_occurrence_below_at(s: Seq<char>, pat: Seq<char>, p: int, k: int)
    requires
        0 <= p < k,
        occurs_at(s, pat, p),
        forall|i: int| p + 1 <= i < k ==> !#[trigger] occurs_at(s, pat, i),
    ensures
        last_occurrence_below(s, pat, k) == Some(p),
    decreases k,
{
    if k - 1 > p {
        assert(!occurs_at(s, pat, k - 1));
        lemma_last_occurrence_below_at(s, pat, p, k - 1);
    }
}

/// Where `pat` matches at `p` and at no earlier index, its first occurrence
/// is at `p`.
pub proof fn lemma_first_occurrence_at(s: Seq<char>, pat: Seq<char>, p: int)
    requires
        0 <= p,
        matches_from(s, pat, p, 0),
        no_match_in(s, pat, 0, p),
    ensures
        first_occurrence(s, pat) == Some(p),
{
    lemma_matches_occurs(s, pat, p);
    lemma_no_match_in(s, pat, 0, p);
    lemma_first_occurrence_from_at(s, pat, p, 0);
}

/// The first occurrence from `k` is at `p` when `p` is an occurrence and
/// none lies in `k..p`.
proof fn lemma_first_occurrence_from_at(s: Seq<char>, pat: Seq<char>, p: int, k: int)
    requires
        0 <= k <= p,
        occurs_at(s, pat, p),
        forall|i: int| k <= i < p ==> !#[trigger] occurs_at(s, pat, i),
    ensures
        first_occurrence_from(s, pat, k) == Some(p),
    decreases p - k,
{
    if k < p {
        assert(!occurs_at(s, pat, k));
        lemma_first_occurrence_from_at(s, pat, p, k + 1);
    }
}

/// One or two decimal digits parse to the number they write.
pub proof fn lemma_parse_short_digits(s: Seq<char>)
    requires
        1 <= s.len() <= 2,
        all_digits(s),
    ensures
        parse_usize_spec(s) == Some(
            (if s.len() == 1 {
                s[0] as int - '0' as int
            } else {
                (s[0] as int - '0' as int) * 10 + (s[1] as int - '0' as int)
            }) as usize,
        ),
{
    assert(is_digit(s[0]));
    assert(unsigned_digits(s) == s);
    if s.len() == 2 {
        assert(is_digit(s[1]));
        assert(s.drop_last().drop_last() =~= Seq::<char>::empty());
        assert(s.drop_last().last() == s[0]);
    } else {
        assert(s.drop_last() =~= Seq::<char>::empty());
    }
    reveal_with_fuel(digits_value, 3);
}

/// `a` sorts strictly before `b` in the lexicographic order of their
/// characters, the order of `str`'s `Ord` (UTF-8 byte order follows code
/// point order).
pub open spec fn seq_less(a: Seq<char>, b: Seq<char>) -> bool
    decreases a.len(),
{
    if b.len() == 0 {
        false
    } else if a.len() == 0 {
        true
    } else if a[0] != b[0] {
        a[0] < b[0]
    } else {
        seq_less(a.drop_first(), b.drop_first())
    }
}

/// Whether `a` sorts strictly before `b`.
pub fn chars_less(a: &Vec<char>, b: &Vec<char>) -> (r: bool)
    ensures
        r == seq_less(a@, b@),
{
    let mut i: usize = 0;
    assert(a@.skip(0) =~= a@);
    assert(b@.skip(0) =~= b@);
    while i < a.len() && i < b.len()
        invariant
            i <= a@.len(),
            i <= b@.len(),
            seq_less(a@, b@) == seq_less(a@.skip(i as int), b@.skip(i as int)),
        decreases a@.len() - i,
    {
        assert(a@.skip(i as int)[0] == a@[i as int]);
        assert(b@.skip(i as int)[0] == b@[i as int]);
        if a[i] != b[i] {
            return a[i] < b[i];
        }
        assert(a@.skip(i as int).drop_first() =~= a@.skip(i + 1));
        assert(b@.skip(i as int).drop_first() =~= b@.skip(i + 1));
        i = i + 1;
    }
    i < b.len()
}

/// `seq_less` is a strict total order: irreflexive, transitive, and any
/// two different sequences are ordered one way.
pub proof fn lemma_seq_less_order(a: Seq<char>, b: Seq<char>, c: Seq<char>)
    ensures
        !seq_less(a, a),
        seq_less(a, b) ==> !seq_less(b, a),
        seq_less(a, b) && seq_less(b, c) ==> seq_less(a, c),
        a != b ==> seq_less(a, b) || seq_less(b, a),
    decreases a.len(),
{
    if a.len() > 0 {
        lemma_seq_less_order(a.drop_first(), b.drop_first(), c.drop_first());
        if b.len() > 0 && a[0] == b[0] && a.drop_first() == b.drop_first() {
            assert(a =~= b) by {
                assert forall|i: int| 0 <= i < a.len() implies a[i] == b[i] by {
                    if i > 0 {
                        assert(a[i] == a.drop_first()[i - 1]);
                        assert(b[i] == b.drop_first()[i - 1]);
                    }
                }
            }
        }
    } else if b.len() == 0 {
        assert(a =~= b);
    }
}

} // verus!
