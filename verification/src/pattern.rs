//! Wildcard pattern matching on file names.
//!
//! A pattern is compared after every `*` character is removed from it; only a
//! leading or a trailing `*` acts as a wildcard. A pattern wrapped in `*`
//! asks for a substring, a leading `*` for a suffix, a trailing `*` for a
//! prefix, and a pattern without a leading or trailing `*` for exact
//! equality. An asterisk that stands only in the middle of a pattern is
//! stripped and folds into the exact comparison; it is not a wildcard.

use vstd::prelude::*;
use vstd::string::StrSliceExecFns;

use crate::casefold::lower_of;
use crate::casefold::lowercase;

verus! {

/// The pattern with every `*` character removed.
pub open spec fn strip_stars(p: Seq<char>) -> Seq<char>
    decreases p.len(),
{
    if p.len() == 0 {
        Seq::empty()
    } else {
        let rest = strip_stars(p.drop_last());
        if p.last() == '*' {
            rest
        } else {
            rest.push(p.last())
        }
    }
}

/// `pre` is a prefix of `s`.
pub open spec fn seq_starts_with(s: Seq<char>, pre: Seq<char>) -> bool {
    pre.len() <= s.len() && s.subrange(0, pre.len() as int) == pre
}

/// `suf` is a suffix of `s`.
pub open spec fn seq_ends_with(s: Seq<char>, suf: Seq<char>) -> bool {
    suf.len() <= s.len() && s.subrange(s.len() - suf.len(), s.len() as int) == suf
}

/// `sub` occurs contiguously somewhere inside `s`.
pub open spec fn seq_contains_sub(s: Seq<char>, sub: Seq<char>) -> bool {
    exists|k: int|
        0 <= k && k + sub.len() <= s.len() && #[trigger] s.subrange(k, k + sub.len()) == sub
}

/// Whether `name` satisfies the wildcard pattern `p`. Both are taken as
/// given: callers that want case-insensitive matching lowercase both first.
pub open spec fn pattern_matches(name: Seq<char>, p: Seq<char>) -> bool {
    let stripped = strip_stars(p);
    if p.len() > 0 && p.first() == '*' {
        if p.last() == '*' {
            seq_contains_sub(name, stripped)
        } else {
            seq_ends_with(name, stripped)
        }
    } else if p.len() > 0 && p.last() == '*' {
        seq_starts_with(name, stripped)
    } else {
        name == stripped
    }
}

/// The characters of `s`, in order, as a vector.
fn to_chars(s: &str) -> (r: Vec<char>)
    ensures
        r@ == s@,
{
    let n = s.unicode_len();
    let mut r: Vec<char> = Vec::new();
    let mut i: usize = 0;
    while i < n
        invariant
            i <= n,
            n == s@.len(),
            r@ == s@.subrange(0, i as int),
        decreases n - i,
    {
        r.push(s.get_char(i));
        proof {
            assert(s@.subrange(0, i + 1 as int) =~= s@.subrange(0, i as int).push(s@[i as int]));
        }
        i = i + 1;
    }
    proof {
        assert(r@ =~= s@);
    }
    r
}

/// The characters of `p` with every `*` removed.
fn strip_chars(p: &Vec<char>) -> (r: Vec<char>)
    ensures
        r@ == strip_stars(p@),
{
    let mut r: Vec<char> = Vec::new();
    let mut i: usize = 0;
    while i < p.len()
        invariant
            i <= p@.len(),
            r@ == strip_stars(p@.subrange(0, i as int)),
        decreases p@.len() - i,
    {
        proof {
            assert(p@.subrange(0, i + 1 as int).drop_last() =~= p@.subrange(0, i as int));
            assert(p@.subrange(0, i + 1 as int).last() == p@[i as int]);
        }
        if p[i] != '*' {
            r.push(p[i]);
        }
        i = i + 1;
    }
    proof {
        assert(p@.subrange(0, p@.len() as int) =~= p@);
    }
    r
}

/// The two vectors hold the same characters.
fn chars_eq(a: &Vec<char>, b: &Vec<char>) -> (r: bool)
    ensures
        r == (a@ == b@),
{
    if a.len() != b.len() {
        return false;
    }
    let mut j: usize = 0;
    while j < a.len()
        invariant
            j <= a@.len(),
            a@.len() == b@.len(),
            forall|k: int| 0 <= k < j ==> a@[k] == b@[k],
        decreases a@.len() - j,
    {
        if a[j] != b[j] {
            return false;
        }
        j = j + 1;
    }
    proof {
        assert(a@ =~= b@);
    }
    true
}

/// `pre` is a prefix of `s`.
fn chars_start_with(s: &Vec<char>, pre: &Vec<char>) -> (r: bool)
    ensures
        r == seq_starts_with(s@, pre@),
{
    if pre.len() > s.len() {
        return false;
    }
    let mut j: usize = 0;
    while j < pre.len()
        invariant
            j <= pre@.len(),
            pre@.len() <= s@.len(),
            forall|k: int| 0 <= k < j ==> s@[k] == pre@[k],
        decreases pre@.len() - j,
    {
        if s[j] != pre[j] {
            proof {
                assert(s@.subrange(0, pre@.len() as int)[j as int] != pre@[j as int]);
            }
            return false;
        }
        j = j + 1;
    }
    proof {
        assert(s@.subrange(0, pre@.len() as int) =~= pre@);
    }
    true
}

/// `suf` is a suffix of `s`.
fn chars_end_with(s: &Vec<char>, suf: &Vec<char>) -> (r: bool)
    ensures
        r == seq_ends_with(s@, suf@),
{
    if suf.len() > s.len() {
        return false;
    }
    let off = s.len() - suf.len();
    let mut j: usize = 0;
    while j < suf.len()
        invariant
            j <= suf@.len(),
            suf@.len() <= s@.len(),
            s@.len() <= usize::MAX,
            off == s@.len() - suf@.len(),
            forall|k: int| 0 <= k < j ==> s@[off + k] == suf@[k],
        decreases suf@.len() - j,
    {
        if s[off + j] != suf[j] {
            proof {
                assert(s@.subrange(s@.len() - suf@.len(), s@.len() as int)[j as int]
                    != suf@[j as int]);
            }
            return false;
        }
        j = j + 1;
    }
    proof {
        assert(s@.subrange(s@.len() - suf@.len(), s@.len() as int) =~= suf@);
    }
    true
}

/// `sub` stands at position `k` of `s`.
fn chars_match_at(s: &Vec<char>, sub: &Vec<char>, k: usize) -> (r: bool)
    requires
        k + sub@.len() <= s@.len(),
        s@.len() <= usize::MAX,
    ensures
        r == (s@.subrange(k as int, k + sub@.len()) == sub@),
{
    let mut j: usize = 0;
    while j < sub.len()
        invariant
            j <= sub@.len(),
            k + sub@.len() <= s@.len(),
            s@.len() <= usize::MAX,
            forall|t: int| 0 <= t < j ==> s@[k + t] == sub@[t],
        decreases sub@.len() - j,
    {
        if s[k + j] != sub[j] {
            proof {
                assert(s@.subrange(k as int, k + sub@.len())[j as int] != sub@[j as int]);
            }
            return false;
        }
        j = j + 1;
    }
    proof {
        assert(s@.subrange(k as int, k + sub@.len()) =~= sub@);
    }
    true
}

/// `sub` occurs contiguously somewhere inside `s`.
fn chars_contain(s: &Vec<char>, sub: &Vec<char>) -> (r: bool)
    ensures
        r == seq_contains_sub(s@, sub@),
{
    if sub.len() > s.len() {
        return false;
    }
    if sub.len() == 0 {
        proof {
            assert(s@.subrange(0, 0 + sub@.len() as int) =~= sub@);
        }
        return true;
    }
    let last = s.len() - sub.len();
    let mut k: usize = 0;
    while k <= last
        invariant
            k <= last + 1,
            1 <= sub@.len(),
            last == s@.len() - sub@.len(),
            s@.len() <= usize::MAX,
            forall|k2: int| 0 <= k2 < k ==> #[trigger] s@.subrange(k2, k2 + sub@.len()) != sub@,
        decreases last + 1 - k,
    {
        if chars_match_at(s, sub, k) {
            return true;
        }
        k = k + 1;
    }
    false
}

/// Whether `name` satisfies the wildcard pattern `pattern`. The comparison
/// is case-sensitive: callers that want case-insensitive matching lowercase
/// both strings beforehand.
pub fn matches_pattern(name: &str, pattern: &str) -> (r: bool)
    ensures
        r == pattern_matches(name@, pattern@),
{
    let n = to_chars(name);
    let p = to_chars(pattern);
    let stripped = strip_chars(&p);
    if p.len() > 0 && p[0] == '*' {
        if p[p.len() - 1] == '*' {
            chars_contain(&n, &stripped)
        } else {
            chars_end_with(&n, &stripped)
        }
    } else if p.len() > 0 && p[p.len() - 1] == '*' {
        chars_start_with(&n, &stripped)
    } else {
        chars_eq(&n, &stripped)
    }
}

/// Whether the file called `name` satisfies the search term `search`, the
/// two compared case-insensitively: both are lowercased first.
pub fn name_matches(name: &str, search: &str) -> (r: bool)
    ensures
        r == pattern_matches(lower_of(name@), lower_of(search@)),
{
    let lower_name = lowercase(name);
    let lower_search = lowercase(search);
    matches_pattern(lower_name.as_str(), lower_search.as_str())
}

/// A sequence without asterisks is left as it stands when asterisks are
/// stripped.
pub proof fn lemma_strip_stars_no_star(x: Seq<char>)
    requires
        forall|i: int| 0 <= i < x.len() ==> x[i] != '*',
    ensures
        strip_stars(x) == x,
    decreases x.len(),
{
    if x.len() > 0 {
        lemma_strip_stars_no_star(x.drop_last());
        assert(x.drop_last().push(x.last()) =~= x);
    }
}

/// Stripping asterisks from a pattern strips them from its parts.
pub proof fn lemma_strip_stars_append(a: Seq<char>, b: Seq<char>)
    ensures
        strip_stars(a + b) == strip_stars(a) + strip_stars(b),
    decreases b.len(),
{
    if b.len() == 0 {
        assert(a + b =~= a);
        assert(strip_stars(a) + strip_stars(b) =~= strip_stars(a));
    } else {
        lemma_strip_stars_append(a, b.drop_last());
        assert((a + b).drop_last() =~= a + b.drop_last());
        assert((a + b).last() == b.last());
        if b.last() == '*' {
        } else {
            assert((strip_stars(a) + strip_stars(b.drop_last())).push(b.last()) =~= strip_stars(a)
                + strip_stars(b));
        }
    }
}

/// A single asterisk strips to the empty pattern.
proof fn lemma_strip_one_star()
    ensures
        strip_stars(seq!['*']) == Seq::<char>::empty(),
{
    assert(seq!['*'].drop_last() =~= Seq::<char>::empty());
    assert(seq!['*'].last() == '*');
    assert(strip_stars(Seq::<char>::empty()) =~= Seq::<char>::empty());
}

/// A pattern wrapped in asterisks asks for a substring: for every name and
/// every pattern body `x`, the name matches `*x*` exactly when `x`, with
/// its asterisks stripped, occurs inside the name.
pub proof fn lemma_matches_wrapped(name: Seq<char>, x: Seq<char>)
    ensures
        pattern_matches(name, seq!['*'] + x + seq!['*']) == seq_contains_sub(
            name,
            strip_stars(x),
        ),
{
    let p = seq!['*'] + x + seq!['*'];
    assert(p.first() == '*');
    assert(p.last() == '*');
    lemma_strip_stars_append(seq!['*'] + x, seq!['*']);
    lemma_strip_stars_append(seq!['*'], x);
    lemma_strip_one_star();
    assert(strip_stars(p) =~= strip_stars(x));
}

/// A pattern with a leading asterisk asks for a suffix: for every name and
/// every asterisk-free `x`, the name matches `*x` exactly when the name
/// ends with `x`.
pub proof fn lemma_matches_leading(name: Seq<char>, x: Seq<char>)
    requires
        forall|i: int| 0 <= i < x.len() ==> x[i] != '*',
    ensures
        pattern_matches(name, seq!['*'] + x) == seq_ends_with(name, x),
{
    let p = seq!['*'] + x;
    assert(p.first() == '*');
    lemma_strip_stars_append(seq!['*'], x);
    lemma_strip_stars_no_star(x);
    lemma_strip_one_star();
    assert(strip_stars(p) =~= x);
    if x.len() == 0 {
        assert(p.last() == '*');
        assert(name.subrange(0, 0 + x.len() as int) =~= x);
        assert(name.subrange(name.len() - x.len(), name.len() as int) =~= x);
    } else {
        assert(p.last() == x.last());
    }
}

/// A pattern with a trailing asterisk asks for a prefix: for every name
/// and every asterisk-free `x`, the name matches `x*` exactly when the
/// name starts with `x`.
pub proof fn lemma_matches_trailing(name: Seq<char>, x: Seq<char>)
    requires
        forall|i: int| 0 <= i < x.len() ==> x[i] != '*',
    ensures
        pattern_matches(name, x + seq!['*']) == seq_starts_with(name, x),
{
    let p = x + seq!['*'];
    assert(p.last() == '*');
    lemma_strip_stars_append(x, seq!['*']);
    lemma_strip_stars_no_star(x);
    lemma_strip_one_star();
    assert(strip_stars(p) =~= x);
    if x.len() == 0 {
        assert(p.first() == '*');
        assert(name.subrange(0, 0 + x.len() as int) =~= x);
        assert(name.subrange(0, x.len() as int) =~= x);
    } else {
        assert(p.first() == x.first());
    }
}

/// A pattern without any asterisk asks for equality: for every name and
/// every asterisk-free `x`, the name matches `x` exactly when the two are
/// equal.
pub proof fn lemma_matches_plain(name: Seq<char>, x: Seq<char>)
    requires
        forall|i: int| 0 <= i < x.len() ==> x[i] != '*',
    ensures
        pattern_matches(name, x) == (name == x),
{
    lemma_strip_stars_no_star(x);
    if x.len() > 0 {
        assert(x.first() != '*');
        assert(x.last() != '*');
    }
}

} // verus!
