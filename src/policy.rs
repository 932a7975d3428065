//! The registry's naming rules for package names, keywords and feature names.

use vstd::prelude::*;

verus! {

pub open spec fn is_ascii_letter(c: char) -> bool {
    ('a' <= c && c <= 'z') || ('A' <= c && c <= 'Z')
}

pub open spec fn is_ascii_digit(c: char) -> bool {
    '0' <= c && c <= '9'
}

/// Characters allowed anywhere in a name: ASCII letters, digits, `_` and `-`.
pub open spec fn is_name_char(c: char) -> bool {
    is_ascii_letter(c) || is_ascii_digit(c) || c == '_' || c == '-'
}

/// A package name: non-empty, starts with a letter, only name characters.
pub open spec fn valid_crate_name(s: Seq<char>) -> bool {
    &&& s.len() > 0
    &&& is_ascii_letter(s[0])
    &&& forall|i: int| 0 <= i < s.len() ==> is_name_char(#[trigger] s[i])
}

/// A keyword: non-empty, starts with a letter or digit, only name characters.
pub open spec fn valid_keyword(s: Seq<char>) -> bool {
    &&& s.len() > 0
    &&& (is_ascii_letter(s[0]) || is_ascii_digit(s[0]))
    &&& forall|i: int| 0 <= i < s.len() ==> is_name_char(#[trigger] s[i])
}

/// A feature name: a package name, or two package names joined by one `/`.
pub open spec fn valid_feature_name(s: Seq<char>) -> bool {
    ||| valid_crate_name(s)
    ||| exists|k: int|
        0 <= k < s.len() && #[trigger] s[k] == '/' && valid_crate_name(s.subrange(0, k))
            && valid_crate_name(s.subrange(k + 1, s.len() as int))
}

fn char_is_letter(c: char) -> (r: bool)
    ensures
        r == is_ascii_letter(c),
{
    ('a' <= c && c <= 'z') || ('A' <= c && c <= 'Z')
}

fn char_is_digit(c: char) -> (r: bool)
    ensures
        r == is_ascii_digit(c),
{
    '0' <= c && c <= '9'
}

fn char_is_name_char(c: char) -> (r: bool)
    ensures
        r == is_name_char(c),
{
    char_is_letter(c) || char_is_digit(c) || c == '_' || c == '-'
}

/// Whether the characters of `s` in `[lo, hi)` are all name characters.
fn name_chars_in(s: &str, lo: usize, hi: usize) -> (r: bool)
    requires
        lo <= hi <= s@.len(),
    ensures
        r == (forall|i: int| lo <= i < hi ==> is_name_char(#[trigger] s@[i])),
{
    let mut i = lo;
    while i < hi
        invariant
            lo <= i <= hi <= s@.len(),
            forall|j: int| lo <= j < i ==> is_name_char(#[trigger] s@[j]),
        decreases hi - i,
    {
        if !char_is_name_char(s.get_char(i)) {
            return false;
        }
        i = i + 1;
    }
    true
}

/// Whether the characters of `s` in `[lo, hi)` form a valid package name.
fn crate_name_in(s: &str, lo: usize, hi: usize) -> (r: bool)
    requires
        lo <= hi <= s@.len(),
    ensures
        r == valid_crate_name(s@.subrange(lo as int, hi as int)),
{
    let ghost sub = s@.subrange(lo as int, hi as int);
    if lo == hi {
        return false;
    }
    if !char_is_letter(s.get_char(lo)) {
        return false;
    }
    let r = name_chars_in(s, lo, hi);
    assert(r == (forall|i: int| 0 <= i < sub.len() ==> is_name_char(#[trigger] sub[i]))) by {
        if r {
            assert forall|i: int| 0 <= i < sub.len() implies is_name_char(#[trigger] sub[i]) by {
                assert(sub[i] == s@[lo + i]);
            }
        } else {
            let k = choose|k: int| lo <= k < hi && !is_name_char(#[trigger] s@[k]);
            assert(sub[k - lo] == s@[k]);
        }
    }
    r
}

/// Whether `s` is a valid package name.
pub fn valid_name(s: &str) -> (r: bool)
    ensures
        r == valid_crate_name(s@),
{
    let n = s.unicode_len();
    let r = crate_name_in(s, 0, n);
    assert(s@.subrange(0, n as int) =~= s@);
    r
}

/// Whether `s` is a valid keyword.
pub fn valid_keyword_name(s: &str) -> (r: bool)
    ensures
        r == valid_keyword(s@),
{
    let n = s.unicode_len();
    if n == 0 {
        return false;
    }
    let c = s.get_char(0);
    if !(char_is_letter(c) || char_is_digit(c)) {
        return false;
    }
    name_chars_in(s, 0, n)
}

/// Whether `s` is a valid feature name.
pub fn valid_feature(s: &str) -> (r: bool)
    ensures
        r == valid_feature_name(s@),
{
    let n = s.unicode_len();
    let mut k: usize = 0;
    while k < n
        invariant
            k <= n == s@.len(),
            forall|j: int| 0 <= j < k ==> #[trigger] s@[j] != '/',
        ensures
            k <= n == s@.len(),
            forall|j: int| 0 <= j < k ==> #[trigger] s@[j] != '/',
            k < n ==> s@[k as int] == '/',
        decreases n - k,
    {
        if s.get_char(k) == '/' {
            break;
        }
        k = k + 1;
    }
    if k == n {
        let r = crate_name_in(s, 0, n);
        assert(s@.subrange(0, n as int) =~= s@);
        if !r {
            assert forall|m: int|
                0 <= m < s@.len() && #[trigger] s@[m] == '/' implies !valid_crate_name(
                s@.subrange(0, m),
            ) by {}
        }
        r
    } else {
        let head = crate_name_in(s, 0, k);
        let tail = crate_name_in(s, k + 1, n);
        let r = head && tail;
        proof {
            if valid_crate_name(s@) {
                assert(!is_name_char(s@[k as int]));
            }
            if !r {
                assert forall|m: int|
                    0 <= m < s@.len() && #[trigger] s@[m] == '/' implies !(valid_crate_name(
                    s@.subrange(0, m),
                ) && valid_crate_name(s@.subrange(m + 1, s@.len() as int))) by {
                    if m != k {
                        assert(m > k);
                        let pre = s@.subrange(0, m);
                        assert(pre[k as int] == '/');
                        assert(!is_name_char(pre[k as int]));
                    }
                }
            }
        }
        r
    }
}

/// Whether two strings hold the same characters.
pub fn same_text(a: &str, b: &str) -> (r: bool)
    ensures
        r == (a@ == b@),
{
    let n = a.unicode_len();
    if n != b.unicode_len() {
        return false;
    }
    let mut i: usize = 0;
    while i < n
        invariant
            i <= n == a@.len() == b@.len(),
            forall|j: int| 0 <= j < i ==> a@[j] == b@[j],
        decreases n - i,
    {
        if a.get_char(i) != b.get_char(i) {
            return false;
        }
        i = i + 1;
    }
    assert(a@ =~= b@);
    true
}

} // verus!
