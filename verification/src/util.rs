//! Canonicalization of issue keys, and small string helpers.

use vstd::prelude::*;

use crate::ApiConfig;

verus! {

/// Whether two string slices hold the same characters.
pub fn str_eq(a: &str, b: &str) -> (r: bool)
    ensures
        r == (a@ == b@),
{
    let oa = a.to_owned();
    let ob = b.to_owned();
    oa == ob
}

/// An ASCII uppercase letter.
pub open spec fn is_upper(c: char) -> bool {
    'A' as u32 <= c as u32 && c as u32 <= 'Z' as u32
}

/// An ASCII decimal digit.
pub open spec fn is_digit(c: char) -> bool {
    '0' as u32 <= c as u32 && c as u32 <= '9' as u32
}

/// A canonical issue key: one or more uppercase letters, a dash, one or
/// more digits, and nothing else.
pub open spec fn is_issue_key(s: Seq<char>) -> bool {
    exists|k: int|
        1 <= k < s.len() && s[k] == '-' && (forall|i: int| 0 <= i < k ==> is_upper(#[trigger] s[i]))
            && k + 1 < s.len() && (forall|j: int| k < j < s.len() ==> is_digit(#[trigger] s[j]))
}

/// One or more digits and nothing else.
pub open spec fn is_all_digits(s: Seq<char>) -> bool {
    s.len() > 0 && forall|i: int| 0 <= i < s.len() ==> is_digit(#[trigger] s[i])
}


pub(crate) fn upper_at(s: &str, i: usize) -> (r: bool)
    requires
        i < s@.len(),
    ensures
        r == is_upper(s@[i as int]),
{
    let c = s.get_char(i);
    (c as u32) >= ('A' as u32) && (c as u32) <= ('Z' as u32)
}

pub(crate) fn digit_at(s: &str, i: usize) -> (r: bool)
    requires
        i < s@.len(),
    ensures
        r == is_digit(s@[i as int]),
{
    let c = s.get_char(i);
    (c as u32) >= ('0' as u32) && (c as u32) <= ('9' as u32)
}

/// Whether the string is a canonical issue key.
fn check_issue_key(s: &str) -> (r: bool)
    ensures
        r == is_issue_key(s@),
{
    let n = s.unicode_len();
    let mut a: usize = 0;
    while a < n && upper_at(s, a)
        invariant
            n == s@.len(),
            a <= n,
            forall|i: int| 0 <= i < a ==> is_upper(#[trigger] s@[i]),
        decreases n - a,
    {
        a += 1;
    }
    if a == 0 || a >= n {
        proof {
            if is_issue_key(s@) {
                let k = choose|k: int|
                    1 <= k < s@.len() && s@[k] == '-' && (forall|i: int|
                        0 <= i < k ==> is_upper(#[trigger] s@[i])) && k + 1 < s@.len() && (
                    forall|j: int| k < j < s@.len() ==> is_digit(#[trigger] s@[j]));
                if a < n {
                    assert(!is_upper(s@[a as int]));
                    assert(a < k ==> is_upper(s@[a as int]));
                    assert(k < a ==> s@[k] == '-' && is_upper(s@[k]));
                }
            }
        }
        return false;
    }
    if !(s.get_char(a) == '-') {
        proof {
            if is_issue_key(s@) {
                let k = choose|k: int|
                    1 <= k < s@.len() && s@[k] == '-' && (forall|i: int|
                        0 <= i < k ==> is_upper(#[trigger] s@[i])) && k + 1 < s@.len() && (
                    forall|j: int| k < j < s@.len() ==> is_digit(#[trigger] s@[j]));
                assert(!is_upper(s@[a as int]));
                assert(a < k ==> is_upper(s@[a as int]));
                assert(k < a ==> is_upper(s@[k]));
            }
        }
        return false;
    }
    if a + 1 >= n {
        proof {
            if is_issue_key(s@) {
                let k = choose|k: int|
                    1 <= k < s@.len() && s@[k] == '-' && (forall|i: int|
                        0 <= i < k ==> is_upper(#[trigger] s@[i])) && k + 1 < s@.len() && (
                    forall|j: int| k < j < s@.len() ==> is_digit(#[trigger] s@[j]));
                assert(a < k ==> is_upper(s@[a as int]));
                assert(k < a ==> is_upper(s@[k]));
                assert(k == a);
            }
        }
        return false;
    }
    let mut j: usize = a + 1;
    while j < n && digit_at(s, j)
        invariant
            n == s@.len(),
            a + 1 <= j <= n,
            a < n,
            forall|i: int| 0 <= i < a ==> is_upper(#[trigger] s@[i]),
            forall|i: int| a < i < j ==> is_digit(#[trigger] s@[i]),
            s@[a as int] == '-',
            a >= 1,
            a + 1 < n,
        decreases n - j,
    {
        j += 1;
    }
    if j == n {
        proof {
            assert(is_issue_key(s@)) by {
                let k = a as int;
                assert(1 <= k < s@.len() && s@[k] == '-' && (forall|i: int|
                    0 <= i < k ==> is_upper(#[trigger] s@[i])) && k + 1 < s@.len() && (forall|
                    jj: int,
                |
                    k < jj < s@.len() ==> is_digit(#[trigger] s@[jj])));
            }
        }
        true
    } else {
        proof {
            if is_issue_key(s@) {
                let k = choose|k: int|
                    1 <= k < s@.len() && s@[k] == '-' && (forall|i: int|
                        0 <= i < k ==> is_upper(#[trigger] s@[i])) && k + 1 < s@.len() && (
                    forall|jj: int| k < jj < s@.len() ==> is_digit(#[trigger] s@[jj]));
                assert(a < k ==> is_upper(s@[a as int]));
                assert(k < a ==> is_upper(s@[k]));
                assert(k == a);
                assert(is_digit(s@[j as int]));
            }
        }
        false
    }
}

/// Whether the string is one or more digits.
fn check_all_digits(s: &str) -> (r: bool)
    ensures
        r == is_all_digits(s@),
{
    let n = s.unicode_len();
    let mut i: usize = 0;
    while i < n && digit_at(s, i)
        invariant
            n == s@.len(),
            i <= n,
            forall|k: int| 0 <= k < i ==> is_digit(#[trigger] s@[k]),
        decreases n - i,
    {
        i += 1;
    }
    if i == n {
        n > 0
    } else {
        proof {
            assert(!is_digit(s@[i as int]));
        }
        false
    }
}

/// Converts an issue key to its canonical form: a canonical key is kept
/// as it is, a bare issue number is prefixed with the configured
/// project's key, and anything else is rejected.
pub fn issue_lossy_to_issue_key(issue_lossy: &str, config: &ApiConfig) -> (r: Option<String>)
    ensures
        is_issue_key(issue_lossy@) ==> (r matches Some(k) && k@ == issue_lossy@),
        !is_issue_key(issue_lossy@) && is_all_digits(issue_lossy@) ==> (r matches Some(k) && k@
            == config.project@ + "-"@ + issue_lossy@),
        !is_issue_key(issue_lossy@) && !is_all_digits(issue_lossy@) ==> r is None,
{
    if check_issue_key(issue_lossy) {
        Some(issue_lossy.to_owned())
    } else if check_all_digits(issue_lossy) {
        let mut key = config.project.clone();
        key.append("-");
        key.append(issue_lossy);
        Some(key)
    } else {
        None
    }
}

} // verus!
