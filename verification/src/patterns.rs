//! The fixed text patterns the classifier scans for: a number followed by a
//! marker token (`250 <:kakera`, `3 rolls left`, `10 min left`), a label
//! followed by a number (`Claims: #42`), and a reset hint (`reset in 2h`).
//! Each scanner returns the digit run of the leftmost occurrence.
use vstd::prelude::*;
use vstd::string::*;
use crate::text::{
    all_digits, digit_run_end, is_digit_c, lemma_digit_run_end, match_at, scan_digits,
    skip_spaces, sp_run_end, starts_with_at,
};

verus! {

/// A digit run starts at `i`: a digit not preceded by another digit.
pub open spec fn run_start(s: Seq<char>, i: int) -> bool {
    0 <= i < s.len() && is_digit_c(s[i]) && (i == 0 || !is_digit_c(s[i - 1]))
}

/// A number-then-marker occurrence at `i`: a digit run, optional whitespace,
/// the token `lit1`, an optional plural `s` when `opt_s` is set, then
/// optional whitespace and the token `lit2` (skipped when empty).
pub open spec fn num_pat_at(s: Seq<char>, i: int, lit1: Seq<char>, opt_s: bool, lit2: Seq<char>) -> bool {
    run_start(s, i) && {
        let e = digit_run_end(s, i);
        let j = sp_run_end(s, e);
        match_at(s, j, lit1) && {
            let k0 = j + lit1.len();
            let k1 = if opt_s && k0 < s.len() && s[k0] == 's' {
                k0 + 1
            } else {
                k0
            };
            let j2 = sp_run_end(s, k1);
            lit2.len() == 0 || match_at(s, j2, lit2)
        }
    }
}

/// Leftmost number-then-marker occurrence at or after `i`.
pub open spec fn first_num_pat_from(
    s: Seq<char>,
    lit1: Seq<char>,
    opt_s: bool,
    lit2: Seq<char>,
    i: int,
) -> Option<int>
    decreases s.len() + 1 - i,
{
    if i < 0 || i >= s.len() {
        None
    } else if num_pat_at(s, i, lit1, opt_s, lit2) {
        Some(i)
    } else {
        first_num_pat_from(s, lit1, opt_s, lit2, i + 1)
    }
}
/// Test a number-then-marker occurrence at position `i`.
fn check_num_pat_at(s: &str, i: usize, lit1: &str, opt_s: bool, lit2: &str) -> (r: bool)
    requires
        i < s@.len(),
    ensures
        r == num_pat_at(s@, i as int, lit1@, opt_s, lit2@),
{
    let n = s.unicode_len();
    let ci = s.get_char(i);
    let ui = ci as u32;
    if !(48 <= ui && ui <= 57) {
        return false;
    }
    if i > 0 {
        let cp = s.get_char(i - 1);
        let up = cp as u32;
        if 48 <= up && up <= 57 {
            return false;
        }
    }
    proof {
        lemma_digit_run_end(s@, i as int);
    }
    let e = scan_digits(s, i);
    let j = skip_spaces(s, e);
    if !starts_with_at(s, j, lit1) {
        return false;
    }
    let k0 = j + lit1.unicode_len();
    let k1 = if opt_s && k0 < n && s.get_char(k0) == 's' {
        k0 + 1
    } else {
        k0
    };
    let j2 = skip_spaces(s, k1);
    if lit2.unicode_len() == 0 {
        true
    } else {
        starts_with_at(s, j2, lit2)
    }
}

/// Find the leftmost number-then-marker occurrence; the result is the digit
/// run `[start, end)` of that occurrence.
pub fn find_num_pattern(s: &str, lit1: &str, opt_s: bool, lit2: &str) -> (r: Option<(usize, usize)>)
    ensures
        r matches Some((start, end)) ==> first_num_pat_from(s@, lit1@, opt_s, lit2@, 0)
            == Some(start as int) && end == digit_run_end(s@, start as int)
            && start < end <= s@.len()
            && all_digits(s@.subrange(start as int, end as int)),
        r is None ==> first_num_pat_from(s@, lit1@, opt_s, lit2@, 0) is None,
{
    let n = s.unicode_len();
    let mut i: usize = 0;
    while i < n
        invariant
            0 <= i <= n,
            n == s@.len(),
            first_num_pat_from(s@, lit1@, opt_s, lit2@, 0) == first_num_pat_from(
                s@, lit1@, opt_s, lit2@, i as int),
        decreases n - i,
    {
        if check_num_pat_at(s, i, lit1, opt_s, lit2) {
            proof {
                lemma_digit_run_end(s@, i as int);
            }
            let e = scan_digits(s, i);
            proof {
                let sub = s@.subrange(i as int, e as int);
                assert(forall|j: int| 0 <= j < sub.len() ==> is_digit_c(#[trigger] sub[j])) by {
                    assert(forall|j: int| i <= j < e ==> is_digit_c(#[trigger] s@[j]));
                    assert(forall|j: int| 0 <= j < sub.len() ==> sub[j] == s@[i + j]);
                }
            }
            return Some((i, e));
        }
        i += 1;
    }
    None
}

/// A label-then-number occurrence at `i`: the token `lit` immediately
/// followed by at least one digit.
pub open spec fn lit_num_at(s: Seq<char>, i: int, lit: Seq<char>) -> bool {
    match_at(s, i, lit) && i + lit.len() < s.len() && is_digit_c(s[i + lit.len()])
}

/// Leftmost label-then-number occurrence at or after `i`.
pub open spec fn first_lit_num_from(s: Seq<char>, lit: Seq<char>, i: int) -> Option<int>
    decreases s.len() + 1 - i,
{
    if i < 0 || i >= s.len() {
        None
    } else if lit_num_at(s, i, lit) {
        Some(i)
    } else {
        first_lit_num_from(s, lit, i + 1)
    }
}
/// Find the leftmost label-then-number occurrence; the result is the digit
/// run that follows the label.
pub fn find_lit_num(s: &str, lit: &str) -> (r: Option<(usize, usize)>)
    ensures
        r matches Some((start, end)) ==> {
            &&& first_lit_num_from(s@, lit@, 0) matches Some(k) && start == k + lit@.len()
            &&& end == digit_run_end(s@, start as int)
            &&& start < end <= s@.len()
            &&& all_digits(s@.subrange(start as int, end as int))
        },
        r is None ==> first_lit_num_from(s@, lit@, 0) is None,
{
    let n = s.unicode_len();
    let litlen = lit.unicode_len();
    let mut i: usize = 0;
    while i < n
        invariant
            0 <= i <= n,
            n == s@.len(),
            litlen == lit@.len(),
            first_lit_num_from(s@, lit@, 0) == first_lit_num_from(s@, lit@, i as int),
        decreases n - i,
    {
        let hit = if starts_with_at(s, i, lit) && i + litlen < n {
            let c = s.get_char(i + litlen);
            let u = c as u32;
            48 <= u && u <= 57
        } else {
            false
        };
        if hit {
            let start = i + litlen;
            proof {
                lemma_digit_run_end(s@, start as int);
            }
            let e = scan_digits(s, start);
            proof {
                let sub = s@.subrange(start as int, e as int);
                assert(forall|j: int| 0 <= j < sub.len() ==> is_digit_c(#[trigger] sub[j])) by {
                    assert(forall|j: int| start <= j < e ==> is_digit_c(#[trigger] s@[j]));
                    assert(forall|j: int| 0 <= j < sub.len() ==> sub[j] == s@[start + j]);
                }
            }
            return Some((start, e));
        }
        i += 1;
    }
    None
}

/// A reset-hint occurrence at `i`: the word `reset`, whitespace, an optional
/// `in` with whitespace, a digit run, optional whitespace, then the unit
/// character.
pub open spec fn reset_pat_at(s: Seq<char>, i: int, unit: char) -> bool {
    match_at(s, i, seq!['r', 'e', 's', 'e', 't']) && {
        let j = sp_run_end(s, i + 5);
        j > i + 5 && {
            let k = if match_at(s, j, seq!['i', 'n']) && sp_run_end(s, j + 2) > j + 2 {
                sp_run_end(s, j + 2)
            } else {
                j
            };
            k < s.len() && is_digit_c(s[k]) && {
                let e = digit_run_end(s, k);
                let j2 = sp_run_end(s, e);
                j2 < s.len() && s[j2] == unit
            }
        }
    }
}

/// The digit run of a reset-hint occurrence at `i`.
pub open spec fn reset_pat_num(s: Seq<char>, i: int) -> int {
    let j = sp_run_end(s, i + 5);
    if match_at(s, j, seq!['i', 'n']) && sp_run_end(s, j + 2) > j + 2 {
        sp_run_end(s, j + 2)
    } else {
        j
    }
}

/// Leftmost reset-hint occurrence at or after `i`.
pub open spec fn first_reset_pat_from(s: Seq<char>, unit: char, i: int) -> Option<int>
    decreases s.len() + 1 - i,
{
    if i < 0 || i >= s.len() {
        None
    } else if reset_pat_at(s, i, unit) {
        Some(i)
    } else {
        first_reset_pat_from(s, unit, i + 1)
    }
}
/// Test a reset-hint occurrence at position `i`.
fn check_reset_pat_at(s: &str, i: usize, unit: char) -> (r: bool)
    requires
        i < s@.len(),
    ensures
        r == reset_pat_at(s@, i as int, unit),
{
    proof {
        reveal_strlit("reset");
        reveal_strlit("in");
        assert("reset"@ =~= seq!['r', 'e', 's', 'e', 't']);
        assert("in"@ =~= seq!['i', 'n']);
    }
    let n = s.unicode_len();
    if !starts_with_at(s, i, "reset") {
        return false;
    }
    let j = skip_spaces(s, i + 5);
    if j == i + 5 {
        return false;
    }
    let k = if starts_with_at(s, j, "in") && j + 2 <= n {
        let j3 = skip_spaces(s, j + 2);
        if j3 > j + 2 {
            j3
        } else {
            j
        }
    } else {
        j
    };
    assert(k == reset_pat_num(s@, i as int));
    if k >= n {
        return false;
    }
    let c = s.get_char(k);
    let u = c as u32;
    if !(48 <= u && u <= 57) {
        return false;
    }
    proof {
        lemma_digit_run_end(s@, k as int);
    }
    let e = scan_digits(s, k);
    let j2 = skip_spaces(s, e);
    if j2 >= n {
        return false;
    }
    s.get_char(j2) == unit
}

/// Find the leftmost reset-hint occurrence; the result is the digit run of
/// its number.
pub fn find_reset_pattern(s: &str, unit: char) -> (r: Option<(usize, usize)>)
    ensures
        r matches Some((start, end)) ==> {
            &&& first_reset_pat_from(s@, unit, 0) matches Some(k) && start == reset_pat_num(s@, k)
            &&& end == digit_run_end(s@, start as int)
            &&& start < end <= s@.len()
            &&& all_digits(s@.subrange(start as int, end as int))
        },
        r is None ==> first_reset_pat_from(s@, unit, 0) is None,
{
    let n = s.unicode_len();
    let mut i: usize = 0;
    while i < n
        invariant
            0 <= i <= n,
            n == s@.len(),
            first_reset_pat_from(s@, unit, 0) == first_reset_pat_from(s@, unit, i as int),
        decreases n - i,
    {
        if check_reset_pat_at(s, i, unit) {
            proof {
                reveal_strlit("reset");
                reveal_strlit("in");
                assert("reset"@ =~= seq!['r', 'e', 's', 'e', 't']);
                assert("in"@ =~= seq!['i', 'n']);
            }
            let j = skip_spaces(s, i + 5);
            let k = if starts_with_at(s, j, "in") && j + 2 <= n {
                let j3 = skip_spaces(s, j + 2);
                if j3 > j + 2 {
                    j3
                } else {
                    j
                }
            } else {
                j
            };
            assert(k == reset_pat_num(s@, i as int));
            proof {
                lemma_digit_run_end(s@, k as int);
            }
            let e = scan_digits(s, k);
            proof {
                let sub = s@.subrange(k as int, e as int);
                assert(forall|j2: int| 0 <= j2 < sub.len() ==> is_digit_c(#[trigger] sub[j2])) by {
                    assert(forall|j2: int| k <= j2 < e ==> is_digit_c(#[trigger] s@[j2]));
                    assert(forall|j2: int| 0 <= j2 < sub.len() ==> sub[j2] == s@[k + j2]);
                }
            }
            return Some((k, e));
        }
        i += 1;
    }
    None
}

} // verus!
