//! Normalized string similarity for fuzzy name matching: Levenshtein edit
//! distance, compared against a threshold in hundredths so that
//! `1 - distance / max_len >= threshold` is decided exactly in integers.
use vstd::prelude::*;
use vstd::string::*;

verus! {

pub open spec fn min3(a: nat, b: nat, c: nat) -> nat {
    if a <= b && a <= c {
        a
    } else if b <= c {
        b
    } else {
        c
    }
}

/// Levenshtein edit distance: insertions, deletions and substitutions each
/// cost one.
pub open spec fn lev(a: Seq<char>, b: Seq<char>) -> nat
    decreases a.len() + b.len(),
{
    if a.len() == 0 {
        b.len()
    } else if b.len() == 0 {
        a.len()
    } else if a.last() == b.last() {
        lev(a.drop_last(), b.drop_last())
    } else {
        1 + min3(lev(a.drop_last(), b), lev(a, b.drop_last()), lev(a.drop_last(), b.drop_last()))
    }
}

/// The distance never exceeds the longer length.
pub proof fn lemma_lev_le_max(a: Seq<char>, b: Seq<char>)
    ensures
        lev(a, b) <= a.len() || lev(a, b) <= b.len(),
        lev(a, b) <= a.len() + b.len(),
        a.len() <= b.len() ==> lev(a, b) <= b.len(),
        b.len() <= a.len() ==> lev(a, b) <= a.len(),
    decreases a.len() + b.len(),
{
    if a.len() == 0 {
    } else if b.len() == 0 {
    } else if a.last() == b.last() {
        lemma_lev_le_max(a.drop_last(), b.drop_last());
    } else {
        lemma_lev_le_max(a.drop_last(), b);
        lemma_lev_le_max(a, b.drop_last());
        lemma_lev_le_max(a.drop_last(), b.drop_last());
    }
}

fn min3_exec(a: usize, b: usize, c: usize) -> (r: usize)
    ensures
        r as nat == min3(a as nat, b as nat, c as nat),
{
    if a <= b && a <= c {
        a
    } else if b <= c {
        b
    } else {
        c
    }
}

/// Edit distance by the usual dynamic programme over prefixes.
pub fn levenshtein(a: &str, b: &str) -> (r: usize)
    ensures
        r as nat == lev(a@, b@),
{
    let n = a.unicode_len();
    let m = b.unicode_len();
    let mut prev: Vec<usize> = Vec::new();
    prev.push(0);
    proof {
        assert(b@.take(0).len() == 0);
    }
    let mut j: usize = 0;
    while j < m
        invariant
            0 <= j <= m,
            m == b@.len(),
            prev@.len() == j + 1,
            forall|k: int| 0 <= k <= j ==> prev@[k] as nat == lev(Seq::empty(), b@.take(k)),
        decreases m - j,
    {
        proof {
            assert(b@.take(j + 1).len() == j + 1);
        }
        prev.push(j + 1);
        j += 1;
    }
    proof {
        assert(a@.take(0) =~= Seq::<char>::empty());
    }
    let mut i0: usize = 0;
    while i0 < n
        invariant
            0 <= i0 <= n,
            n == a@.len(),
            m == b@.len(),
            prev@.len() == m + 1,
            forall|k: int| 0 <= k <= m ==> prev@[k] as nat == lev(
                a@.take(i0 as int), b@.take(k)),
        decreases n - i0,
    {
        let i = i0 + 1;
        let mut cur: Vec<usize> = Vec::new();
        proof {
            assert(b@.take(0) =~= Seq::<char>::empty());
        }
        cur.push(i);
        let ca = a.get_char(i - 1);
        let ghost ai = a@.take(i as int);
        proof {
            assert(ai.last() == a@[i - 1]);
            assert(ai.drop_last() =~= a@.take(i - 1));
            assert(lev(ai, b@.take(0)) == ai.len());
        }
        let mut jj0: usize = 0;
        while jj0 < m
            invariant
                0 <= jj0 <= m,
                1 <= i <= n,
                n == a@.len(),
                m == b@.len(),
                ca == a@[i - 1],
                ai == a@.take(i as int),
                prev@.len() == m + 1,
                cur@.len() == jj0 + 1,
                forall|k: int| 0 <= k <= m ==> prev@[k] as nat == lev(
                    a@.take(i - 1), b@.take(k)),
                forall|k: int| 0 <= k <= jj0 ==> cur@[k] as nat == lev(ai, b@.take(k)),
            decreases m - jj0,
        {
            let jj = jj0 + 1;
            let cb = b.get_char(jj - 1);
            let ghost bj = b@.take(jj as int);
            proof {
                assert(bj.last() == b@[jj - 1]);
                assert(bj.drop_last() =~= b@.take(jj - 1));
                assert(ai.len() > 0 && bj.len() > 0);
                assert(ai.last() == a@[i - 1]);
                assert(ai.drop_last() =~= a@.take(i - 1));
            }
            let cell: usize;
            if ca == cb {
                cell = prev[jj - 1];
                assert(lev(ai, bj) == lev(ai.drop_last(), bj.drop_last()));
            } else {
                let d_del = prev[jj];
                let d_ins = cur[jj - 1];
                let d_sub = prev[jj - 1];
                proof {
                    lemma_lev_le_max(ai.drop_last(), bj.drop_last());
                    assert(lev(ai.drop_last(), bj.drop_last()) <= ai.drop_last().len()
                        + bj.drop_last().len());
                }
                let mn = min3_exec(d_del, d_ins, d_sub);
                assert(mn <= d_sub);
                cell = 1 + mn;
                assert(cell as nat == lev(ai, bj));
            }
            cur.push(cell);
            jj0 += 1;
        }
        prev = cur;
        i0 += 1;
    }
    proof {
        assert(b@.take(m as int) =~= b@);
        if n == 0 {
            assert(a@.take(0) =~= a@);
        } else {
            assert(a@.take(n as int) =~= a@);
        }
    }
    prev[m]
}

/// The normalized similarity `1 - lev/max_len` reaches `t` hundredths; equal
/// strings always qualify, and two empty strings count as identical.
pub open spec fn similar_at_least(a: Seq<char>, b: Seq<char>, t: u32) -> bool {
    let mx = if a.len() >= b.len() {
        a.len()
    } else {
        b.len()
    };
    mx == 0 || 100 * (mx - lev(a, b)) >= (t as int) * mx
}

/// Decide `1 - lev(a,b)/max(|a|,|b|) >= t/100` exactly, in integers.
pub fn similarity_at_least(a: &str, b: &str, threshold_hundredths: u32) -> (r: bool)
    ensures
        r == similar_at_least(a@, b@, threshold_hundredths),
{
    let n = a.unicode_len();
    let m = b.unicode_len();
    let mx = if n >= m {
        n
    } else {
        m
    };
    if mx == 0 {
        return true;
    }
    let d = levenshtein(a, b);
    proof {
        lemma_lev_le_max(a@, b@);
    }
    let rest: u128 = (mx - d) as u128;
    proof {
        assert(100 * (rest as int) <= 100 * 0xFFFF_FFFF_FFFF_FFFFint) by (nonlinear_arith)
            requires
                rest as int <= 0xFFFF_FFFF_FFFF_FFFFint,
        ;
        assert((threshold_hundredths as int) * (mx as int) <= 0xFFFF_FFFFint
            * 0xFFFF_FFFF_FFFF_FFFFint) by (nonlinear_arith)
            requires
                threshold_hundredths as int <= 0xFFFF_FFFFint,
                0 <= mx as int <= 0xFFFF_FFFF_FFFF_FFFFint,
        ;
    }
    100u128 * rest >= (threshold_hundredths as u128) * (mx as u128)
}

} // verus!
