//! Character-sequence utilities shared by the classifier, the preference
//! store and the formatting helpers: equality, substring search, digit
//! parsing and decimal formatting, whitespace trimming and squeezing.
use vstd::prelude::*;
use vstd::string::*;

verus! {

/// The whitespace set used by the heuristics: space, tab, carriage return,
/// line feed.
pub open spec fn is_sp(c: char) -> bool {
    c == ' ' || c == '\t' || c == '\r' || c == '\n'
}

/// Decimal digit.
pub open spec fn is_digit_c(c: char) -> bool {
    48 <= (c as u32) && (c as u32) <= 57
}

pub open spec fn digit_val(c: char) -> nat {
    ((c as u32) - 48) as nat
}

/// Numeric value of a digit string, most significant digit first.
pub open spec fn digits_val(s: Seq<char>) -> nat
    decreases s.len(),
{
    if s.len() == 0 {
        0
    } else {
        digits_val(s.drop_last()) * 10 + digit_val(s.last())
    }
}

pub open spec fn all_digits(s: Seq<char>) -> bool {
    forall|i: int| 0 <= i < s.len() ==> is_digit_c(#[trigger] s[i])
}

/// `pat` occurs in `s` starting at position `i`.
pub open spec fn match_at(s: Seq<char>, i: int, pat: Seq<char>) -> bool {
    0 <= i && i + pat.len() <= s.len() && s.subrange(i, i + pat.len()) == pat
}

pub open spec fn contains_seq(s: Seq<char>, pat: Seq<char>) -> bool {
    exists|i: int| match_at(s, i, pat)
}

/// First position at or after `i` where `pat` occurs in `s`.
pub open spec fn first_match_from(s: Seq<char>, pat: Seq<char>, i: int) -> Option<int>
    decreases s.len() + 1 - i,
{
    if i < 0 || i + pat.len() > s.len() {
        None
    } else if match_at(s, i, pat) {
        Some(i)
    } else {
        first_match_from(s, pat, i + 1)
    }
}

/// Index of the first occurrence of `pat` in `s`, as an option.
pub open spec fn first_match(s: Seq<char>, pat: Seq<char>) -> Option<int> {
    first_match_from(s, pat, 0)
}

/// What `first_match_from` returns: the earliest match position, if any.
pub proof fn lemma_first_match_from(s: Seq<char>, pat: Seq<char>, i: int)
    requires
        0 <= i,
    ensures
        first_match_from(s, pat, i) matches Some(k) ==> i <= k && match_at(s, k, pat)
            && forall|j: int| i <= j < k ==> !match_at(s, j, pat),
        first_match_from(s, pat, i) is None ==> forall|j: int| j >= i ==> !match_at(s, j, pat),
    decreases s.len() + 1 - i,
{
    if i < 0 || i + pat.len() > s.len() {
        assert(forall|j: int| j >= i ==> !match_at(s, j, pat)) by {
            assert(forall|j: int| match_at(s, j, pat) ==> 0 <= j && j + pat.len() <= s.len());
        }
    } else if match_at(s, i, pat) {
    } else {
        lemma_first_match_from(s, pat, i + 1);
    }
}
/// Character-by-character string equality.
pub fn str_eq(a: &str, b: &str) -> (r: bool)
    ensures
        r == (a@ == b@),
{
    let alen = a.unicode_len();
    let blen = b.unicode_len();
    if alen != blen {
        assert(a@ != b@) by {
            assert(a@.len() != b@.len());
        }
        return false;
    }
    let mut i: usize = 0;
    while i < alen
        invariant
            alen == a@.len(),
            alen == b@.len(),
            0 <= i <= alen,
            forall|j: int| 0 <= j < i ==> a@[j] == b@[j],
        decreases alen - i,
    {
        if a.get_char(i) != b.get_char(i) {
            return false;
        }
        i += 1;
    }
    proof {
        assert(a@ =~= b@);
    }
    true
}

/// Does `pat` occur in `s` at position `i`?
pub fn starts_with_at(s: &str, i: usize, pat: &str) -> (r: bool)
    requires
        i <= s@.len(),
    ensures
        r == match_at(s@, i as int, pat@),
{
    let n = s.unicode_len();
    let m = pat.unicode_len();
    if m > n - i {
        return false;
    }
    let mut k: usize = 0;
    while k < m
        invariant
            i + m <= n,
            n == s@.len(),
            m == pat@.len(),
            0 <= k <= m,
            forall|j: int| 0 <= j < k ==> s@[i + j] == pat@[j],
        decreases m - k,
    {
        if s.get_char(i + k) != pat.get_char(k) {
            assert(s@.subrange(i as int, i + m) != pat@) by {
                assert(s@.subrange(i as int, i + m)[k as int] == s@[i + k]);
            }
            return false;
        }
        k += 1;
    }
    proof {
        assert(s@.subrange(i as int, i + m) =~= pat@);
    }
    true
}

/// Position of the first occurrence of `pat` in `s`.
pub fn find_str(s: &str, pat: &str) -> (r: Option<usize>)
    ensures
        r matches Some(i) ==> first_match(s@, pat@) == Some(i as int),
        r is None ==> first_match(s@, pat@) is None,
        r matches Some(i) ==> match_at(s@, i as int, pat@) && forall|j: int|
            0 <= j < i ==> !match_at(s@, j, pat@),
        r is None ==> !contains_seq(s@, pat@),
{
    proof {
        lemma_first_match_from(s@, pat@, 0);
    }
    let n = s.unicode_len();
    let m = pat.unicode_len();
    if m > n {
        assert(first_match(s@, pat@) is None);
        assert(!contains_seq(s@, pat@)) by {
            assert(forall|j: int| match_at(s@, j, pat@) ==> j + pat@.len() <= s@.len());
        }
        return None;
    }
    if m == 0 {
        assert(match_at(s@, 0, pat@)) by {
            assert(s@.subrange(0, 0) =~= pat@);
        }
        return Some(0);
    }
    let mut i: usize = 0;
    while i <= n - m
        invariant
            0 < m <= n,
            n == s@.len(),
            m == pat@.len(),
            0 <= i <= n - m + 1,
            first_match(s@, pat@) == first_match_from(s@, pat@, i as int),
        decreases n - i,
    {
        if starts_with_at(s, i, pat) {
            assert(first_match_from(s@, pat@, i as int) == Some(i as int));
            proof {
                lemma_first_match_from(s@, pat@, 0);
                assert(contains_seq(s@, pat@));
            }
            return Some(i);
        }
        assert(first_match_from(s@, pat@, i as int) == first_match_from(s@, pat@, i + 1));
        i += 1;
    }
    assert(first_match_from(s@, pat@, i as int) is None);
    proof {
        lemma_first_match_from(s@, pat@, 0);
        assert(!contains_seq(s@, pat@)) by {
            assert(forall|j: int| match_at(s@, j, pat@) ==> 0 <= j);
        }
    }
    None
}

/// Does `pat` occur anywhere in `s`?
pub fn contains_str(s: &str, pat: &str) -> (r: bool)
    ensures
        r == contains_seq(s@, pat@),
{
    match find_str(s, pat) {
        Some(_) => true,
        None => false,
    }
}

/// End of the run of decimal digits that starts at `i`.
pub open spec fn digit_run_end(s: Seq<char>, i: int) -> int
    decreases s.len() - i,
{
    if i < 0 || i >= s.len() || !is_digit_c(s[i]) {
        i
    } else {
        digit_run_end(s, i + 1)
    }
}

pub proof fn lemma_digit_run_end(s: Seq<char>, i: int)
    requires
        0 <= i <= s.len(),
    ensures
        i <= digit_run_end(s, i) <= s.len(),
        forall|j: int| i <= j < digit_run_end(s, i) ==> is_digit_c(#[trigger] s[j]),
        digit_run_end(s, i) < s.len() ==> !is_digit_c(s[digit_run_end(s, i)]),
    decreases s.len() - i,
{
    if i < s.len() && is_digit_c(s[i]) {
        lemma_digit_run_end(s, i + 1);
    }
}

/// Scan the digit run that starts at `i`.
pub fn scan_digits(s: &str, i: usize) -> (e: usize)
    requires
        i <= s@.len(),
    ensures
        e == digit_run_end(s@, i as int),
{
    let n = s.unicode_len();
    let mut e = i;
    while e < n
        invariant
            i <= e <= n,
            n == s@.len(),
            digit_run_end(s@, i as int) == digit_run_end(s@, e as int),
        decreases n - e,
    {
        let c = s.get_char(e);
        let u = c as u32;
        if !(48 <= u && u <= 57) {
            return e;
        }
        e += 1;
    }
    e
}

/// Skip the run of whitespace that starts at `i`.
pub open spec fn sp_run_end(s: Seq<char>, i: int) -> int
    decreases s.len() - i,
{
    if i < 0 || i >= s.len() || !is_sp(s[i]) {
        i
    } else {
        sp_run_end(s, i + 1)
    }
}

pub fn skip_spaces(s: &str, i: usize) -> (e: usize)
    requires
        i <= s@.len(),
    ensures
        e == sp_run_end(s@, i as int),
        i <= e <= s@.len(),
    decreases s@.len() - i,
{
    let n = s.unicode_len();
    let mut e = i;
    while e < n
        invariant
            i <= e <= n,
            n == s@.len(),
            sp_run_end(s@, i as int) == sp_run_end(s@, e as int),
        decreases n - e,
    {
        let c = s.get_char(e);
        if !(c == ' ' || c == '\t' || c == '\r' || c == '\n') {
            return e;
        }
        e += 1;
    }
    e
}

/// Numeric value of `s[start..end]`, capped: `None` when the value exceeds
/// `max`.
pub fn parse_digits(s: &str, start: usize, end: usize, max: u64) -> (r: Option<u64>)
    requires
        start <= end <= s@.len(),
        all_digits(s@.subrange(start as int, end as int)),
    ensures
        r matches Some(v) ==> v as nat == digits_val(s@.subrange(start as int, end as int))
            && v <= max,
        r is None ==> digits_val(s@.subrange(start as int, end as int)) > max,
{
    let ghost whole = s@.subrange(start as int, end as int);
    let mut acc: u64 = 0;
    let mut k = start;
    let mut over = false;
    while k < end
        invariant
            start <= k <= end <= s@.len(),
            whole == s@.subrange(start as int, end as int),
            all_digits(whole),
            !over ==> acc as nat == digits_val(s@.subrange(start as int, k as int)) && acc <= max,
            over ==> digits_val(s@.subrange(start as int, k as int)) > max,
        decreases end - k,
    {
        let ghost pre = s@.subrange(start as int, k as int);
        let ghost post = s@.subrange(start as int, k as int + 1);
        proof {
            assert(post.drop_last() =~= pre);
            assert(post.last() == s@[k as int]);
            assert(whole[k - start] == s@[k as int]);
            assert(is_digit_c(s@[k as int]));
        }
        let c = s.get_char(k);
        let d: u64 = (c as u32 - 48) as u64;
        proof {
            assert(digits_val(post) == digits_val(pre) * 10 + digit_val(s@[k as int]));
        }
        if over {
        } else if acc > max / 10 {
            over = true;
            proof {
                assert(acc * 10 > max) by (nonlinear_arith)
                    requires
                        acc > max / 10,
                ;
                assert(digits_val(post) > max);
            }
        } else {
            proof {
                assert(10 * acc <= max) by (nonlinear_arith)
                    requires
                        acc <= max / 10,
                ;
            }
            let t = 10 * acc;
            if d > max - t {
                over = true;
                assert(digits_val(post) > max);
            } else {
                acc = t + d;
            }
        }
        k += 1;
    }
    if over {
        None
    } else {
        Some(acc)
    }
}

/// The decimal digit characters `'0'` through `'9'`.
pub open spec fn dec_digit_char(d: nat) -> char {
    if d == 0 { '0' }
    else if d == 1 { '1' }
    else if d == 2 { '2' }
    else if d == 3 { '3' }
    else if d == 4 { '4' }
    else if d == 5 { '5' }
    else if d == 6 { '6' }
    else if d == 7 { '7' }
    else if d == 8 { '8' }
    else { '9' }
}

/// Decimal digit string of `n`, most significant digit first, no leading
/// zeros.
pub open spec fn dec_digits(n: nat) -> Seq<char>
    decreases n,
{
    if n < 10 {
        seq![dec_digit_char(n)]
    } else {
        dec_digits(n / 10) + seq![dec_digit_char(n % 10)]
    }
}

pub proof fn lemma_dec_digits(n: nat)
    ensures
        dec_digits(n).len() >= 1,
        all_digits(dec_digits(n)),
        digits_val(dec_digits(n)) == n,
    decreases n,
{
    if n < 10 {
        assert(dec_digits(n) =~= seq![dec_digit_char(n)]);
        assert(digits_val(dec_digits(n)) == digits_val(dec_digits(n).drop_last()) * 10
            + digit_val(dec_digits(n).last()));
        assert(dec_digits(n).drop_last() =~= Seq::<char>::empty());
    } else {
        lemma_dec_digits(n / 10);
        let s = dec_digits(n);
        assert(s.drop_last() =~= dec_digits(n / 10));
        assert(s.last() == dec_digit_char(n % 10));
        assert(digit_val(dec_digit_char(n % 10)) == n % 10);
        assert(digits_val(s) == (n / 10) * 10 + n % 10);
        assert((n / 10) * 10 + n % 10 == n) by (nonlinear_arith);
        assert(forall|i: int| 0 <= i < s.len() ==> is_digit_c(#[trigger] s[i])) by {
            assert(forall|i: int| 0 <= i < s.len() - 1 ==> s[i] == dec_digits(n / 10)[i]);
        }
    }
}

/// A one-character string for each decimal digit.
pub fn digit_str(d: u64) -> (r: &'static str)
    requires
        d < 10,
    ensures
        r@ == seq![dec_digit_char(d as nat)],
{
    proof {
        reveal_strlit("0");
        reveal_strlit("1");
        reveal_strlit("2");
        reveal_strlit("3");
        reveal_strlit("4");
        reveal_strlit("5");
        reveal_strlit("6");
        reveal_strlit("7");
        reveal_strlit("8");
        reveal_strlit("9");
    }
    let r = if d == 0 { "0" }
    else if d == 1 { "1" }
    else if d == 2 { "2" }
    else if d == 3 { "3" }
    else if d == 4 { "4" }
    else if d == 5 { "5" }
    else if d == 6 { "6" }
    else if d == 7 { "7" }
    else if d == 8 { "8" }
    else { "9" };
    proof {
        assert(r@ =~= seq![dec_digit_char(d as nat)]);
    }
    r
}

/// Decimal rendering of `n`.
pub fn u64_to_string(n: u64) -> (r: String)
    ensures
        r@ == dec_digits(n as nat),
    decreases n,
{
    if n < 10 {
        String::from_str(digit_str(n))
    } else {
        let mut r = u64_to_string(n / 10);
        r.append(digit_str(n % 10));
        r
    }
}

/// Unicode lowercasing, named: the result depends on the characters alone.
pub uninterp spec fn lower_of(s: Seq<char>) -> Seq<char>;

/// Whether a character counts as alphanumeric under Unicode, named.
pub uninterp spec fn is_alnum(c: char) -> bool;

/// Relies on str::to_lowercase: Unicode lowercasing, a function of the
/// characters alone; the empty string stays empty.
#[verifier::external_body]
pub fn to_lowercase(s: &str) -> (r: String)
    ensures
        r@ == lower_of(s@),
        s@.len() == 0 ==> r@.len() == 0,
{
    s.to_lowercase()
}

/// Relies on char::is_alphanumeric: a predicate on the character alone.
#[verifier::external_body]
pub fn char_is_alphanumeric(c: char) -> (r: bool)
    ensures
        r == is_alnum(c),
{
    c.is_alphanumeric()
}

/// Relies on String::push: appends exactly the given character.
#[verifier::external_body]
pub fn push_char(s: &mut String, c: char)
    ensures
        final(s)@ == old(s)@.push(c),
{
    s.push(c);
}

/// `s` with leading whitespace removed.
pub open spec fn trim_front(s: Seq<char>) -> Seq<char>
    decreases s.len(),
{
    if s.len() > 0 && is_sp(s[0]) {
        trim_front(s.drop_first())
    } else {
        s
    }
}

/// `s` with trailing whitespace removed.
pub open spec fn trim_back(s: Seq<char>) -> Seq<char>
    decreases s.len(),
{
    if s.len() > 0 && is_sp(s.last()) {
        trim_back(s.drop_last())
    } else {
        s
    }
}

/// `s` with whitespace removed at both ends.
pub open spec fn trim_sp(s: Seq<char>) -> Seq<char> {
    trim_back(trim_front(s))
}

proof fn lemma_trim_front_skip(s: Seq<char>, a: int)
    requires
        0 <= a <= s.len(),
        forall|j: int| 0 <= j < a ==> is_sp(#[trigger] s[j]),
        a < s.len() ==> !is_sp(s[a as int]),
    ensures
        trim_front(s) == s.skip(a),
    decreases a,
{
    if a == 0 {
        if s.len() > 0 {
            assert(!is_sp(s[0]));
        }
        assert(s.skip(0) =~= s);
    } else {
        assert(is_sp(s[0]));
        assert(trim_front(s) == trim_front(s.drop_first()));
        lemma_trim_front_skip(s.drop_first(), a - 1);
        assert(s.drop_first().skip(a - 1) =~= s.skip(a));
    }
}

proof fn lemma_trim_back_take(s: Seq<char>, b: int)
    requires
        0 <= b <= s.len(),
        forall|j: int| b <= j < s.len() ==> is_sp(#[trigger] s[j]),
        b > 0 ==> !is_sp(s[b - 1]),
    ensures
        trim_back(s) == s.take(b),
    decreases s.len(),
{
    if b == s.len() {
        if s.len() > 0 {
            assert(!is_sp(s.last()));
        }
        assert(s.take(b) =~= s);
    } else {
        assert(is_sp(s.last()));
        assert(trim_back(s) == trim_back(s.drop_last()));
        lemma_trim_back_take(s.drop_last(), b);
        assert(s.drop_last().take(b) =~= s.take(b));
    }
}

/// Remove whitespace at both ends.
pub fn trim(s: &str) -> (r: &str)
    ensures
        r@ == trim_sp(s@),
{
    let n = s.unicode_len();
    let mut a: usize = 0;
    let mut stop = false;
    while !stop && a < n
        invariant
            0 <= a <= n,
            n == s@.len(),
            forall|j: int| 0 <= j < a ==> is_sp(#[trigger] s@[j]),
            stop ==> a < n && !is_sp(s@[a as int]),
        decreases n - a + (if stop { 0int } else { 1int }),
    {
        let c = s.get_char(a);
        if c == ' ' || c == '\t' || c == '\r' || c == '\n' {
            a += 1;
        } else {
            stop = true;
        }
    }
    proof {
        lemma_trim_front_skip(s@, a as int);
    }
    let mut b: usize = n;
    stop = false;
    while !stop && b > a
        invariant
            a <= b <= n,
            n == s@.len(),
            forall|j: int| b <= j < n ==> is_sp(#[trigger] s@[j]),
            stop ==> b > a && !is_sp(s@[b - 1]),
        decreases b + (if stop { 0int } else { 1int }),
    {
        let c = s.get_char(b - 1);
        if c == ' ' || c == '\t' || c == '\r' || c == '\n' {
            b -= 1;
        } else {
            stop = true;
        }
    }
    proof {
        let f = s@.skip(a as int);
        assert(forall|j: int| b - a <= j < f.len() ==> is_sp(#[trigger] f[j]));
        if b > a {
            assert(f[b - a - 1] == s@[b - 1]);
        }
        lemma_trim_back_take(f, b - a);
        assert(f.take(b - a) =~= s@.subrange(a as int, b as int));
    }
    s.substring_char(a, b)
}

/// First position at or after `i` holding character `c`.
pub open spec fn first_char_from(s: Seq<char>, c: char, i: int) -> Option<int>
    decreases s.len() + 1 - i,
{
    if i < 0 || i >= s.len() {
        None
    } else if s[i] == c {
        Some(i)
    } else {
        first_char_from(s, c, i + 1)
    }
}

/// What `first_char_from` returns: the earliest occurrence, if any.
pub proof fn lemma_first_char_from(s: Seq<char>, c: char, i: int)
    requires
        0 <= i,
    ensures
        first_char_from(s, c, i) matches Some(k) ==> i <= k < s.len() && s[k] == c
            && forall|j: int| i <= j < k ==> s[j] != c,
        first_char_from(s, c, i) is None ==> forall|j: int| i <= j < s.len() ==> s[j] != c,
    decreases s.len() + 1 - i,
{
    if i < 0 || i >= s.len() {
    } else if s[i] == c {
    } else {
        lemma_first_char_from(s, c, i + 1);
    }
}

pub fn find_char(s: &str, c: char) -> (r: Option<usize>)
    ensures
        r matches Some(i) ==> first_char_from(s@, c, 0) == Some(i as int) && i < s@.len(),
        r is None ==> first_char_from(s@, c, 0) is None,
{
    let n = s.unicode_len();
    let mut i: usize = 0;
    while i < n
        invariant
            0 <= i <= n,
            n == s@.len(),
            first_char_from(s@, c, 0) == first_char_from(s@, c, i as int),
        decreases n - i,
    {
        if s.get_char(i) == c {
            return Some(i);
        }
        i += 1;
    }
    None
}

/// The first line of `s`: everything before the first line feed, with a
/// trailing carriage return removed.
pub open spec fn first_line(s: Seq<char>) -> Seq<char> {
    let cut = match first_char_from(s, '\n', 0) {
        Some(i) => s.take(i),
        None => s,
    };
    if cut.len() > 0 && cut.last() == '\r' {
        cut.drop_last()
    } else {
        cut
    }
}

/// Everything before the first line feed, trailing carriage return removed.
pub fn split_first_line(s: &str) -> (r: &str)
    ensures
        r@ == first_line(s@),
{
    let e = match find_char(s, '\n') {
        Some(i) => i,
        None => s.unicode_len(),
    };
    proof {
        assert(s@.take(s@.len() as int) =~= s@);
    }
    let e2 = if e > 0 && s.get_char(e - 1) == '\r' {
        e - 1
    } else {
        e
    };
    proof {
        let cut = s@.take(e as int);
        if e > 0 && s@[e as int - 1] == '\r' {
            assert(cut.last() == s@[e as int - 1]);
            assert(cut.drop_last() =~= s@.take(e as int - 1));
        } else {
            if cut.len() > 0 {
                assert(cut.last() == s@[e as int - 1]);
            }
        }
    }
    s.substring_char(0, e2)
}

/// One step of whitespace squeezing: the output so far, and whether a
/// separator is owed before the next word character.
pub open spec fn sq_apply(st: (Seq<char>, bool), c: char) -> (Seq<char>, bool) {
    if is_sp(c) {
        (st.0, st.0.len() > 0)
    } else {
        ((if st.1 { st.0 + seq![' '] } else { st.0 }) + seq![c], false)
    }
}

/// Left fold of `sq_apply` over `s`, starting from the empty output.
pub open spec fn sq_fold(s: Seq<char>) -> (Seq<char>, bool)
    decreases s.len(),
{
    if s.len() == 0 {
        (Seq::empty(), false)
    } else {
        sq_apply(sq_fold(s.drop_last()), s.last())
    }
}

/// `s` with leading and trailing whitespace dropped and every inner
/// whitespace run collapsed to a single space: what splitting on whitespace
/// and joining with one space yields.
pub open spec fn squeezed(s: Seq<char>) -> Seq<char> {
    sq_fold(s).0
}

} // verus!
