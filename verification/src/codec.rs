//! The preference store's serial form: length-prefixed fields, fully
//! self-describing, with a proved round trip — decoding an encoded store
//! yields the identical ordered entries.
use vstd::prelude::*;
use vstd::string::*;
use crate::text::{
    all_digits, dec_digits, digit_run_end, digits_val, is_digit_c, lemma_dec_digits,
    lemma_digit_run_end, parse_digits, push_char, scan_digits, u64_to_string,
};
use crate::wishlist::{
    entries_view, lemma_entries_view, lemma_entries_view_push, opt_view, WishedCharacter,
    WishView, WishlistManager,
};

verus! {

// ---------------------------------------------------------------- encoding

/// A number: its decimal digits closed by a semicolon.
pub open spec fn enc_u64(n: nat) -> Seq<char> {
    dec_digits(n) + seq![';']
}

/// A text: its length in decimal, a colon, then the characters.
pub open spec fn enc_str(s: Seq<char>) -> Seq<char> {
    dec_digits(s.len()) + seq![':'] + s
}

/// An optional text: `S` and the text, or a bare `N`.
pub open spec fn enc_opt(o: Option<Seq<char>>) -> Seq<char> {
    match o {
        Some(s) => seq!['S'] + enc_str(s),
        None => seq!['N'],
    }
}

pub open spec fn enc_bool(b: bool) -> Seq<char> {
    if b {
        seq!['T']
    } else {
        seq!['F']
    }
}

/// One entry: name, series, id, verified flag, added timestamp, notes,
/// priority.
pub open spec fn enc_entry(e: WishView) -> Seq<char> {
    enc_str(e.name) + enc_opt(e.series) + enc_opt(e.character_id) + enc_bool(e.verified)
        + enc_u64(e.added_date as nat) + enc_opt(e.notes) + enc_u64(e.priority as nat)
}

/// The entries in order, front first.
pub open spec fn enc_entries(es: Seq<WishView>) -> Seq<char>
    decreases es.len(),
{
    if es.len() == 0 {
        Seq::empty()
    } else {
        enc_entry(es.first()) + enc_entries(es.drop_first())
    }
}

/// The whole store: the last-updated stamp, the entry count, the entries.
pub open spec fn enc_store(last_updated: u64, es: Seq<WishView>) -> Seq<char> {
    enc_u64(last_updated as nat) + enc_u64(es.len() as nat) + enc_entries(es)
}

/// Appending one entry extends the encoding at the back.
pub proof fn lemma_enc_entries_push(es: Seq<WishView>, e: WishView)
    ensures
        enc_entries(es.push(e)) == enc_entries(es) + enc_entry(e),
    decreases es.len(),
{
    if es.len() == 0 {
        assert(es.push(e).first() == e);
        assert(es.push(e).drop_first() =~= Seq::<WishView>::empty());
        assert(enc_entries(es.push(e)) == enc_entry(e) + enc_entries(Seq::<WishView>::empty()));
        assert(enc_entry(e) + Seq::<char>::empty() =~= enc_entry(e));
        assert(enc_entries(es) + enc_entry(e) =~= enc_entry(e));
    } else {
        assert(es.push(e).first() == es.first());
        assert(es.push(e).drop_first() =~= es.drop_first().push(e));
        lemma_enc_entries_push(es.drop_first(), e);
        assert(enc_entries(es.push(e)) =~= enc_entries(es) + enc_entry(e));
    }
}

// ---------------------------------------------------------------- decoding

/// Read a number: digits up to a semicolon; the value must fit.
pub open spec fn dec_u64(s: Seq<char>) -> Option<(u64, Seq<char>)> {
    let e = digit_run_end(s, 0);
    if 0 < e && e < s.len() && s[e] == ';' && digits_val(s.take(e)) <= u64::MAX {
        Some((digits_val(s.take(e)) as u64, s.skip(e + 1)))
    } else {
        None
    }
}

/// Read a text: its length, a colon, then that many characters.
pub open spec fn dec_str(s: Seq<char>) -> Option<(Seq<char>, Seq<char>)> {
    let e = digit_run_end(s, 0);
    if 0 < e && e < s.len() && s[e] == ':' && digits_val(s.take(e)) <= s.len() - e - 1 {
        let l = digits_val(s.take(e)) as int;
        Some((s.subrange(e + 1, e + 1 + l), s.skip(e + 1 + l)))
    } else {
        None
    }
}

pub open spec fn dec_opt(s: Seq<char>) -> Option<(Option<Seq<char>>, Seq<char>)> {
    if s.len() == 0 {
        None
    } else if s[0] == 'N' {
        Some((None, s.skip(1)))
    } else if s[0] == 'S' {
        match dec_str(s.skip(1)) {
            Some((t, rest)) => Some((Some(t), rest)),
            None => None,
        }
    } else {
        None
    }
}

pub open spec fn dec_bool(s: Seq<char>) -> Option<(bool, Seq<char>)> {
    if s.len() == 0 {
        None
    } else if s[0] == 'T' {
        Some((true, s.skip(1)))
    } else if s[0] == 'F' {
        Some((false, s.skip(1)))
    } else {
        None
    }
}

/// Read one entry, fields in encoding order; the priority must fit its byte.
pub open spec fn dec_entry(s: Seq<char>) -> Option<(WishView, Seq<char>)> {
    match dec_str(s) {
        Some((name, s1)) => match dec_opt(s1) {
            Some((series, s2)) => match dec_opt(s2) {
                Some((character_id, s3)) => match dec_bool(s3) {
                    Some((verified, s4)) => match dec_u64(s4) {
                        Some((added_date, s5)) => match dec_opt(s5) {
                            Some((notes, s6)) => match dec_u64(s6) {
                                Some((priority, s7)) => if priority <= u8::MAX {
                                    Some((WishView {
                                        name,
                                        series,
                                        character_id,
                                        verified,
                                        added_date,
                                        notes,
                                        priority: priority as u8,
                                    }, s7))
                                } else {
                                    None
                                },
                                None => None,
                            },
                            None => None,
                        },
                        None => None,
                    },
                    None => None,
                },
                None => None,
            },
            None => None,
        },
        None => None,
    }
}

/// Read `n` entries in order.
pub open spec fn dec_entries(s: Seq<char>, n: nat) -> Option<(Seq<WishView>, Seq<char>)>
    decreases n,
{
    if n == 0 {
        Some((Seq::empty(), s))
    } else {
        match dec_entry(s) {
            Some((e, rest)) => match dec_entries(rest, (n - 1) as nat) {
                Some((es, rest2)) => Some((seq![e] + es, rest2)),
                None => None,
            },
            None => None,
        }
    }
}

/// Read a whole store; nothing may follow it.
pub open spec fn dec_store(s: Seq<char>) -> Option<(u64, Seq<WishView>)> {
    match dec_u64(s) {
        Some((last_updated, s1)) => match dec_u64(s1) {
            Some((count, s2)) => match dec_entries(s2, count as nat) {
                Some((es, rest)) => if rest.len() == 0 {
                    Some((last_updated, es))
                } else {
                    None
                },
                None => None,
            },
            None => None,
        },
        None => None,
    }
}

// ------------------------------------------------------------- round trip

/// The digit run of `digits + stop + tail` is exactly the digits.
proof fn lemma_run_end_of(d: Seq<char>, stop: char, tail: Seq<char>)
    requires
        d.len() > 0,
        all_digits(d),
        !is_digit_c(stop),
    ensures
        digit_run_end(d + seq![stop] + tail, 0) == d.len(),
{
    let s = d + seq![stop] + tail;
    lemma_digit_run_end(s, 0);
    let e = digit_run_end(s, 0);
    assert(forall|j: int| 0 <= j < d.len() ==> s[j] == d[j]);
    assert(s[d.len() as int] == stop);
    if e < d.len() {
        assert(is_digit_c(s[e]));
        assert(s[e] == d[e]);
    }
    if e > d.len() {
        assert(is_digit_c(s[d.len() as int]));
    }
}

/// Decoding an encoded number gives it back with the tail untouched.
pub proof fn lemma_dec_enc_u64(n: u64, tail: Seq<char>)
    ensures
        dec_u64(enc_u64(n as nat) + tail) == Some((n, tail)),
{
    let d = dec_digits(n as nat);
    lemma_dec_digits(n as nat);
    let s = enc_u64(n as nat) + tail;
    assert(s =~= d + seq![';'] + tail);
    lemma_run_end_of(d, ';', tail);
    assert(s.take(d.len() as int) =~= d);
    assert(s[d.len() as int] == ';');
    assert(s.skip(d.len() as int + 1) =~= tail);
}

/// Decoding an encoded text gives it back with the tail untouched.
pub proof fn lemma_dec_enc_str(t: Seq<char>, tail: Seq<char>)
    ensures
        dec_str(enc_str(t) + tail) == Some((t, tail)),
{
    let d = dec_digits(t.len() as nat);
    lemma_dec_digits(t.len() as nat);
    let s = enc_str(t) + tail;
    assert(s =~= d + seq![':'] + (t + tail));
    lemma_run_end_of(d, ':', t + tail);
    assert(s.take(d.len() as int) =~= d);
    assert(s[d.len() as int] == ':');
    assert(digits_val(s.take(d.len() as int)) == t.len());
    assert(s.subrange(d.len() as int + 1, d.len() + 1 + t.len() as int) =~= t);
    assert(s.skip(d.len() + 1 + t.len() as int) =~= tail);
}

pub proof fn lemma_dec_enc_opt(o: Option<Seq<char>>, tail: Seq<char>)
    ensures
        dec_opt(enc_opt(o) + tail) == Some((o, tail)),
{
    let s = enc_opt(o) + tail;
    match o {
        Some(t) => {
            assert(s[0] == 'S');
            assert(s.skip(1) =~= enc_str(t) + tail);
            lemma_dec_enc_str(t, tail);
        },
        None => {
            assert(s[0] == 'N');
            assert(s.skip(1) =~= tail);
        },
    }
}

pub proof fn lemma_dec_enc_bool(b: bool, tail: Seq<char>)
    ensures
        dec_bool(enc_bool(b) + tail) == Some((b, tail)),
{
    let s = enc_bool(b) + tail;
    assert(s.skip(1) =~= tail);
}

/// Decoding an encoded entry gives it back with the tail untouched.
#[verifier::rlimit(100)]
pub proof fn lemma_dec_enc_entry(e: WishView, tail: Seq<char>)
    ensures
        dec_entry(enc_entry(e) + tail) == Some((e, tail)),
{
    let s = enc_entry(e) + tail;
    let t6 = enc_u64(e.priority as nat) + tail;
    let t5 = enc_opt(e.notes) + t6;
    let t4 = enc_u64(e.added_date as nat) + t5;
    let t3 = enc_bool(e.verified) + t4;
    let t2 = enc_opt(e.character_id) + t3;
    let t1 = enc_opt(e.series) + t2;
    assert(s =~= enc_str(e.name) + t1);
    lemma_dec_enc_str(e.name, t1);
    assert(dec_str(s) == Some((e.name, t1)));
    lemma_dec_enc_opt(e.series, t2);
    assert(dec_opt(t1) == Some((e.series, t2)));
    lemma_dec_enc_opt(e.character_id, t3);
    assert(dec_opt(t2) == Some((e.character_id, t3)));
    lemma_dec_enc_bool(e.verified, t4);
    assert(dec_bool(t3) == Some((e.verified, t4)));
    lemma_dec_enc_u64(e.added_date, t5);
    assert(dec_u64(t4) == Some((e.added_date, t5)));
    lemma_dec_enc_opt(e.notes, t6);
    assert(dec_opt(t5) == Some((e.notes, t6)));
    lemma_dec_enc_u64(e.priority as u64, tail);
    assert(enc_u64(e.priority as nat) == enc_u64((e.priority as u64) as nat));
    assert(dec_u64(t6) == Some((e.priority as u64, tail)));
}

/// Decoding `n` encoded entries gives them back in order.
#[verifier::rlimit(100)]
#[verifier::spinoff_prover]
pub proof fn lemma_dec_enc_entries(es: Seq<WishView>, tail: Seq<char>)
    ensures
        dec_entries(enc_entries(es) + tail, es.len() as nat) == Some((es, tail)),
    decreases es.len(),
{
    if es.len() == 0 {
        assert(enc_entries(es) + tail =~= tail);
        assert(dec_entries(tail, 0) == Some((Seq::<WishView>::empty(), tail)));
        assert(es =~= Seq::<WishView>::empty());
    } else {
        let e = es.first();
        let rest = es.drop_first();
        let x = enc_entries(es) + tail;
        let y = enc_entries(rest) + tail;
        assert(x =~= enc_entry(e) + y);
        lemma_dec_enc_entry(e, y);
        assert(dec_entry(x) == Some((e, y)));
        lemma_dec_enc_entries(rest, tail);
        assert(dec_entries(y, rest.len() as nat) == Some((rest, tail)));
        assert((es.len() as nat - 1) as nat == rest.len() as nat);
        assert(dec_entries(x, es.len() as nat) == Some((seq![e] + rest, tail)));
        assert(seq![e] + rest =~= es);
    }
}

/// A characterized run end pins `digit_run_end` down.
proof fn lemma_run_end_unique(s: Seq<char>, e: int)
    requires
        0 <= e <= s.len(),
        forall|j: int| 0 <= j < e ==> is_digit_c(#[trigger] s[j]),
        e < s.len() ==> !is_digit_c(s[e]),
    ensures
        digit_run_end(s, 0) == e,
{
    lemma_digit_run_end(s, 0);
    let e0 = digit_run_end(s, 0);
    if e0 < e {
        assert(is_digit_c(s[e0]));
    }
    if e0 > e {
        assert(is_digit_c(s[e]));
    }
}

/// Read a number at offset `i`: the in-place image of `dec_u64`.
fn dec_u64_at(s: &str, i: usize) -> (r: Option<(u64, usize)>)
    requires
        i <= s@.len(),
    ensures
        r matches Some((v, j)) ==> i < j <= s@.len() && dec_u64(s@.skip(i as int)) == Some((
            v, s@.skip(j as int))),
        r is None ==> dec_u64(s@.skip(i as int)) is None,
{
    let ghost sub = s@.skip(i as int);
    let n = s.unicode_len();
    let e = scan_digits(s, i);
    proof {
        lemma_digit_run_end(s@, i as int);
        assert(forall|j: int| 0 <= j < sub.len() ==> sub[j] == s@[i + j]);
        lemma_run_end_unique(sub, e - i);
    }
    if e == i || e >= n {
        return None;
    }
    if s.get_char(e) != ';' {
        assert(sub[e - i] == s@[e as int]);
        return None;
    }
    proof {
        assert(sub[e - i] == ';');
        assert(sub.take(e - i) =~= s@.subrange(i as int, e as int));
    }
    match parse_digits(s, i, e, u64::MAX) {
        Some(v) => {
            proof {
                assert(sub.skip(e - i + 1) =~= s@.skip(e + 1));
            }
            Some((v, e + 1))
        },
        None => None,
    }
}

/// Read a length-prefixed text at offset `i`: the in-place image of
/// `dec_str`.
fn dec_str_at(s: &str, i: usize) -> (r: Option<(String, usize)>)
    requires
        i <= s@.len(),
    ensures
        r matches Some((t, j)) ==> i < j <= s@.len() && dec_str(s@.skip(i as int)) == Some((
            t@, s@.skip(j as int))),
        r is None ==> dec_str(s@.skip(i as int)) is None,
{
    let ghost sub = s@.skip(i as int);
    let n = s.unicode_len();
    let e = scan_digits(s, i);
    proof {
        lemma_digit_run_end(s@, i as int);
        assert(forall|j: int| 0 <= j < sub.len() ==> sub[j] == s@[i + j]);
        lemma_run_end_unique(sub, e - i);
    }
    if e == i || e >= n {
        return None;
    }
    if s.get_char(e) != ':' {
        assert(sub[e - i] == s@[e as int]);
        return None;
    }
    proof {
        assert(sub[e - i] == ':');
        assert(sub.take(e - i) =~= s@.subrange(i as int, e as int));
        assert(sub.len() - (e - i) - 1 == n - e - 1);
    }
    let room = (n - e - 1) as u64;
    match parse_digits(s, i, e, room) {
        Some(v) => {
            let l = v as usize;
            let t = String::from_str(s.substring_char(e + 1, e + 1 + l));
            proof {
                assert(t@ =~= sub.subrange(e - i + 1, e - i + 1 + l));
                assert(sub.skip(e - i + 1 + l) =~= s@.skip(e + 1 + l));
            }
            Some((t, e + 1 + l))
        },
        None => None,
    }
}

/// Read an optional text at offset `i`.
fn dec_opt_at(s: &str, i: usize) -> (r: Option<(Option<String>, usize)>)
    requires
        i <= s@.len(),
    ensures
        r matches Some((o, j)) ==> i < j <= s@.len() && dec_opt(s@.skip(i as int)) == Some((
            opt_view(o), s@.skip(j as int))),
        r is None ==> dec_opt(s@.skip(i as int)) is None,
{
    let ghost sub = s@.skip(i as int);
    let n = s.unicode_len();
    if i >= n {
        return None;
    }
    let c = s.get_char(i);
    proof {
        assert(sub[0] == s@[i as int]);
    }
    if c == 'N' {
        proof {
            assert(sub.skip(1) =~= s@.skip(i as int + 1));
        }
        Some((None, i + 1))
    } else if c == 'S' {
        proof {
            assert(sub.skip(1) =~= s@.skip(i as int + 1));
        }
        match dec_str_at(s, i + 1) {
            Some((t, j)) => Some((Some(t), j)),
            None => None,
        }
    } else {
        None
    }
}

/// Read a flag at offset `i`.
fn dec_bool_at(s: &str, i: usize) -> (r: Option<(bool, usize)>)
    requires
        i <= s@.len(),
    ensures
        r matches Some((b, j)) ==> i < j <= s@.len() && dec_bool(s@.skip(i as int)) == Some((
            b, s@.skip(j as int))),
        r is None ==> dec_bool(s@.skip(i as int)) is None,
{
    let ghost sub = s@.skip(i as int);
    let n = s.unicode_len();
    if i >= n {
        return None;
    }
    let c = s.get_char(i);
    proof {
        assert(sub[0] == s@[i as int]);
        assert(sub.skip(1) =~= s@.skip(i as int + 1));
    }
    if c == 'T' {
        Some((true, i + 1))
    } else if c == 'F' {
        Some((false, i + 1))
    } else {
        None
    }
}

/// Read one entry at offset `i`.
fn dec_entry_at(s: &str, i: usize) -> (r: Option<(WishedCharacter, usize)>)
    requires
        i <= s@.len(),
    ensures
        r matches Some((c, j)) ==> i < j <= s@.len() && dec_entry(s@.skip(i as int)) == Some((
            c@, s@.skip(j as int))),
        r is None ==> dec_entry(s@.skip(i as int)) is None,
{
    let (name, i1) = match dec_str_at(s, i) {
        Some(x) => x,
        None => {
            return None;
        },
    };
    let (series, i2) = match dec_opt_at(s, i1) {
        Some(x) => x,
        None => {
            return None;
        },
    };
    let (character_id, i3) = match dec_opt_at(s, i2) {
        Some(x) => x,
        None => {
            return None;
        },
    };
    let (verified, i4) = match dec_bool_at(s, i3) {
        Some(x) => x,
        None => {
            return None;
        },
    };
    let (added_date, i5) = match dec_u64_at(s, i4) {
        Some(x) => x,
        None => {
            return None;
        },
    };
    let (notes, i6) = match dec_opt_at(s, i5) {
        Some(x) => x,
        None => {
            return None;
        },
    };
    let (priority64, i7) = match dec_u64_at(s, i6) {
        Some(x) => x,
        None => {
            return None;
        },
    };
    if priority64 > 255 {
        return None;
    }
    let entry = WishedCharacter {
        name,
        series,
        character_id,
        verified,
        added_date,
        notes,
        priority: priority64 as u8,
    };
    Some((entry, i7))
}

/// Append one entry's encoding.
fn append_entry(out: &mut String, e: &WishedCharacter)
    ensures
        final(out)@ == old(out)@ + enc_entry(e@),
{
    append_str_field(out, e.name.as_str());
    append_opt_field(out, &e.series);
    append_opt_field(out, &e.character_id);
    push_char(out, if e.verified { 'T' } else { 'F' });
    append_u64_field(out, e.added_date);
    append_opt_field(out, &e.notes);
    append_u64_field(out, e.priority as u64);
    proof {
        assert(final(out)@ =~= old(out)@ + enc_entry(e@));
    }
}

fn append_u64_field(out: &mut String, n: u64)
    ensures
        final(out)@ == old(out)@ + enc_u64(n as nat),
{
    let d = u64_to_string(n);
    out.append(d.as_str());
    push_char(out, ';');
    proof {
        assert(final(out)@ =~= old(out)@ + enc_u64(n as nat));
    }
}

fn append_str_field(out: &mut String, t: &str)
    ensures
        final(out)@ == old(out)@ + enc_str(t@),
{
    let l = t.unicode_len();
    let d = u64_to_string(l as u64);
    out.append(d.as_str());
    push_char(out, ':');
    out.append(t);
    proof {
        assert(final(out)@ =~= old(out)@ + enc_str(t@));
    }
}

fn append_opt_field(out: &mut String, o: &Option<String>)
    ensures
        final(out)@ == old(out)@ + enc_opt(opt_view(*o)),
{
    match o {
        Some(t) => {
            push_char(out, 'S');
            append_str_field(out, t.as_str());
            proof {
                assert(final(out)@ =~= old(out)@ + enc_opt(opt_view(*o)));
            }
        },
        None => {
            push_char(out, 'N');
            proof {
                assert(final(out)@ =~= old(out)@ + enc_opt(opt_view(*o)));
            }
        },
    }
}

/// Serialize a store: the stamp, the count, then the entries in order.
pub fn encode_store(last_updated: u64, characters: &Vec<WishedCharacter>) -> (r: String)
    ensures
        r@ == enc_store(last_updated, entries_view(characters@)),
{
    let mut out = String::new();
    append_u64_field(&mut out, last_updated);
    let n = characters.len();
    proof {
        lemma_entries_view(characters@);
    }
    append_u64_field(&mut out, n as u64);
    let ghost whole = entries_view(characters@);
    let ghost head = enc_u64(last_updated as nat) + enc_u64(whole.len() as nat);
    proof {
        assert(out@ =~= head);
        assert(entries_view(characters@).take(0) =~= Seq::<WishView>::empty());
        assert(out@ =~= head + enc_entries(whole.take(0)));
    }
    let mut i: usize = 0;
    while i < n
        invariant
            0 <= i <= n,
            n == characters@.len(),
            whole == entries_view(characters@),
            whole.len() == n,
            forall|k: int| 0 <= k < n ==> #[trigger] whole[k] == characters@[k]@,
            out@ == head + enc_entries(whole.take(i as int)),
        decreases n - i,
    {
        append_entry(&mut out, &characters[i]);
        proof {
            assert(whole.take(i as int + 1).drop_last() =~= whole.take(i as int));
            assert(whole.take(i as int + 1) =~= whole.take(i as int).push(whole[i as int]));
            lemma_enc_entries_push(whole.take(i as int), whole[i as int]);
            assert(out@ =~= head + enc_entries(whole.take(i as int + 1)));
        }
        i += 1;
    }
    proof {
        assert(whole.take(n as int) =~= whole);
        assert(out@ =~= enc_store(last_updated, whole));
    }
    out
}

/// Parse a store; anything malformed, truncated or trailed by extra text
/// yields nothing.
pub fn decode_store(s: &str) -> (r: Option<(u64, Vec<WishedCharacter>)>)
    ensures
        r matches Some((lu, cs)) ==> dec_store(s@) == Some((lu, entries_view(cs@))),
        r is None ==> dec_store(s@) is None,
{
    proof {
        assert(s@.skip(0) =~= s@);
    }
    let (last_updated, i1) = match dec_u64_at(s, 0) {
        Some(x) => x,
        None => {
            return None;
        },
    };
    let (count, i2) = match dec_u64_at(s, i1) {
        Some(x) => x,
        None => {
            return None;
        },
    };
    let ghost s2 = s@.skip(i2 as int);
    let mut out: Vec<WishedCharacter> = Vec::new();
    let mut pos = i2;
    let mut k: u64 = 0;
    proof {
        lemma_entries_view(out@);
        assert(entries_view(out@) =~= Seq::<WishView>::empty());
    }
    while k < count
        invariant
            0 <= k <= count,
            pos <= s@.len(),
            dec_u64(s@) == Some((last_updated, s@.skip(i1 as int))),
            i1 <= s@.len(),
            dec_u64(s@.skip(i1 as int)) == Some((count, s2)),
            s2 == s@.skip(i2 as int),
            dec_entries(s2, count as nat) == (match dec_entries(s@.skip(pos as int), (count - k)
                as nat) {
                Some((es, rest)) => Some((entries_view(out@) + es, rest)),
                None => None::<(Seq<WishView>, Seq<char>)>,
            }),
        decreases count - k,
    {
        let ghost pre_out = out@;
        match dec_entry_at(s, pos) {
            Some((entry, j)) => {
                let ghost ev = entry@;
                out.push(entry);
                proof {
                    lemma_entries_view_push(pre_out, entry);
                    let rest_n = (count - k) as nat;
                    assert(dec_entry(s@.skip(pos as int)) == Some((ev, s@.skip(j as int))));
                    assert forall|es2: Seq<WishView>| true implies entries_view(pre_out) + (
                        seq![ev] + es2) =~= entries_view(out@) + es2 by {}
                    assert(dec_entries(s2, count as nat) == (match dec_entries(s@.skip(j as int),
                        (count - k - 1) as nat) {
                        Some((es, rest)) => Some((entries_view(out@) + es, rest)),
                        None => None::<(Seq<WishView>, Seq<char>)>,
                    }));
                }
                pos = j;
            },
            None => {
                assert(dec_entries(s@.skip(pos as int), (count - k) as nat) is None);
                return None;
            },
        }
        k += 1;
    }
    proof {
        assert(dec_entries(s@.skip(pos as int), 0) == Some((Seq::<WishView>::empty(), s@.skip(
            pos as int))));
        assert(entries_view(out@) + Seq::<WishView>::empty() =~= entries_view(out@));
    }
    if pos < s.unicode_len() {
        assert(s@.skip(pos as int).len() > 0);
        return None;
    }
    proof {
        assert(s@.skip(pos as int).len() == 0);
    }
    Some((last_updated, out))
}

/// Serialize the whole store, stamped `now`; done before every save so a
/// mutation reaches the durable medium fully computed.
pub fn export_store(manager: &mut WishlistManager, now: u64) -> (r: String)
    ensures
        r@ == enc_store(now, old(manager).entries()),
        final(manager).entries() == old(manager).entries(),
        final(manager).spec_last_updated() == now,
        final(manager).spec_fuzzy_enabled() == old(manager).spec_fuzzy_enabled(),
        final(manager).spec_threshold() == old(manager).spec_threshold(),
        final(manager).spec_priority_verified() == old(manager).spec_priority_verified(),
{
    manager.set_last_updated(now);
    encode_store(manager.last_updated(), manager.characters_ref())
}

/// Load a serialized store: the decoded entries replace the current ones;
/// malformed input leaves the store empty rather than failing.
pub fn load_store(manager: &mut WishlistManager, text: &str) -> (ok: bool)
    ensures
        ok == (dec_store(text@) is Some),
        dec_store(text@) matches Some((lu, es)) ==> final(manager).entries() == es && final(
            manager).spec_last_updated() == lu,
        dec_store(text@) is None ==> final(manager).entries() =~= Seq::<WishView>::empty(),
        final(manager).spec_fuzzy_enabled() == old(manager).spec_fuzzy_enabled(),
        final(manager).spec_threshold() == old(manager).spec_threshold(),
        final(manager).spec_priority_verified() == old(manager).spec_priority_verified(),
{
    match decode_store(text) {
        Some((last_updated, characters)) => {
            manager.replace_entries(characters, last_updated);
            true
        },
        None => {
            manager.replace_entries(Vec::new(), 0);
            proof {
                lemma_entries_view(Seq::<WishedCharacter>::empty());
                assert(entries_view(Seq::<WishedCharacter>::empty())
                    =~= Seq::<WishView>::empty());
            }
            false
        },
    }
}

/// The round trip: decoding an encoded store reproduces the identical
/// ordered entries and stamp.
pub proof fn lemma_store_round_trip(last_updated: u64, es: Seq<WishView>)
    requires
        es.len() <= u64::MAX,
    ensures
        dec_store(enc_store(last_updated, es)) == Some((last_updated, es)),
{
    let s = enc_store(last_updated, es);
    let t1 = enc_u64(es.len() as nat) + enc_entries(es);
    assert(s =~= enc_u64(last_updated as nat) + t1);
    lemma_dec_enc_u64(last_updated, t1);
    let count = es.len() as u64;
    assert(enc_u64(es.len() as nat) == enc_u64(count as nat));
    lemma_dec_enc_u64(count, enc_entries(es));
    assert(enc_entries(es) =~= enc_entries(es) + Seq::<char>::empty());
    lemma_dec_enc_entries(es, Seq::empty());
}

} // verus!
