//! Small pure helpers: clock-time parsing, name and series normalisation for
//! fuzzy matching, duration formatting and display truncation.
use vstd::prelude::*;
use vstd::string::*;
use crate::text::{
    all_digits, char_is_alphanumeric, dec_digits, digit_run_end, digits_val, find_char,
    first_char_from, is_alnum, is_digit_c, is_sp, lemma_digit_run_end, lemma_first_char_from, lower_of,
    parse_digits, push_char, scan_digits, sq_fold, squeezed, to_lowercase, u64_to_string,
};

verus! {

/// `parse_time` accepts exactly `H:M` with all-digit parts, hours below 24
/// and minutes below 60.
pub open spec fn parse_time_spec(s: Seq<char>) -> Option<(u32, u32)> {
    match first_char_from(s, ':', 0) {
        Some(i) => {
            let pre = s.take(i);
            let post = s.skip(i + 1);
            if first_char_from(post, ':', 0) is Some {
                None
            } else if pre.len() > 0 && all_digits(pre) && post.len() > 0 && all_digits(post)
                && digits_val(pre) < 24 && digits_val(post) < 60 {
                Some((digits_val(pre) as u32, digits_val(post) as u32))
            } else {
                None
            }
        },
        None => None,
    }
}

/// Parse a wall-clock time of day written `HH:MM`.
pub fn parse_time(time_str: &str) -> (r: Option<(u32, u32)>)
    ensures
        r == parse_time_spec(time_str@),
{
    let n = time_str.unicode_len();
    let i = match find_char(time_str, ':') {
        Some(i) => i,
        None => {
            return None;
        },
    };
    proof {
        lemma_first_char_from(time_str@, ':', 0);
    }
    assert(time_str@[i as int] == ':');
    let post_str = time_str.substring_char(i + 1, n);
    let ghost pre = time_str@.take(i as int);
    let ghost post = time_str@.skip(i as int + 1);
    assert(post_str@ =~= post);
    if find_char(post_str, ':').is_some() {
        return None;
    }
    if i == 0 {
        return None;
    }
    let pre_end = scan_digits(time_str, 0);
    proof {
        lemma_digit_run_end(time_str@, 0);
    }
    if pre_end < i {
        assert(!all_digits(pre)) by {
            assert(!is_digit_c(pre[digit_run_end(time_str@, 0)]));
        }
        return None;
    }
    assert(all_digits(pre)) by {
        assert(forall|j: int| 0 <= j < i ==> is_digit_c(#[trigger] time_str@[j]));
        assert(forall|j: int| 0 <= j < pre.len() ==> pre[j] == time_str@[j]);
    }
    let post_len = post_str.unicode_len();
    if post_len == 0 {
        return None;
    }
    let post_end = scan_digits(post_str, 0);
    proof {
        lemma_digit_run_end(post_str@, 0);
    }
    if post_end < post_len {
        assert(!all_digits(post)) by {
            assert(!is_digit_c(post[digit_run_end(post_str@, 0)]));
        }
        return None;
    }
    assert(pre =~= time_str@.subrange(0, i as int));
    assert(post =~= post_str@.subrange(0, post_len as int));
    let hours = match parse_digits(time_str, 0, i, 23) {
        Some(v) => v,
        None => {
            return None;
        },
    };
    let minutes = match parse_digits(post_str, 0, post_len, 59) {
        Some(v) => v,
        None => {
            return None;
        },
    };
    Some((hours as u32, minutes as u32))
}

/// Characters that survive name normalisation: alphanumerics and whitespace.
pub open spec fn keep_name(s: Seq<char>) -> Seq<char>
    decreases s.len(),
{
    if s.len() == 0 {
        Seq::empty()
    } else {
        keep_name(s.drop_last()) + (if is_sp(s.last()) || is_alnum(s.last()) {
            seq![s.last()]
        } else {
            Seq::empty()
        })
    }
}

/// Normalised character name: lowercased, punctuation dropped, whitespace
/// squeezed.
pub open spec fn norm_name(s: Seq<char>) -> Seq<char> {
    squeezed(keep_name(lower_of(s)))
}

/// Series normalisation per character: sentence punctuation dropped;
/// hyphens, underscores and colons turned into spaces.
pub open spec fn series_norm_char(c: char) -> Option<char> {
    if c == '!' || c == '?' || c == '\'' || c == '"' {
        None
    } else if c == '-' || c == '_' || c == ':' {
        Some(' ')
    } else {
        Some(c)
    }
}

pub open spec fn keep_series(s: Seq<char>) -> Seq<char>
    decreases s.len(),
{
    if s.len() == 0 {
        Seq::empty()
    } else {
        keep_series(s.drop_last()) + (match series_norm_char(s.last()) {
            Some(c) => seq![c],
            None => Seq::empty(),
        })
    }
}

/// Normalised series name: lowercased, punctuation dropped, separators
/// unified, whitespace squeezed.
pub open spec fn norm_series(s: Seq<char>) -> Seq<char> {
    squeezed(keep_series(lower_of(s)))
}

/// Lowercase a name and keep only alphanumerics and single inner spaces.
pub fn normalize_character_name(name: &str) -> (r: String)
    ensures
        r@ == norm_name(name@),
{
    let lowered = to_lowercase(name);
    let ls = lowered.as_str();
    let n = ls.unicode_len();
    let mut out = String::new();
    let mut pending = false;
    let mut nonempty = false;
    let mut i: usize = 0;
    while i < n
        invariant
            0 <= i <= n,
            n == ls@.len(),
            ls@ == lower_of(name@),
            (out@, pending) == sq_fold(keep_name(ls@.take(i as int))),
            nonempty == (out@.len() > 0),
        decreases n - i,
    {
        let ghost prefix = ls@.take(i as int);
        let ghost post = ls@.take(i as int + 1);
        proof {
            assert(post.drop_last() =~= prefix);
            assert(post.last() == ls@[i as int]);
        }
        let c = ls.get_char(i);
        if c == ' ' || c == '\t' || c == '\r' || c == '\n' {
            proof {
                assert(keep_name(post) =~= keep_name(prefix) + seq![c]);
                assert(keep_name(post).drop_last() =~= keep_name(prefix));
            }
            pending = nonempty;
        } else if char_is_alphanumeric(c) {
            proof {
                assert(keep_name(post) =~= keep_name(prefix) + seq![c]);
                assert(keep_name(post).drop_last() =~= keep_name(prefix));
            }
            if pending {
                push_char(&mut out, ' ');
                assert(out@ =~= sq_fold(keep_name(prefix)).0 + seq![' ']);
            }
            push_char(&mut out, c);
            proof {
                let st = sq_fold(keep_name(prefix));
                assert(out@ =~= (if st.1 { st.0 + seq![' '] } else { st.0 }) + seq![c]);
            }
            pending = false;
            nonempty = true;
        } else {
            proof {
                assert(keep_name(post) =~= keep_name(prefix));
            }
        }
        i += 1;
    }
    proof {
        assert(ls@.take(n as int) =~= ls@);
    }
    out
}

/// Lowercase a series title, drop punctuation, unify separators, squeeze
/// whitespace.
pub fn normalize_series_name(series: &str) -> (r: String)
    ensures
        r@ == norm_series(series@),
{
    let lowered = to_lowercase(series);
    let ls = lowered.as_str();
    let n = ls.unicode_len();
    let mut out = String::new();
    let mut pending = false;
    let mut nonempty = false;
    let mut i: usize = 0;
    while i < n
        invariant
            0 <= i <= n,
            n == ls@.len(),
            ls@ == lower_of(series@),
            (out@, pending) == sq_fold(keep_series(ls@.take(i as int))),
            nonempty == (out@.len() > 0),
        decreases n - i,
    {
        let ghost prefix = ls@.take(i as int);
        let ghost post = ls@.take(i as int + 1);
        proof {
            assert(post.drop_last() =~= prefix);
            assert(post.last() == ls@[i as int]);
        }
        let c = ls.get_char(i);
        if c == '!' || c == '?' || c == '\'' || c == '"' {
            proof {
                assert(keep_series(post) =~= keep_series(prefix));
            }
        } else {
            let c2 = if c == '-' || c == '_' || c == ':' {
                ' '
            } else {
                c
            };
            proof {
                assert(keep_series(post) =~= keep_series(prefix) + seq![c2]);
                assert(keep_series(post).drop_last() =~= keep_series(prefix));
            }
            if c2 == ' ' || c2 == '\t' || c2 == '\r' || c2 == '\n' {
                pending = nonempty;
            } else {
                if pending {
                    push_char(&mut out, ' ');
                    assert(out@ =~= sq_fold(keep_series(prefix)).0 + seq![' ']);
                }
                push_char(&mut out, c2);
                proof {
                    let st = sq_fold(keep_series(prefix));
                    assert(out@ =~= (if st.1 { st.0 + seq![' '] } else { st.0 }) + seq![c2]);
                }
                pending = false;
                nonempty = true;
            }
        }
        i += 1;
    }
    proof {
        assert(ls@.take(n as int) =~= ls@);
    }
    out
}

/// What `truncate_string` yields: the string itself when it fits, otherwise
/// a prefix with a three-dot ellipsis.
pub open spec fn truncated(s: Seq<char>, max_len: nat) -> Seq<char> {
    if s.len() <= max_len {
        s
    } else {
        s.take((if max_len >= 3 { max_len - 3 } else { 0 }) as int) + seq!['.', '.', '.']
    }
}

/// Cut a string for display, appending an ellipsis when it does not fit.
pub fn truncate_string(s: &str, max_len: usize) -> (r: String)
    ensures
        r@ == truncated(s@, max_len as nat),
{
    let n = s.unicode_len();
    if n <= max_len {
        String::from_str(s)
    } else {
        let keep = if max_len >= 3 {
            max_len - 3
        } else {
            0
        };
        let mut r = String::from_str(s.substring_char(0, keep));
        r.append("...");
        proof {
            reveal_strlit("...");
            assert("..."@ =~= seq!['.', '.', '.']);
        }
        r
    }
}

/// `format_duration` output: seconds, with minutes and hours prepended once
/// they are non-zero.
pub open spec fn fmt_duration(total_secs: u64) -> Seq<char> {
    let h = total_secs as nat / 3600;
    let m = (total_secs as nat % 3600) / 60;
    let s = total_secs as nat % 60;
    if h > 0 {
        dec_digits(h) + seq!['h', ' '] + dec_digits(m) + seq!['m', ' '] + dec_digits(s) + seq!['s']
    } else if m > 0 {
        dec_digits(m) + seq!['m', ' '] + dec_digits(s) + seq!['s']
    } else {
        dec_digits(s) + seq!['s']
    }
}

/// Render a duration in seconds as `1h 2m 3s`, dropping empty leading units.
pub fn format_duration(total_secs: u64) -> (r: String)
    ensures
        r@ == fmt_duration(total_secs),
{
    proof {
        reveal_strlit("h ");
        reveal_strlit("m ");
        reveal_strlit("s");
        assert("h "@ =~= seq!['h', ' ']);
        assert("m "@ =~= seq!['m', ' ']);
        assert("s"@ =~= seq!['s']);
    }
    let hours = total_secs / 3600;
    let minutes = (total_secs % 3600) / 60;
    let seconds = total_secs % 60;
    if hours > 0 {
        let mut r = u64_to_string(hours);
        r.append("h ");
        let ms = u64_to_string(minutes);
        r.append(ms.as_str());
        r.append("m ");
        let ss = u64_to_string(seconds);
        r.append(ss.as_str());
        r.append("s");
        r
    } else if minutes > 0 {
        let mut r = u64_to_string(minutes);
        r.append("m ");
        let ss = u64_to_string(seconds);
        r.append(ss.as_str());
        r.append("s");
        r
    } else {
        let mut r = u64_to_string(seconds);
        r.append("s");
        r
    }
}

} // verus!
