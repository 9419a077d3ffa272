//! Cooldown and budget accounting. All state lives in plain values keyed by
//! command text and millisecond timestamps; the wall clock enters only
//! through `now_millis`, and every rule is also available with the time as an
//! explicit argument.
use vstd::prelude::*;
use vstd::string::*;
use crate::text::str_eq;

verus! {

/// Relies on chrono::Utc::now: the current wall-clock time in milliseconds
/// since the epoch. Nothing is promised of it; rules take it as an argument.
#[verifier::external_body]
pub fn now_millis() -> u64 {
    chrono::Utc::now().timestamp_millis() as u64
}

/// Relies on rand::random: an arbitrary machine-random number. Nothing is
/// promised of it.
#[verifier::external_body]
pub fn random_u64() -> u64 {
    rand::random::<u64>()
}

/// A uniformly jittered delay within the half-open range, whatever the
/// random source returned.
pub fn random_delay(min_ms: u64, max_ms: u64) -> (r: u64)
    ensures
        min_ms < max_ms ==> min_ms <= r < max_ms,
        min_ms >= max_ms ==> r == min_ms,
{
    let range = if max_ms > min_ms {
        max_ms - min_ms
    } else {
        0
    };
    if range > 0 {
        let off = random_u64() % range;
        min_ms + off
    } else {
        min_ms
    }
}

/// Milliseconds elapsed from `last` to `now`; a clock running backwards
/// counts as no time passed.
pub open spec fn elapsed_ms(last: u64, now: u64) -> u64 {
    if now >= last {
        (now - last) as u64
    } else {
        0
    }
}

/// The key-to-timestamp pairs as character sequences, in order.
pub open spec fn pairs_view(ps: Seq<(String, u64)>) -> Seq<(Seq<char>, u64)>
    decreases ps.len(),
{
    if ps.len() == 0 {
        Seq::empty()
    } else {
        pairs_view(ps.drop_last()).push((ps.last().0@, ps.last().1))
    }
}

pub proof fn lemma_pairs_view(ps: Seq<(String, u64)>)
    ensures
        pairs_view(ps).len() == ps.len(),
        forall|k: int| 0 <= k < ps.len() ==> #[trigger] pairs_view(ps)[k] == (ps[k].0@, ps[k].1),
    decreases ps.len(),
{
    if ps.len() > 0 {
        lemma_pairs_view(ps.drop_last());
    }
}

/// The timestamp stored under `key`: the first pair with that key.
pub open spec fn cd_get(ps: Seq<(Seq<char>, u64)>, key: Seq<char>) -> Option<u64>
    decreases ps.len(),
{
    if ps.len() == 0 {
        None
    } else if ps.first().0 == key {
        Some(ps.first().1)
    } else {
        cd_get(ps.drop_first(), key)
    }
}

/// Appending a fresh pair: an old binding wins, else the fresh one.
pub proof fn lemma_cd_get_push(ps: Seq<(Seq<char>, u64)>, e: (Seq<char>, u64), key: Seq<char>)
    ensures
        cd_get(ps.push(e), key) == (match cd_get(ps, key) {
            Some(v) => Some(v),
            None => if e.0 == key {
                Some(e.1)
            } else {
                None
            },
        }),
    decreases ps.len(),
{
    if ps.len() == 0 {
        assert(ps.push(e).first() == e);
        assert(ps.push(e).drop_first() =~= Seq::<(Seq<char>, u64)>::empty());
    } else {
        assert(ps.push(e).first() == ps.first());
        assert(ps.push(e).drop_first() =~= ps.drop_first().push(e));
        lemma_cd_get_push(ps.drop_first(), e, key);
    }
}

/// Overwriting the first pair that carries `key` in place: that key now maps
/// to the new value and every other key is untouched.
pub proof fn lemma_cd_get_update(ps: Seq<(Seq<char>, u64)>, k: int, v: u64, key: Seq<char>, k2: Seq<char>)
    requires
        0 <= k < ps.len(),
        ps[k].0 == key,
        forall|j: int| 0 <= j < k ==> (#[trigger] ps[j].0) != key,
    ensures
        cd_get(ps.update(k, (key, v)), key) == Some(v),
        k2 != key ==> cd_get(ps.update(k, (key, v)), k2) == cd_get(ps, k2),
    decreases ps.len(),
{
    let up = ps.update(k, (key, v));
    if k == 0 {
        assert(up.first() == (key, v));
        assert(up.drop_first() =~= ps.drop_first());
    } else {
        assert(up.first() == ps.first());
        assert(ps.first().0 != key);
        assert(up.drop_first() =~= ps.drop_first().update(k - 1, (key, v)));
        assert(forall|j: int| 0 <= j < k - 1 ==> (#[trigger] ps.drop_first()[j].0) != key);
        lemma_cd_get_update(ps.drop_first(), k - 1, v, key, k2);
    }
}

/// A key that appears in no pair reads as never used.
pub proof fn lemma_cd_get_absent(ps: Seq<(Seq<char>, u64)>, key: Seq<char>)
    requires
        forall|j: int| 0 <= j < ps.len() ==> (#[trigger] ps[j].0) != key,
    ensures
        cd_get(ps, key) is None,
    decreases ps.len(),
{
    if ps.len() > 0 {
        assert(ps.first() == ps[0]);
        assert(forall|j: int| 0 <= j < ps.drop_first().len() ==> (
            #[trigger] ps.drop_first()[j].0) != key);
        lemma_cd_get_absent(ps.drop_first(), key);
    }
}

/// The pairs that do not carry `key`, in order.
pub open spec fn without_key(ps: Seq<(Seq<char>, u64)>, key: Seq<char>) -> Seq<(Seq<char>, u64)>
    decreases ps.len(),
{
    if ps.len() == 0 {
        Seq::empty()
    } else if ps.first().0 == key {
        without_key(ps.drop_first(), key)
    } else {
        seq![ps.first()] + without_key(ps.drop_first(), key)
    }
}

/// Dropping every pair that carries `key`: that key is gone and every other
/// key is untouched.
pub proof fn lemma_without_key(ps: Seq<(Seq<char>, u64)>, key: Seq<char>, k2: Seq<char>)
    ensures
        cd_get(without_key(ps, key), key) is None,
        k2 != key ==> cd_get(without_key(ps, key), k2) == cd_get(ps, k2),
    decreases ps.len(),
{
    if ps.len() == 0 {
    } else if ps.first().0 == key {
        lemma_without_key(ps.drop_first(), key, k2);
    } else {
        let rest = without_key(ps.drop_first(), key);
        let whole = seq![ps.first()] + rest;
        assert(whole.first() == ps.first());
        assert(whole.drop_first() =~= rest);
        lemma_without_key(ps.drop_first(), key, k2);
    }
}

/// Per-command cooldowns: last-used timestamps against a fixed duration.
pub struct Cooldown {
    entries: Vec<(String, u64)>,
    duration_ms: u64,
}

impl Cooldown {
    /// The stored key-to-last-used pairs, as views, in insertion order.
    pub closed spec fn pairs(&self) -> Seq<(Seq<char>, u64)> {
        pairs_view(self.entries@)
    }

    /// The cooldown duration in milliseconds.
    pub closed spec fn spec_duration_ms(&self) -> u64 {
        self.duration_ms
    }

    /// The last-used timestamp recorded for a key.
    pub open spec fn spec_get(&self, key: Seq<char>) -> Option<u64> {
        cd_get(self.pairs(), key)
    }

    /// A key is ready at `now`: never used, or used at least the duration
    /// ago.
    pub open spec fn spec_ready(&self, key: Seq<char>, now: u64) -> bool {
        match self.spec_get(key) {
            Some(last) => elapsed_ms(last, now) >= self.spec_duration_ms(),
            None => true,
        }
    }

    /// A fresh tracker with the duration given in seconds; a duration too
    /// large for the millisecond scale saturates.
    pub fn new(duration_secs: u64) -> (r: Self)
        ensures
            r.pairs() =~= Seq::<(Seq<char>, u64)>::empty(),
            r.spec_duration_ms() as int == (if duration_secs <= u64::MAX / 1000 {
                duration_secs as int * 1000
            } else {
                u64::MAX as int
            }),
    {
        let duration_ms = if duration_secs <= u64::MAX / 1000 {
            duration_secs * 1000
        } else {
            u64::MAX
        };
        let r = Self { entries: Vec::new(), duration_ms };
        proof {
            assert(r.pairs() =~= Seq::<(Seq<char>, u64)>::empty());
        }
        r
    }

    /// Look the key's last use up.
    fn lookup(&self, key: &str) -> (r: Option<u64>)
        ensures
            r == self.spec_get(key@),
    {
        let n = self.entries.len();
        proof {
            lemma_pairs_view(self.entries@);
            assert(self.pairs().skip(0) =~= self.pairs());
        }
        let mut i: usize = 0;
        while i < n
            invariant
                0 <= i <= n,
                n == self.entries@.len(),
                self.pairs().len() == n,
                forall|k: int| 0 <= k < n ==> #[trigger] self.pairs()[k] == (
                    self.entries@[k].0@, self.entries@[k].1),
                cd_get(self.pairs(), key@) == cd_get(self.pairs().skip(i as int), key@),
            decreases n - i,
        {
            let ghost rest = self.pairs().skip(i as int);
            proof {
                assert(rest.first() == self.pairs()[i as int]);
                assert(rest.drop_first() =~= self.pairs().skip(i as int + 1));
            }
            if str_eq(self.entries[i].0.as_str(), key) {
                return Some(self.entries[i].1);
            }
            i += 1;
        }
        proof {
            assert(self.pairs().skip(n as int) =~= Seq::<(Seq<char>, u64)>::empty());
        }
        None
    }

    /// Is the key past its cooldown at the given time?
    pub fn is_ready_at(&self, key: &str, now: u64) -> (r: bool)
        ensures
            r == self.spec_ready(key@, now),
    {
        match self.lookup(key) {
            Some(last) => {
                let el = if now >= last {
                    now - last
                } else {
                    0
                };
                el >= self.duration_ms
            },
            None => true,
        }
    }

    /// Is the key past its cooldown now?
    pub fn is_ready(&self, key: &str) -> (r: bool)
        ensures
            exists|t: u64| r == self.spec_ready(key@, t),
    {
        let now = now_millis();
        let r = self.is_ready_at(key, now);
        proof {
            assert(r == self.spec_ready(key@, now));
        }
        r
    }

    /// Record a use of the key at the given time.
    pub fn trigger_at(&mut self, key: &str, now: u64)
        ensures
            final(self).spec_get(key@) == Some(now),
            forall|k2: Seq<char>| k2 != key@ ==> #[trigger] final(self).spec_get(k2) == old(
                self).spec_get(k2),
            final(self).spec_duration_ms() == old(self).spec_duration_ms(),
    {
        let n = self.entries.len();
        proof {
            lemma_pairs_view(self.entries@);
        }
        let mut i: usize = 0;
        while i < n
            invariant
                0 <= i <= n,
                self == old(self),
                n == self.entries@.len(),
                self.pairs().len() == n,
                forall|k: int| 0 <= k < n ==> #[trigger] self.pairs()[k] == (
                    self.entries@[k].0@, self.entries@[k].1),
                forall|j: int| 0 <= j < i ==> (#[trigger] self.pairs()[j].0) != key@,
            decreases n - i,
        {
            if str_eq(self.entries[i].0.as_str(), key) {
                let fresh = (String::from_str(key), now);
                let ghost pre = self.entries@;
                let ghost prev = self.pairs();
                let removed = self.entries.remove(i);
                self.entries.insert(i, fresh);
                proof {
                    assert(self.entries@ =~= pre.update(i as int, fresh));
                    lemma_pairs_view(self.entries@);
                    assert(self.pairs() =~= prev.update(i as int, (key@, now)));
                    lemma_cd_get_update(prev, i as int, now, key@, key@);
                    assert(final(self).spec_get(key@) == Some(now));
                    assert forall|k2: Seq<char>| k2 != key@ implies final(self).spec_get(k2)
                        == old(self).spec_get(k2) by {
                        lemma_cd_get_update(prev, i as int, now, key@, k2);
                    }
                }
                return;
            }
            i += 1;
        }
        let fresh = (String::from_str(key), now);
        let ghost prev = self.pairs();
        let ghost pre = self.entries@;
        self.entries.push(fresh);
        proof {
            assert(self.entries@ =~= pre.push(fresh));
            lemma_pairs_view(self.entries@);
            assert(self.pairs() =~= prev.push((key@, now)));
            lemma_cd_get_absent(prev, key@);
            lemma_cd_get_push(prev, (key@, now), key@);
            assert(final(self).spec_get(key@) == Some(now));
            assert forall|k2: Seq<char>| k2 != key@ implies final(self).spec_get(k2) == old(
                self).spec_get(k2) by {
                lemma_cd_get_push(prev, (key@, now), k2);
            }
        }
    }

    /// Record a use of the key now.
    pub fn trigger(&mut self, key: &str)
        ensures
            exists|t: u64| final(self).spec_get(key@) == Some(t),
            forall|k2: Seq<char>| k2 != key@ ==> #[trigger] final(self).spec_get(k2) == old(
                self).spec_get(k2),
            final(self).spec_duration_ms() == old(self).spec_duration_ms(),
    {
        let now = now_millis();
        self.trigger_at(key, now);
    }

    /// Milliseconds of cooldown left for the key at the given time; `None`
    /// when the key is unused or ready.
    pub fn remaining_at(&self, key: &str, now: u64) -> (r: Option<u64>)
        ensures
            r == (match self.spec_get(key@) {
                Some(last) => if elapsed_ms(last, now) < self.spec_duration_ms() {
                    Some((self.spec_duration_ms() - elapsed_ms(last, now)) as u64)
                } else {
                    None
                },
                None => None,
            }),
    {
        match self.lookup(key) {
            Some(last) => {
                let el = if now >= last {
                    now - last
                } else {
                    0
                };
                if el < self.duration_ms {
                    Some(self.duration_ms - el)
                } else {
                    None
                }
            },
            None => None,
        }
    }

    /// Milliseconds of cooldown left for the key now.
    pub fn remaining(&self, key: &str) -> (r: Option<u64>)
        ensures
            self.spec_get(key@) is None ==> r is None,
    {
        let now = now_millis();
        self.remaining_at(key, now)
    }

    /// Forget the key: it reads as never used; every other key is untouched.
    pub fn clear(&mut self, key: &str)
        ensures
            final(self).spec_get(key@) is None,
            forall|k2: Seq<char>| k2 != key@ ==> #[trigger] final(self).spec_get(k2) == old(
                self).spec_get(k2),
            final(self).spec_duration_ms() == old(self).spec_duration_ms(),
    {
        let n = self.entries.len();
        let mut kept: Vec<(String, u64)> = Vec::new();
        proof {
            lemma_pairs_view(self.entries@);
        }
        let mut i: usize = n;
        while i > 0
            invariant
                0 <= i <= n,
                self == old(self),
                n == self.entries@.len(),
                self.pairs().len() == n,
                forall|k: int| 0 <= k < n ==> #[trigger] self.pairs()[k] == (
                    self.entries@[k].0@, self.entries@[k].1),
                pairs_view(kept@) =~= without_key(self.pairs().skip(i as int), key@),
            decreases i,
        {
            i -= 1;
            let ghost rest = self.pairs().skip(i as int);
            let ghost pre_kept = kept@;
            proof {
                assert(rest.first() == self.pairs()[i as int]);
                assert(rest.drop_first() =~= self.pairs().skip(i as int + 1));
            }
            if !str_eq(self.entries[i].0.as_str(), key) {
                let e = (String::from_str(self.entries[i].0.as_str()), self.entries[i].1);
                kept.insert(0, e);
                proof {
                    assert(kept@ =~= seq![e].add(pre_kept));
                    lemma_pairs_view(kept@);
                    lemma_pairs_view(pre_kept);
                    assert(pairs_view(kept@) =~= seq![(e.0@, e.1)].add(pairs_view(pre_kept)));
                }
            }
        }
        proof {
            assert(self.pairs().skip(0) =~= self.pairs());
            lemma_without_key(self.pairs(), key@, key@);
            assert forall|k2: Seq<char>| k2 != key@ implies cd_get(without_key(self.pairs(),
                key@), k2) == cd_get(self.pairs(), k2) by {
                lemma_without_key(self.pairs(), key@, k2);
            }
        }
        self.entries = kept;
    }

    /// Forget every key.
    pub fn clear_all(&mut self)
        ensures
            final(self).pairs() =~= Seq::<(Seq<char>, u64)>::empty(),
            forall|k2: Seq<char>| #[trigger] final(self).spec_get(k2) is None,
            final(self).spec_duration_ms() == old(self).spec_duration_ms(),
    {
        self.entries = Vec::new();
    }
}

/// The command strings as character sequences, in order.
pub open spec fn strings_view(ss: Seq<String>) -> Seq<Seq<char>>
    decreases ss.len(),
{
    if ss.len() == 0 {
        Seq::empty()
    } else {
        strings_view(ss.drop_last()).push(ss.last()@)
    }
}

pub proof fn lemma_strings_view(ss: Seq<String>)
    ensures
        strings_view(ss).len() == ss.len(),
        forall|k: int| 0 <= k < ss.len() ==> #[trigger] strings_view(ss)[k] == ss[k]@,
    decreases ss.len(),
{
    if ss.len() > 0 {
        lemma_strings_view(ss.drop_last());
    }
}

/// The commands that are off cooldown at `now`, in their given order.
pub open spec fn available_of(cd: Cooldown, cmds: Seq<Seq<char>>, now: u64) -> Seq<Seq<char>>
    decreases cmds.len(),
{
    if cmds.len() == 0 {
        Seq::empty()
    } else {
        available_of(cd, cmds.drop_last(), now) + (if cd.spec_ready(cmds.last(), now) {
            seq![cmds.last()]
        } else {
            Seq::empty()
        })
    }
}

/// The cooldown left for one key, `None` when it is unused or ready.
pub open spec fn spec_remaining(cd: Cooldown, key: Seq<char>, now: u64) -> Option<u64> {
    match cd.spec_get(key) {
        Some(last) => if elapsed_ms(last, now) < cd.spec_duration_ms() {
            Some((cd.spec_duration_ms() - elapsed_ms(last, now)) as u64)
        } else {
            None
        },
        None => None,
    }
}

/// The wait until some command comes off cooldown: zero when one is ready,
/// the smallest remaining wait otherwise, nothing when there are no commands.
pub open spec fn wait_of(cd: Cooldown, cmds: Seq<Seq<char>>, now: u64) -> Option<u64>
    decreases cmds.len(),
{
    if cmds.len() == 0 {
        None
    } else {
        let prev = wait_of(cd, cmds.drop_last(), now);
        match spec_remaining(cd, cmds.last(), now) {
            None => Some(0),
            Some(rem) => match prev {
                None => Some(rem),
                Some(w) => if rem < w {
                    Some(rem)
                } else {
                    Some(w)
                },
            },
        }
    }
}

/// On a fresh tracker every command is available.
pub proof fn lemma_available_fresh(cd: Cooldown, cmds: Seq<Seq<char>>, now: u64)
    requires
        cd.pairs() == Seq::<(Seq<char>, u64)>::empty(),
    ensures
        available_of(cd, cmds, now) == cmds,
    decreases cmds.len(),
{
    if cmds.len() > 0 {
        lemma_available_fresh(cd, cmds.drop_last(), now);
        assert(cd.spec_ready(cmds.last(), now));
        assert(available_of(cd, cmds, now) =~= cmds);
    } else {
        assert(available_of(cd, cmds, now) =~= cmds);
    }
}

/// A command used less than the duration ago is withheld; once the duration
/// has elapsed it is offered again. Every other command is unaffected.
pub proof fn lemma_available_marked(cd: Cooldown, cmds: Seq<Seq<char>>, c: Seq<char>, now: u64)
    ensures
        !cd.spec_ready(c, now) ==> !available_of(cd, cmds, now).contains(c),
        cd.spec_ready(c, now) && cmds.contains(c) ==> available_of(cd, cmds, now).contains(c),
        forall|k: int| 0 <= k < available_of(cd, cmds, now).len() ==> cmds.contains(
            #[trigger] available_of(cd, cmds, now)[k]) && cd.spec_ready(
            available_of(cd, cmds, now)[k], now),
    decreases cmds.len(),
{
    if cmds.len() > 0 {
        lemma_available_marked(cd, cmds.drop_last(), c, now);
        let pre = available_of(cd, cmds.drop_last(), now);
        assert(forall|k: int| 0 <= k < pre.len() ==> cmds.drop_last().contains(#[trigger] pre[k]));
        assert(forall|x: Seq<char>| cmds.drop_last().contains(x) ==> cmds.contains(x));
        if cmds.contains(c) && cd.spec_ready(c, now) {
            let whole = available_of(cd, cmds, now);
            if cmds.last() == c {
                assert(whole =~= pre + seq![c]);
                assert(whole[pre.len() as int] == c);
                assert(whole.contains(c));
            } else {
                assert(cmds.drop_last().contains(c)) by {
                    let w = choose|w: int| 0 <= w < cmds.len() && cmds[w] == c;
                    assert(cmds.drop_last()[w] == c);
                }
                assert(pre.contains(c));
                let w2 = choose|w2: int| 0 <= w2 < pre.len() && pre[w2] == c;
                assert(whole[w2] == c);
                assert(whole.contains(c));
            }
        }
    }
}

/// The per-command cooldown map together with the remaining-action budget,
/// its reset hint, and the global claim-availability flag.
pub struct CooldownTracker {
    cooldowns: Cooldown,
    rolls_remaining: u64,
    reset_hint: Option<u64>,
    claim_available: bool,
}

impl CooldownTracker {
    pub closed spec fn spec_cooldowns(&self) -> Cooldown {
        self.cooldowns
    }

    pub closed spec fn spec_budget(&self) -> u64 {
        self.rolls_remaining
    }

    pub closed spec fn spec_reset_hint(&self) -> Option<u64> {
        self.reset_hint
    }

    pub closed spec fn spec_claim_available(&self) -> bool {
        self.claim_available
    }

    /// A fresh tracker: nothing used yet, no budget, no hint, claiming
    /// allowed.
    pub fn new(cooldown_secs: u64) -> (r: Self)
        ensures
            r.spec_cooldowns().pairs() =~= Seq::<(Seq<char>, u64)>::empty(),
            r.spec_cooldowns().spec_duration_ms() as int == (if cooldown_secs <= u64::MAX / 1000 {
                cooldown_secs as int * 1000
            } else {
                u64::MAX as int
            }),
            r.spec_budget() == 0,
            r.spec_reset_hint() is None,
            r.spec_claim_available() == true,
    {
        Self {
            cooldowns: Cooldown::new(cooldown_secs),
            rolls_remaining: 0,
            reset_hint: None,
            claim_available: true,
        }
    }

    /// The commands off cooldown at `now`, in the order they were given.
    pub fn available_commands(&self, all_commands: &Vec<String>, now: u64) -> (r: Vec<String>)
        ensures
            strings_view(r@) == available_of(self.spec_cooldowns(), strings_view(all_commands@),
                now),
    {
        let n = all_commands.len();
        let mut out: Vec<String> = Vec::new();
        proof {
            lemma_strings_view(all_commands@);
            assert(strings_view(out@) =~= Seq::<Seq<char>>::empty());
            assert(strings_view(all_commands@).take(0) =~= Seq::<Seq<char>>::empty());
            assert(available_of(self.spec_cooldowns(), strings_view(all_commands@).take(0), now)
                =~= Seq::<Seq<char>>::empty());
        }
        let mut i: usize = 0;
        while i < n
            invariant
                0 <= i <= n,
                n == all_commands@.len(),
                strings_view(all_commands@).len() == n,
                forall|k: int| 0 <= k < n ==> #[trigger] strings_view(all_commands@)[k]
                    == all_commands@[k]@,
                strings_view(out@) =~= available_of(self.spec_cooldowns(), strings_view(
                    all_commands@).take(i as int), now),
            decreases n - i,
        {
            let ghost cv = strings_view(all_commands@);
            proof {
                assert(cv.take(i as int + 1).drop_last() =~= cv.take(i as int));
                assert(cv.take(i as int + 1).last() == cv[i as int]);
            }
            let ghost pre_out = out@;
            if self.cooldowns.is_ready_at(all_commands[i].as_str(), now) {
                let c = String::from_str(all_commands[i].as_str());
                out.push(c);
                proof {
                    assert(out@.drop_last() =~= pre_out);
                    assert(out@.last() == c);
                    assert(strings_view(out@) =~= strings_view(pre_out).push(c@));
                }
            }
            proof {
                assert(strings_view(out@) =~= available_of(self.spec_cooldowns(), cv.take(
                    i as int + 1), now));
            }
            i += 1;
        }
        proof {
            assert(strings_view(all_commands@).take(n as int) =~= strings_view(all_commands@));
        }
        out
    }

    /// Is the command past its cooldown at `now`?
    pub fn cooldown_ready(&self, key: &str, now: u64) -> (r: bool)
        ensures
            r == self.spec_cooldowns().spec_ready(key@, now),
    {
        self.cooldowns.is_ready_at(key, now)
    }

    /// Record a use of the command at `now`: only that command's cooldown
    /// changes, and nothing else in the tracker.
    pub fn mark_used(&mut self, command: &str, now: u64)
        ensures
            final(self).spec_cooldowns().spec_get(command@) == Some(now),
            forall|k2: Seq<char>| k2 != command@ ==> #[trigger] final(
                self).spec_cooldowns().spec_get(k2) == old(self).spec_cooldowns().spec_get(k2),
            final(self).spec_cooldowns().spec_duration_ms() == old(
                self).spec_cooldowns().spec_duration_ms(),
            final(self).spec_budget() == old(self).spec_budget(),
            final(self).spec_reset_hint() == old(self).spec_reset_hint(),
            final(self).spec_claim_available() == old(self).spec_claim_available(),
    {
        self.cooldowns.trigger_at(command, now);
    }

    /// How long until some command is available: zero when one already is,
    /// the smallest remaining wait otherwise, `None` without commands.
    pub fn time_until_next_available(&self, all_commands: &Vec<String>, now: u64) -> (r: Option<
        u64>)
        ensures
            r == wait_of(self.spec_cooldowns(), strings_view(all_commands@), now),
    {
        let n = all_commands.len();
        proof {
            lemma_strings_view(all_commands@);
            assert(strings_view(all_commands@).take(0) =~= Seq::<Seq<char>>::empty());
        }
        let mut acc: Option<u64> = None;
        let mut i: usize = 0;
        while i < n
            invariant
                0 <= i <= n,
                n == all_commands@.len(),
                strings_view(all_commands@).len() == n,
                forall|k: int| 0 <= k < n ==> #[trigger] strings_view(all_commands@)[k]
                    == all_commands@[k]@,
                acc == wait_of(self.spec_cooldowns(), strings_view(all_commands@).take(i as int),
                    now),
            decreases n - i,
        {
            let ghost cv = strings_view(all_commands@);
            proof {
                assert(cv.take(i as int + 1).drop_last() =~= cv.take(i as int));
                assert(cv.take(i as int + 1).last() == cv[i as int]);
            }
            match self.cooldowns.remaining_at(all_commands[i].as_str(), now) {
                None => {
                    acc = Some(0);
                },
                Some(rem) => {
                    acc = match acc {
                        None => Some(rem),
                        Some(w) => if rem < w {
                            Some(rem)
                        } else {
                            Some(w)
                        },
                    };
                },
            }
            i += 1;
        }
        proof {
            assert(strings_view(all_commands@).take(n as int) =~= strings_view(all_commands@));
        }
        acc
    }

    /// Spend one action; an empty budget stays empty rather than failing.
    pub fn decrement_budget(&mut self)
        ensures
            final(self).spec_budget() == (if old(self).spec_budget() > 0 {
                (old(self).spec_budget() - 1) as u64
            } else {
                0u64
            }),
            final(self).spec_cooldowns() == old(self).spec_cooldowns(),
            final(self).spec_reset_hint() == old(self).spec_reset_hint(),
            final(self).spec_claim_available() == old(self).spec_claim_available(),
    {
        if self.rolls_remaining > 0 {
            self.rolls_remaining = self.rolls_remaining - 1;
        }
    }

    /// A budget report overwrites the local counter authoritatively.
    pub fn set_budget(&mut self, n: u64)
        ensures
            final(self).spec_budget() == n,
            final(self).spec_cooldowns() == old(self).spec_cooldowns(),
            final(self).spec_reset_hint() == old(self).spec_reset_hint(),
            final(self).spec_claim_available() == old(self).spec_claim_available(),
    {
        self.rolls_remaining = n;
    }

    pub fn budget(&self) -> (r: u64)
        ensures
            r == self.spec_budget(),
    {
        self.rolls_remaining
    }

    pub fn set_reset_hint(&mut self, hint: Option<u64>)
        ensures
            final(self).spec_reset_hint() == hint,
            final(self).spec_cooldowns() == old(self).spec_cooldowns(),
            final(self).spec_budget() == old(self).spec_budget(),
            final(self).spec_claim_available() == old(self).spec_claim_available(),
    {
        self.reset_hint = hint;
    }

    pub fn reset_hint(&self) -> (r: Option<u64>)
        ensures
            r == self.spec_reset_hint(),
    {
        self.reset_hint
    }

    pub fn set_claim_available(&mut self, available: bool)
        ensures
            final(self).spec_claim_available() == available,
            final(self).spec_cooldowns() == old(self).spec_cooldowns(),
            final(self).spec_budget() == old(self).spec_budget(),
            final(self).spec_reset_hint() == old(self).spec_reset_hint(),
    {
        self.claim_available = available;
    }

    pub fn is_claim_available(&self) -> (r: bool)
        ensures
            r == self.spec_claim_available(),
    {
        self.claim_available
    }
}

/// A minimum spacing between actions.
pub struct RateLimiter {
    last_action: Option<u64>,
    min_interval_ms: u64,
}

impl RateLimiter {
    pub closed spec fn spec_last_action(&self) -> Option<u64> {
        self.last_action
    }

    pub closed spec fn spec_min_interval_ms(&self) -> u64 {
        self.min_interval_ms
    }

    /// The next action may proceed at `now`: no action yet, or the last one
    /// lies at least the interval back.
    pub open spec fn spec_can_proceed(&self, now: u64) -> bool {
        match self.spec_last_action() {
            Some(last) => elapsed_ms(last, now) >= self.spec_min_interval_ms(),
            None => true,
        }
    }

    pub fn new(min_interval_ms: u64) -> (r: Self)
        ensures
            r.spec_last_action() is None,
            r.spec_min_interval_ms() == min_interval_ms,
    {
        Self { last_action: None, min_interval_ms }
    }

    /// May the next action proceed at the given time?
    pub fn can_proceed_at(&self, now: u64) -> (r: bool)
        ensures
            r == self.spec_can_proceed(now),
    {
        match self.last_action {
            Some(last) => {
                let el = if now >= last {
                    now - last
                } else {
                    0
                };
                el >= self.min_interval_ms
            },
            None => true,
        }
    }

    /// May the next action proceed now?
    pub fn can_proceed(&self) -> (r: bool)
        ensures
            exists|t: u64| r == self.spec_can_proceed(t),
    {
        let now = now_millis();
        let r = self.can_proceed_at(now);
        proof {
            assert(r == self.spec_can_proceed(now));
        }
        r
    }

    /// Note that an action happened at the given time.
    pub fn mark_at(&mut self, now: u64)
        ensures
            final(self).spec_last_action() == Some(now),
            final(self).spec_min_interval_ms() == old(self).spec_min_interval_ms(),
    {
        self.last_action = Some(now);
    }

    /// Forget the last action: the next one may proceed at once.
    pub fn reset(&mut self)
        ensures
            final(self).spec_last_action() is None,
            final(self).spec_min_interval_ms() == old(self).spec_min_interval_ms(),
    {
        self.last_action = None;
    }
}

} // verus!
