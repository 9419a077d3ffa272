//! Verification of preference entries against the game bot's own records: a
//! cache of looked-up names, the set of names awaiting a response, and the
//! matching of responses back to waiters. Sending and waiting are the
//! caller's; every decision lives here.
use vstd::prelude::*;
use vstd::string::*;
use crate::parser::MudaeMessage;
use crate::text::{contains_seq, contains_str, lower_of, str_eq, to_lowercase};
use crate::wishlist::{opt_view, WishedCharacter};

verus! {

/// What a lookup settled about one name.
#[derive(Debug, Clone)]
pub struct VerificationResult {
    pub original_name: String,
    pub canonical_name: Option<String>,
    pub series: Option<String>,
    pub character_id: Option<String>,
    pub exists: bool,
}

/// The mathematical image of a verification result.
pub ghost struct VrView {
    pub original_name: Seq<char>,
    pub canonical_name: Option<Seq<char>>,
    pub series: Option<Seq<char>>,
    pub character_id: Option<Seq<char>>,
    pub exists: bool,
}

impl View for VerificationResult {
    type V = VrView;

    open spec fn view(&self) -> VrView {
        VrView {
            original_name: self.original_name@,
            canonical_name: opt_view(self.canonical_name),
            series: opt_view(self.series),
            character_id: opt_view(self.character_id),
            exists: self.exists,
        }
    }
}

fn copy_opt_string(o: &Option<String>) -> (r: Option<String>)
    ensures
        opt_view(r) == opt_view(*o),
{
    match o {
        Some(s) => Some(String::from_str(s.as_str())),
        None => None,
    }
}

/// Copy one verification result.
pub fn clone_result(v: &VerificationResult) -> (r: VerificationResult)
    ensures
        r@ == v@,
{
    VerificationResult {
        original_name: String::from_str(v.original_name.as_str()),
        canonical_name: copy_opt_string(&v.canonical_name),
        series: copy_opt_string(&v.series),
        character_id: copy_opt_string(&v.character_id),
        exists: v.exists,
    }
}

/// The negative result a lookup that went unanswered settles to.
pub fn not_found_result(name: &str) -> (r: VerificationResult)
    ensures
        r@.original_name == name@,
        r@.canonical_name is None,
        r@.series is None,
        r@.character_id is None,
        r@.exists == false,
{
    VerificationResult {
        original_name: String::from_str(name),
        canonical_name: None,
        series: None,
        character_id: None,
        exists: false,
    }
}

/// The result filed under `key`: the first cache pair with that key.
pub open spec fn cache_get(cs: Seq<(String, VerificationResult)>, key: Seq<char>) -> Option<
    VrView>
    decreases cs.len(),
{
    if cs.len() == 0 {
        None
    } else if cs.first().0@ == key {
        Some(cs.first().1@)
    } else {
        cache_get(cs.drop_first(), key)
    }
}

/// A key that appears in no pair is not on file.
proof fn lemma_cache_get_absent(cs: Seq<(String, VerificationResult)>, key: Seq<char>)
    requires
        forall|j: int| 0 <= j < cs.len() ==> (#[trigger] cs[j].0)@ != key,
    ensures
        cache_get(cs, key) is None,
    decreases cs.len(),
{
    if cs.len() > 0 {
        assert(cs.first() == cs[0]);
        assert(forall|j: int| 0 <= j < cs.drop_first().len() ==> (
            #[trigger] cs.drop_first()[j].0)@ != key);
        lemma_cache_get_absent(cs.drop_first(), key);
    }
}

/// Filing a fresh pair at the back: an old binding wins, else the fresh one.
proof fn lemma_cache_get_push(
    cs: Seq<(String, VerificationResult)>,
    e: (String, VerificationResult),
    key: Seq<char>,
)
    ensures
        cache_get(cs.push(e), key) == (match cache_get(cs, key) {
            Some(v) => Some(v),
            None => if e.0@ == key {
                Some(e.1@)
            } else {
                None
            },
        }),
    decreases cs.len(),
{
    if cs.len() == 0 {
        assert(cs.push(e).first() == e);
        assert(cs.push(e).drop_first() =~= Seq::<(String, VerificationResult)>::empty());
        assert(cache_get(cs, key) is None);
        if e.0@ == key {
            assert(cache_get(cs.push(e), key) == Some(e.1@));
        } else {
            assert(cache_get(cs.push(e), key) == cache_get(cs.push(e).drop_first(), key));
            assert(cache_get(cs.push(e), key) is None);
        }
    } else {
        assert(cs.push(e).first() == cs.first());
        assert(cs.push(e).drop_first() =~= cs.drop_first().push(e));
        lemma_cache_get_push(cs.drop_first(), e, key);
        if cs.first().0@ == key {
            assert(cache_get(cs.push(e), key) == Some(cs.first().1@));
            assert(cache_get(cs, key) == Some(cs.first().1@));
        } else {
            assert(cache_get(cs.push(e), key) == cache_get(cs.drop_first().push(e), key));
            assert(cache_get(cs, key) == cache_get(cs.drop_first(), key));
        }
    }
}

/// Overwriting the first pair under `key` in place: that key now yields the
/// new result and every other key is untouched.
proof fn lemma_cache_get_update(
    cs: Seq<(String, VerificationResult)>,
    k: int,
    e: (String, VerificationResult),
    key: Seq<char>,
    k2: Seq<char>,
)
    requires
        0 <= k < cs.len(),
        cs[k].0@ == key,
        e.0@ == key,
        forall|j: int| 0 <= j < k ==> (#[trigger] cs[j].0)@ != key,
    ensures
        cache_get(cs.update(k, e), key) == Some(e.1@),
        k2 != key ==> cache_get(cs.update(k, e), k2) == cache_get(cs, k2),
    decreases cs.len(),
{
    let up = cs.update(k, e);
    if k == 0 {
        assert(up.first() == e);
        assert(up.drop_first() =~= cs.drop_first());
    } else {
        assert(up.first() == cs.first());
        assert(cs.first().0@ != key);
        assert(up.drop_first() =~= cs.drop_first().update(k - 1, e));
        assert(forall|j: int| 0 <= j < k - 1 ==> (#[trigger] cs.drop_first()[j].0)@ != key);
        lemma_cache_get_update(cs.drop_first(), k - 1, e, key, k2);
    }
}

/// The in-flight names other than `l`, in order.
pub open spec fn pending_without(ps: Seq<String>, l: Seq<char>) -> Seq<String> {
    ps.filter(|s: String| s@ != l)
}

/// Some in-flight name equals `l`.
pub open spec fn pending_has(ps: Seq<String>, l: Seq<char>) -> bool {
    exists|j: int| 0 <= j < ps.len() && (#[trigger] ps[j])@ == l
}

/// The name relates to the response by containment in either direction.
pub open spec fn pending_related(x: Seq<char>, l: Seq<char>) -> bool {
    contains_seq(l, x) || contains_seq(x, l)
}

/// First in-flight name at or after `i` related to `l` by containment.
pub open spec fn first_related_from(ps: Seq<String>, l: Seq<char>, i: int) -> Option<int>
    decreases ps.len() + 1 - i,
{
    if i < 0 || i >= ps.len() {
        None
    } else if pending_related(ps[i]@, l) {
        Some(i)
    } else {
        first_related_from(ps, l, i + 1)
    }
}

/// What a response settles for one waiter: the name it asked under, the
/// canonical name and series the game bot reported, and whether the
/// character exists.
pub open spec fn response_result_ok(
    v: VrView,
    original: Seq<char>,
    canonical: Seq<char>,
    series: Seq<char>,
    exists: bool,
) -> bool {
    &&& v.original_name == original
    &&& v.canonical_name == Some(canonical)
    &&& v.series == Some(series)
    &&& v.character_id is None
    &&& v.exists == exists
}

/// The cache of settled lookups, keyed by lowercased name, and the
/// lowercased names whose lookups are still in flight.
pub struct CharacterVerifier {
    cache: Vec<(String, VerificationResult)>,
    pending: Vec<String>,
    verification_channel: u64,
}

impl CharacterVerifier {
    pub closed spec fn spec_cache(&self) -> Seq<(String, VerificationResult)> {
        self.cache@
    }

    pub closed spec fn spec_pending(&self) -> Seq<String> {
        self.pending@
    }

    pub closed spec fn spec_channel(&self) -> u64 {
        self.verification_channel
    }

    /// A fresh verifier bound to the channel where lookups are sent.
    pub fn new(verification_channel: u64) -> (r: Self)
        ensures
            r.spec_cache() =~= Seq::<(String, VerificationResult)>::empty(),
            r.spec_pending() =~= Seq::<String>::empty(),
            r.spec_channel() == verification_channel,
    {
        Self { cache: Vec::new(), pending: Vec::new(), verification_channel }
    }

    pub fn verification_channel(&self) -> (r: u64)
        ensures
            r == self.spec_channel(),
    {
        self.verification_channel
    }

    /// Is a settled result on file for this name?
    pub fn is_cached(&self, name: &str) -> (r: bool)
        ensures
            r == (cache_get(self.spec_cache(), lower_of(name@)) is Some),
    {
        self.get_cached(name).is_some()
    }

    /// The result filed under the lowercased name: the first matching cache
    /// entry's stored result, exactly.
    pub fn get_cached(&self, name: &str) -> (r: Option<VerificationResult>)
        ensures
            r matches Some(v) ==> cache_get(self.spec_cache(), lower_of(name@)) == Some(v@),
            r is None ==> cache_get(self.spec_cache(), lower_of(name@)) is None,
    {
        let lname = to_lowercase(name);
        let n = self.cache.len();
        let mut i: usize = 0;
        proof {
            assert(self.cache@.skip(0) =~= self.cache@);
        }
        while i < n
            invariant
                0 <= i <= n,
                n == self.cache@.len(),
                lname@ == lower_of(name@),
                cache_get(self.cache@, lower_of(name@)) == cache_get(self.cache@.skip(i as int),
                    lower_of(name@)),
            decreases n - i,
        {
            proof {
                assert(self.cache@.skip(i as int).first() == self.cache@[i as int]);
                assert(self.cache@.skip(i as int).drop_first() =~= self.cache@.skip(
                    i as int + 1));
            }
            if str_eq(self.cache[i].0.as_str(), lname.as_str()) {
                assert(cache_get(self.cache@, lower_of(name@)) == Some(
                    self.cache@[i as int].1@));
                return Some(clone_result(&self.cache[i].1));
            }
            i += 1;
        }
        proof {
            assert(self.cache@.skip(n as int) =~= Seq::<(String, VerificationResult)>::empty());
        }
        None
    }

    /// File a settled result under the lowercased name: a later lookup finds
    /// exactly this result; every other name's entry is untouched.
    pub fn insert_cached(&mut self, name: &str, result: &VerificationResult)
        ensures
            cache_get(final(self).spec_cache(), lower_of(name@)) == Some(result@),
            forall|k2: Seq<char>| k2 != lower_of(name@) ==> #[trigger] cache_get(
                final(self).spec_cache(), k2) == cache_get(old(self).spec_cache(), k2),
            final(self).spec_pending() == old(self).spec_pending(),
            final(self).spec_channel() == old(self).spec_channel(),
    {
        let lname = to_lowercase(name);
        let n = self.cache.len();
        let ghost key = lower_of(name@);
        let mut i: usize = 0;
        while i < n
            invariant
                0 <= i <= n,
                self == old(self),
                n == self.cache@.len(),
                lname@ == key,
                key == lower_of(name@),
                forall|j: int| 0 <= j < i ==> (#[trigger] self.cache@[j].0)@ != key,
            decreases n - i,
        {
            if str_eq(self.cache[i].0.as_str(), lname.as_str()) {
                let fresh = (String::from_str(lname.as_str()), clone_result(result));
                let ghost pre = self.cache@;
                let removed = self.cache.remove(i);
                self.cache.insert(i, fresh);
                proof {
                    assert(self.cache@ =~= pre.update(i as int, fresh));
                    lemma_cache_get_update(pre, i as int, fresh, key, key);
                    assert forall|k2: Seq<char>| k2 != key implies #[trigger] cache_get(
                        final(self).spec_cache(), k2) == cache_get(old(self).spec_cache(),
                        k2) by {
                        lemma_cache_get_update(pre, i as int, fresh, key, k2);
                    }
                }
                return;
            }
            i += 1;
        }
        let fresh = (String::from_str(lname.as_str()), clone_result(result));
        let ghost pre = self.cache@;
        self.cache.push(fresh);
        proof {
            assert(self.cache@ =~= pre.push(fresh));
            lemma_cache_get_absent(pre, key);
            lemma_cache_get_push(pre, fresh, key);
            assert forall|k2: Seq<char>| k2 != key implies #[trigger] cache_get(
                final(self).spec_cache(), k2) == cache_get(old(self).spec_cache(), k2) by {
                lemma_cache_get_push(pre, fresh, k2);
            }
        }
    }

    /// Forget every settled result.
    pub fn clear_cache(&mut self)
        ensures
            final(self).spec_cache() =~= Seq::<(String, VerificationResult)>::empty(),
            final(self).spec_pending() == old(self).spec_pending(),
            final(self).spec_channel() == old(self).spec_channel(),
    {
        self.cache = Vec::new();
    }

    pub fn cache_size(&self) -> (r: usize)
        ensures
            r == self.spec_cache().len(),
    {
        self.cache.len()
    }

    /// Note that a lookup for this name is in flight.
    pub fn note_pending(&mut self, name: &str)
        ensures
            final(self).spec_pending().len() == old(self).spec_pending().len() + 1,
            final(self).spec_pending().drop_last() == old(self).spec_pending(),
            final(self).spec_pending().last()@ == lower_of(name@),
            final(self).spec_cache() == old(self).spec_cache(),
            final(self).spec_channel() == old(self).spec_channel(),
    {
        let lname = to_lowercase(name);
        self.pending.push(lname);
    }

    /// Drop every in-flight lookup whose lowercased key equals `lname`; the
    /// others stay, in order.
    fn drop_pending_key(&mut self, lname: &str) -> (had: bool)
        ensures
            final(self).spec_pending() == pending_without(old(self).spec_pending(), lname@),
            had == pending_has(old(self).spec_pending(), lname@),
            final(self).spec_cache() == old(self).spec_cache(),
            final(self).spec_channel() == old(self).spec_channel(),
    {
        let ghost orig = self.pending@;
        let ghost l = lname@;
        let mut had = false;
        let mut i: usize = 0;
        let ghost mut j: int = 0;
        proof {
            reveal_with_fuel(Seq::filter, 2);
            assert(pending_without(orig.take(0), l) =~= Seq::<String>::empty());
            assert(self.pending@ =~= pending_without(orig.take(0), l) + orig.skip(0));
        }
        while i < self.pending.len()
            invariant
                0 <= j <= orig.len(),
                0 <= i,
                orig == old(self).pending@,
                l == lname@,
                self.cache == old(self).cache,
                self.verification_channel == old(self).verification_channel,
                self.pending@ =~= pending_without(orig.take(j), l) + orig.skip(j),
                pending_without(orig.take(j), l).len() == i,
                self.pending@.len() == i + orig.len() - j,
                had == pending_has(orig.take(j), l),
            decreases orig.len() - j,
        {
            proof {
                assert(0 <= j < orig.len());
                assert(orig.skip(j).first() == orig[j]);
                assert(self.pending@[i as int] == orig[j]);
                assert(orig.take(j + 1).drop_last() =~= orig.take(j));
                assert(orig.take(j + 1).last() == orig[j]);
                reveal_with_fuel(Seq::filter, 2);
            }
            if str_eq(self.pending[i].as_str(), lname) {
                let removed = self.pending.remove(i);
                had = true;
                proof {
                    assert(pending_without(orig.take(j + 1), l) =~= pending_without(
                        orig.take(j), l));
                    assert(orig.skip(j).drop_first() =~= orig.skip(j + 1));
                    assert(self.pending@ =~= pending_without(orig.take(j + 1), l) + orig.skip(
                        j + 1));
                    assert(orig.take(j + 1)[j] == orig[j]);
                    assert(pending_has(orig.take(j + 1), l));
                    j = j + 1;
                }
            } else {
                proof {
                    assert(pending_without(orig.take(j + 1), l) =~= pending_without(orig.take(j),
                        l).push(orig[j]));
                    assert(orig.skip(j).drop_first() =~= orig.skip(j + 1));
                    assert(self.pending@ =~= pending_without(orig.take(j + 1), l) + orig.skip(
                        j + 1));
                    assert(had == pending_has(orig.take(j + 1), l)) by {
                        if pending_has(orig.take(j + 1), l) && !pending_has(orig.take(j), l) {
                            let w = choose|w: int| 0 <= w < orig.take(j + 1).len() && (
                            #[trigger] orig.take(j + 1)[w])@ == l;
                            assert(orig.take(j + 1)[w] == orig[w]);
                            if w < j {
                                assert(orig.take(j)[w] == orig[w]);
                            }
                        }
                        if pending_has(orig.take(j), l) {
                            let w = choose|w: int| 0 <= w < orig.take(j).len() && (
                            #[trigger] orig.take(j)[w])@ == l;
                            assert(orig.take(j + 1)[w] == orig.take(j)[w]);
                        }
                    }
                    j = j + 1;
                }
                i += 1;
            }
        }
        proof {
            assert(j == orig.len());
            assert(orig.take(j) =~= orig);
            assert(orig.skip(j) =~= Seq::<String>::empty());
            assert(self.pending@ =~= pending_without(orig, l));
        }
        had
    }

    /// Drop an in-flight lookup by name; every other one stays, in order.
    pub fn remove_pending(&mut self, name: &str) -> (had: bool)
        ensures
            final(self).spec_pending() == pending_without(old(self).spec_pending(), lower_of(
                name@)),
            had == pending_has(old(self).spec_pending(), lower_of(name@)),
            final(self).spec_cache() == old(self).spec_cache(),
            final(self).spec_channel() == old(self).spec_channel(),
    {
        let lname = to_lowercase(name);
        self.drop_pending_key(lname.as_str())
    }

    /// Take the first in-flight lookup related to `lname` by containment in
    /// either direction; the others stay, in order.
    fn take_contained(&mut self, lname: &str) -> (r: Option<String>)
        ensures
            (match first_related_from(old(self).spec_pending(), lname@, 0) {
                Some(k) => r matches Some(p) && p == old(self).spec_pending()[k] && final(
                    self).spec_pending() == old(self).spec_pending().remove(k),
                None => r is None && final(self).spec_pending() == old(self).spec_pending(),
            }),
            final(self).spec_cache() == old(self).spec_cache(),
            final(self).spec_channel() == old(self).spec_channel(),
    {
        let n = self.pending.len();
        let mut i: usize = 0;
        let mut found = false;
        proof {
            assert(first_related_from(self.pending@, lname@, 0) == first_related_from(
                self.pending@, lname@, 0));
        }
        while !found && i < n
            invariant
                0 <= i <= n,
                self == old(self),
                n == self.pending@.len(),
                first_related_from(self.pending@, lname@, 0) == (if found {
                    Some(i as int)
                } else {
                    first_related_from(self.pending@, lname@, i as int)
                }),
                found ==> i < n,
            decreases n - i + (if found { 0int } else { 1int }),
        {
            let p = &self.pending[i];
            if contains_str(lname, p.as_str()) || contains_str(p.as_str(), lname) {
                found = true;
            } else {
                i += 1;
            }
        }
        if found {
            let taken = self.pending.remove(i);
            Some(taken)
        } else {
            assert(first_related_from(self.pending@, lname@, n as int) is None);
            None
        }
    }

    /// Match one game-bot response against the in-flight lookups: every
    /// waiter whose key is exactly the lowercased reported name resolves,
    /// and after that the earliest containment-related waiter resolves too;
    /// each resolution carries the reported canonical name, series and
    /// existence, and the resolved keys leave the in-flight set. Any other
    /// message kind changes nothing.
    pub fn handle_mudae_response(&mut self, message: &MudaeMessage) -> (resolved: Vec<(
        String,
        VerificationResult,
    )>)
        ensures
            !(*message matches MudaeMessage::CharacterInfo { .. }) ==> *final(self) == *old(self)
                && resolved@.len() == 0,
            resolved@.len() <= 2,
            final(self).spec_cache() == old(self).spec_cache(),
            final(self).spec_channel() == old(self).spec_channel(),
            *message matches MudaeMessage::CharacterInfo { name, series, exists } ==> {
                let lname = lower_of(name@);
                let had = pending_has(old(self).spec_pending(), lname);
                let remaining = pending_without(old(self).spec_pending(), lname);
                &&& resolved@.len() as int == (if had {
                    1int
                } else {
                    0int
                }) + (if first_related_from(remaining, lname, 0) is Some {
                    1int
                } else {
                    0int
                })
                &&& (had ==> (resolved@[0].0)@ == lname && response_result_ok(resolved@[0].1@,
                    name@, name@, series@, exists))
                &&& (match first_related_from(remaining, lname, 0) {
                    Some(k) => resolved@.last().0 == remaining[k] && response_result_ok(
                        resolved@.last().1@, remaining[k]@, name@, series@, exists) && final(
                        self).spec_pending() == remaining.remove(k),
                    None => final(self).spec_pending() == remaining,
                })
            },
    {
        match message {
            MudaeMessage::CharacterInfo { name, series, exists } => {
                let mut resolved: Vec<(String, VerificationResult)> = Vec::new();
                let lname = to_lowercase(name.as_str());
                let had_exact = self.drop_pending_key(lname.as_str());
                if had_exact {
                    let result = VerificationResult {
                        original_name: String::from_str(name.as_str()),
                        canonical_name: Some(String::from_str(name.as_str())),
                        series: Some(String::from_str(series.as_str())),
                        character_id: None,
                        exists: *exists,
                    };
                    resolved.push((String::from_str(lname.as_str()), result));
                }
                match self.take_contained(lname.as_str()) {
                    Some(pending_name) => {
                        let result = VerificationResult {
                            original_name: String::from_str(pending_name.as_str()),
                            canonical_name: Some(String::from_str(name.as_str())),
                            series: Some(String::from_str(series.as_str())),
                            character_id: None,
                            exists: *exists,
                        };
                        resolved.push((pending_name, result));
                    },
                    None => {},
                }
                resolved
            },
            _ => Vec::new(),
        }
    }
}

/// The verified entry a positive lookup yields: the canonical name where one
/// came back, the reported series over the requested one, verified set.
pub fn build_verified_entry(
    name: &str,
    series: Option<String>,
    result: &VerificationResult,
) -> (r: WishedCharacter)
    ensures
        r@.name == (match result.canonical_name {
            Some(cn) => cn@,
            None => name@,
        }),
        r@.series == (match result.series {
            Some(s) => Some(s@),
            None => opt_view(series),
        }),
        r@.character_id == opt_view(result.character_id),
        r@.verified == true,
        r@.priority == 0,
        r@.notes is None,
{
    let taken_name = match &result.canonical_name {
        Some(cn) => String::from_str(cn.as_str()),
        None => String::from_str(name),
    };
    let taken_series = match &result.series {
        Some(s) => Some(String::from_str(s.as_str())),
        None => series,
    };
    WishedCharacter {
        name: taken_name,
        series: taken_series,
        character_id: copy_opt_string(&result.character_id),
        verified: true,
        added_date: 0,
        notes: None,
        priority: 0,
    }
}

/// A tally of one verification pass over the store.
#[derive(Debug)]
pub struct VerificationReport {
    pub total: usize,
    pub verified: usize,
    pub failed: usize,
    pub results: Vec<VerificationResult>,
}

} // verus!
