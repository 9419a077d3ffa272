//! The preference store: wanted names with optional series qualifier,
//! case-insensitively unique, fuzzy-matched against offered names. First
//! qualifying entry wins; insertion order is significant and preserved.
use vstd::prelude::*;
use vstd::string::*;
use crate::similarity::{similar_at_least, similarity_at_least};
use crate::text::{contains_seq, contains_str, lower_of, str_eq, to_lowercase};

verus! {

/// A wanted name with its qualifiers.
#[derive(Debug, Clone)]
pub struct WishedCharacter {
    pub name: String,
    pub series: Option<String>,
    pub character_id: Option<String>,
    pub verified: bool,
    pub added_date: u64,
    pub notes: Option<String>,
    pub priority: u8,
}

/// The mathematical image of an entry: every text field as its character
/// sequence.
pub ghost struct WishView {
    pub name: Seq<char>,
    pub series: Option<Seq<char>>,
    pub character_id: Option<Seq<char>>,
    pub verified: bool,
    pub added_date: u64,
    pub notes: Option<Seq<char>>,
    pub priority: u8,
}

pub open spec fn opt_view(o: Option<String>) -> Option<Seq<char>> {
    match o {
        Some(s) => Some(s@),
        None => None,
    }
}

impl View for WishedCharacter {
    type V = WishView;

    open spec fn view(&self) -> WishView {
        WishView {
            name: self.name@,
            series: opt_view(self.series),
            character_id: opt_view(self.character_id),
            verified: self.verified,
            added_date: self.added_date,
            notes: opt_view(self.notes),
            priority: self.priority,
        }
    }
}

impl WishedCharacter {
    /// A fresh, unverified entry; the added timestamp is set when the store
    /// takes it.
    pub fn new(name: String) -> (r: Self)
        ensures
            r@.name == name@,
            r@.series is None,
            r@.character_id is None,
            r@.verified == false,
            r@.added_date == 0,
            r@.notes is None,
            r@.priority == 0,
    {
        Self {
            name,
            series: None,
            character_id: None,
            verified: false,
            added_date: 0,
            notes: None,
            priority: 0,
        }
    }

    pub fn with_series(self, series: String) -> (r: Self)
        ensures
            r@ == (WishView { series: Some(series@), ..self@ }),
    {
        Self { series: Some(series), ..self }
    }

    pub fn with_priority(self, priority: u8) -> (r: Self)
        ensures
            r@ == (WishView { priority, ..self@ }),
    {
        Self { priority, ..self }
    }

    pub fn with_notes(self, notes: String) -> (r: Self)
        ensures
            r@ == (WishView { notes: Some(notes@), ..self@ }),
    {
        Self { notes: Some(notes), ..self }
    }
}

/// Copy an optional string.
fn copy_opt_string(o: &Option<String>) -> (r: Option<String>)
    ensures
        opt_view(r) == opt_view(*o),
{
    match o {
        Some(s) => Some(String::from_str(s.as_str())),
        None => None,
    }
}

/// Copy one entry.
pub fn clone_entry(e: &WishedCharacter) -> (r: WishedCharacter)
    ensures
        r@ == e@,
{
    WishedCharacter {
        name: String::from_str(e.name.as_str()),
        series: copy_opt_string(&e.series),
        character_id: copy_opt_string(&e.character_id),
        verified: e.verified,
        added_date: e.added_date,
        notes: copy_opt_string(&e.notes),
        priority: e.priority,
    }
}

/// The stored entries as their views, in order.
pub open spec fn entries_view(cs: Seq<WishedCharacter>) -> Seq<WishView>
    decreases cs.len(),
{
    if cs.len() == 0 {
        Seq::empty()
    } else {
        entries_view(cs.drop_last()).push(cs.last()@)
    }
}

/// The views line up with the entries, index by index.
pub proof fn lemma_entries_view(cs: Seq<WishedCharacter>)
    ensures
        entries_view(cs).len() == cs.len(),
        forall|k: int| 0 <= k < cs.len() ==> #[trigger] entries_view(cs)[k] == cs[k]@,
    decreases cs.len(),
{
    if cs.len() > 0 {
        lemma_entries_view(cs.drop_last());
    }
}

/// Views of a pushed sequence: the old views with the new view at the end.
pub proof fn lemma_entries_view_push(cs: Seq<WishedCharacter>, e: WishedCharacter)
    ensures
        entries_view(cs.push(e)) == entries_view(cs).push(e@),
{
    assert(cs.push(e).drop_last() =~= cs);
    assert(cs.push(e).last() == e);
}

/// Some entry's name equals `lname` after lowercasing.
pub open spec fn has_name_ci(es: Seq<WishView>, lname: Seq<char>) -> bool {
    exists|i: int| 0 <= i < es.len() && lower_of(#[trigger] es[i].name) == lname
}

/// First index at or after `i` whose name equals `lname` after lowercasing.
pub open spec fn first_name_idx_from(es: Seq<WishView>, lname: Seq<char>, i: int) -> Option<int>
    decreases es.len() + 1 - i,
{
    if i < 0 || i >= es.len() {
        None
    } else if lower_of(es[i].name) == lname {
        Some(i)
    } else {
        first_name_idx_from(es, lname, i + 1)
    }
}
/// The in-memory preference store with its matching configuration. Callers
/// persist the serialized form after each mutation.
pub struct WishlistManager {
    characters: Vec<WishedCharacter>,
    last_updated: u64,
    fuzzy_threshold_hundredths: u32,
    fuzzy_enabled: bool,
    priority_verified: bool,
}

impl WishlistManager {
    /// The stored entries, as views, in insertion order.
    pub closed spec fn entries(&self) -> Seq<WishView> {
        entries_view(self.characters@)
    }

    pub closed spec fn spec_fuzzy_enabled(&self) -> bool {
        self.fuzzy_enabled
    }

    pub closed spec fn spec_threshold(&self) -> u32 {
        self.fuzzy_threshold_hundredths
    }

    pub closed spec fn spec_priority_verified(&self) -> bool {
        self.priority_verified
    }

    pub closed spec fn spec_last_updated(&self) -> u64 {
        self.last_updated
    }

    /// Names are case-insensitively unique.
    pub open spec fn names_unique(&self) -> bool {
        forall|i: int, j: int| 0 <= i < j < self.entries().len() ==> lower_of(
            #[trigger] self.entries()[i].name) != lower_of(#[trigger] self.entries()[j].name)
    }

    /// An empty store with the given matching configuration: the similarity
    /// threshold in hundredths, whether fuzzy matching is on, and whether
    /// verified entries list first.
    pub fn new(fuzzy_threshold_hundredths: u32, fuzzy_enabled: bool, priority_verified: bool) -> (r:
        Self)
        ensures
            r.entries() =~= Seq::<WishView>::empty(),
            r.spec_fuzzy_enabled() == fuzzy_enabled,
            r.spec_threshold() == fuzzy_threshold_hundredths,
            r.spec_priority_verified() == priority_verified,
            r.names_unique(),
    {
        let r = Self {
            characters: Vec::new(),
            last_updated: 0,
            fuzzy_threshold_hundredths,
            fuzzy_enabled,
            priority_verified,
        };
        proof {
            assert(r.entries() =~= Seq::<WishView>::empty());
        }
        r
    }

    pub fn count(&self) -> (r: usize)
        ensures
            r == self.entries().len(),
    {
        proof {
            lemma_entries_view(self.characters@);
        }
        self.characters.len()
    }

    /// Add an entry unless its name is already present case-insensitively;
    /// a taken entry gets `now` as its added timestamp. The caller persists
    /// the store when `true` comes back.
    pub fn add_character(&mut self, character: WishedCharacter, now: u64) -> (added: bool)
        ensures
            added == !has_name_ci(old(self).entries(), lower_of(character.name@)),
            added ==> final(self).entries() == old(self).entries().push(
                WishView { added_date: now, ..character@ }),
            !added ==> final(self).entries() == old(self).entries(),
            final(self).spec_fuzzy_enabled() == old(self).spec_fuzzy_enabled(),
            final(self).spec_threshold() == old(self).spec_threshold(),
            final(self).spec_priority_verified() == old(self).spec_priority_verified(),
            old(self).names_unique() ==> final(self).names_unique(),
    {
        let lname = to_lowercase(character.name.as_str());
        let n = self.characters.len();
        let mut i: usize = 0;
        while i < n
            invariant
                0 <= i <= n,
                n == self.characters@.len(),
                lname@ == lower_of(character.name@),
                forall|j: int| 0 <= j < i ==> lower_of(
                    #[trigger] entries_view(self.characters@)[j].name) != lname@,
            decreases n - i,
        {
            let stored_l = to_lowercase(self.characters[i].name.as_str());
            if str_eq(stored_l.as_str(), lname.as_str()) {
                proof {
                    lemma_entries_view(self.characters@);
                    assert(lower_of(entries_view(self.characters@)[i as int].name) == lname@);
                    assert(has_name_ci(self.entries(), lower_of(character.name@)));
                }
                return false;
            }
            proof {
                lemma_entries_view(self.characters@);
            }
            i += 1;
        }
        proof {
            lemma_entries_view(self.characters@);
            assert(!has_name_ci(self.entries(), lower_of(character.name@)));
        }
        let taken = WishedCharacter { added_date: now, ..character };
        let ghost pre = self.characters@;
        self.characters.push(taken);
        proof {
            lemma_entries_view_push(pre, taken);
            assert(taken@ == (WishView { added_date: now, ..character@ }));
            assert(final(self).entries() =~= old(self).entries().push(
                WishView { added_date: now, ..character@ }));
            lemma_entries_view(pre);
            assert forall|i2: int, j2: int|
                0 <= i2 < j2 < final(self).entries().len() && old(self).names_unique() implies
                lower_of(final(self).entries()[i2].name) != lower_of(
                final(self).entries()[j2].name) by {
                if j2 < old(self).entries().len() as int {
                } else {
                    assert(final(self).entries()[i2] == old(self).entries()[i2]);
                    assert(lower_of(old(self).entries()[i2].name) != lname@);
                }
            }
        }
        true
    }

    /// Remove every entry whose name equals `name` case-insensitively; the
    /// caller persists the store when `true` comes back.
    pub fn remove_character(&mut self, name: &str) -> (removed: bool)
        ensures
            removed == has_name_ci(old(self).entries(), lower_of(name@)),
            final(self).entries() == old(self).entries().filter(
                |e: WishView| lower_of(e.name) != lower_of(name@)),
            final(self).spec_fuzzy_enabled() == old(self).spec_fuzzy_enabled(),
            final(self).spec_threshold() == old(self).spec_threshold(),
            final(self).spec_priority_verified() == old(self).spec_priority_verified(),
    {
        let lname = to_lowercase(name);
        let n = self.characters.len();
        let mut kept: Vec<WishedCharacter> = Vec::new();
        let mut removed = false;
        let mut i: usize = 0;
        proof {
            reveal_with_fuel(Seq::filter, 2);
            assert(entries_view(self.characters@).take(0) =~= Seq::<WishView>::empty());
            assert(entries_view(kept@) =~= Seq::<WishView>::empty());
        }
        while i < n
            invariant
                0 <= i <= n,
                n == self.characters@.len(),
                lname@ == lower_of(name@),
                entries_view(kept@) =~= entries_view(self.characters@).take(i as int).filter(
                    |e: WishView| lower_of(e.name) != lower_of(name@)),
                removed == exists|j: int| 0 <= j < i && lower_of(
                    #[trigger] entries_view(self.characters@)[j].name) == lower_of(name@),
            decreases n - i,
        {
            let ghost pre = entries_view(self.characters@).take(i as int);
            let ghost post = entries_view(self.characters@).take(i as int + 1);
            proof {
                lemma_entries_view(self.characters@);
                assert(post.drop_last() =~= pre);
                assert(post.last() == entries_view(self.characters@)[i as int]);
            }
            let ghost pre_kept = kept@;
            let stored_l = to_lowercase(self.characters[i].name.as_str());
            if str_eq(stored_l.as_str(), lname.as_str()) {
                removed = true;
            } else {
                let e = clone_entry(&self.characters[i]);
                kept.push(e);
                proof {
                    lemma_entries_view_push(pre_kept, e);
                }
            }
            proof {
                reveal_with_fuel(Seq::filter, 2);
                assert(post.filter(|e: WishView| lower_of(e.name) != lower_of(name@))
                    =~= entries_view(kept@));
            }
            i += 1;
        }
        proof {
            lemma_entries_view(self.characters@);
            assert(entries_view(self.characters@).take(n as int) =~= entries_view(
                self.characters@));
        }
        self.characters = kept;
        removed
    }

    /// Entry views of a copied listing equal the stored ones.
    pub fn get_characters(&self) -> (r: Vec<WishedCharacter>)
        ensures
            entries_view(r@) =~= self.entries(),
    {
        let n = self.characters.len();
        let mut out: Vec<WishedCharacter> = Vec::new();
        let mut i: usize = 0;
        while i < n
            invariant
                0 <= i <= n,
                n == self.characters@.len(),
                entries_view(out@) =~= entries_view(self.characters@).take(i as int),
            decreases n - i,
        {
            let ghost pre_out = out@;
            let e = clone_entry(&self.characters[i]);
            out.push(e);
            proof {
                lemma_entries_view_push(pre_out, e);
                lemma_entries_view(self.characters@);
                let post = entries_view(self.characters@).take(i as int + 1);
                assert(post.drop_last() =~= entries_view(self.characters@).take(i as int));
                assert(post.last() == entries_view(self.characters@)[i as int]);
                assert(entries_view(out@) =~= entries_view(self.characters@).take(i as int + 1));
            }
            i += 1;
        }
        proof {
            lemma_entries_view(self.characters@);
            assert(entries_view(self.characters@).take(n as int) =~= entries_view(
                self.characters@));
        }
        out
    }
}

/// Listing order: verified entries first and higher priority first when the
/// store prefers verified entries, else higher priority first alone.
pub open spec fn listed_before(priority_verified: bool, a: WishView, b: WishView) -> bool {
    if priority_verified {
        (a.verified && !b.verified) || (a.verified == b.verified && a.priority >= b.priority)
    } else {
        a.priority >= b.priority
    }
}

/// The listing order is total and transitive.
pub proof fn lemma_listed_before_order(priority_verified: bool, a: WishView, b: WishView, c: WishView)
    ensures
        listed_before(priority_verified, a, b) || listed_before(priority_verified, b, a),
        listed_before(priority_verified, a, b) && listed_before(priority_verified, b, c)
            ==> listed_before(priority_verified, a, c),
{
}

/// The listing order, decided on the stored fields.
fn listed_before_exec(priority_verified: bool, a: &WishedCharacter, b: &WishedCharacter) -> (r:
    bool)
    ensures
        r == listed_before(priority_verified, a@, b@),
{
    if priority_verified {
        (a.verified && !b.verified) || (a.verified == b.verified && a.priority >= b.priority)
    } else {
        a.priority >= b.priority
    }
}

impl WishlistManager {
    /// The entries ordered for listing: a permutation of the store, sorted
    /// under the configured order.
    pub fn get_all(&self) -> (r: Vec<WishedCharacter>)
        ensures
            entries_view(r@).to_multiset() == self.entries().to_multiset(),
            forall|i: int, j: int| 0 <= i < j < entries_view(r@).len() ==> listed_before(
                self.spec_priority_verified(), #[trigger] entries_view(r@)[i],
                #[trigger] entries_view(r@)[j]),
    {
        let n = self.characters.len();
        let ghost pv = self.spec_priority_verified();
        let ghost whole = self.entries();
        let mut out: Vec<WishedCharacter> = Vec::new();
        proof {
            lemma_entries_view(self.characters@);
            assert(entries_view(out@) =~= Seq::<WishView>::empty());
            assert(whole.take(0) =~= Seq::<WishView>::empty());
            Seq::<WishView>::empty().to_multiset_ensures();
            whole.take(0).to_multiset_ensures();
            assert(entries_view(out@).to_multiset() =~= whole.take(0).to_multiset());
        }
        let mut i: usize = 0;
        while i < n
            invariant
                0 <= i <= n,
                n == self.characters@.len(),
                pv == self.spec_priority_verified(),
                whole == self.entries(),
                whole.len() == n,
                forall|k: int| 0 <= k < n ==> #[trigger] whole[k] == self.characters@[k]@,
                out@.len() == i,
                entries_view(out@).len() == i,
                forall|k: int| 0 <= k < i ==> #[trigger] entries_view(out@)[k] == out@[k]@,
                entries_view(out@).to_multiset() == whole.take(i as int).to_multiset(),
                forall|a: int, b: int| 0 <= a < b < i ==> listed_before(pv,
                    #[trigger] entries_view(out@)[a], #[trigger] entries_view(out@)[b]),
            decreases n - i,
        {
            let e = clone_entry(&self.characters[i]);
            let m = out.len();
            let mut pos: usize = 0;
            let mut stop = false;
            while !stop && pos < m
                invariant
                    0 <= pos <= m,
                    m == out@.len(),
                    e@ == self.characters@[i as int]@,
                    0 <= i < n,
                    n == self.characters@.len(),
                    entries_view(out@).len() == m,
                    forall|k: int| 0 <= k < m ==> #[trigger] entries_view(out@)[k] == out@[k]@,
                    forall|j: int| 0 <= j < pos ==> listed_before(pv,
                        #[trigger] entries_view(out@)[j], e@),
                    stop ==> pos < m && !listed_before(pv, entries_view(out@)[pos as int], e@),
                    pv == self.spec_priority_verified(),
                decreases m - pos + (if stop { 0int } else { 1int }),
            {
                if listed_before_exec(self.priority_verified, &out[pos], &e) {
                    pos += 1;
                } else {
                    stop = true;
                }
            }
            let ghost pre_out = out@;
            let ghost ev_pre = entries_view(pre_out);
            out.insert(pos, e);
            proof {
                let evi = ev_pre.take(pos as int) + seq![e@] + ev_pre.skip(pos as int);
                lemma_entries_view(out@);
                assert(entries_view(out@) =~= evi);
                assert(evi.remove(pos as int) =~= ev_pre);
                evi.to_multiset_ensures();
                ev_pre.to_multiset_ensures();
                assert(evi[pos as int] == e@);
                assert(evi.remove(pos as int).to_multiset() =~= evi.to_multiset().remove(e@));
                assert(evi.contains(e@));
                assert(evi.to_multiset().count(e@) > 0);
                assert(evi.to_multiset() =~= ev_pre.to_multiset().insert(e@));
                let pre_take = whole.take(i as int);
                let post_take = whole.take(i as int + 1);
                assert(post_take.drop_last() =~= pre_take);
                assert(post_take =~= pre_take.push(whole[i as int]));
                pre_take.to_multiset_ensures();
                assert(post_take.to_multiset() =~= pre_take.to_multiset().insert(
                    whole[i as int]));
                assert(entries_view(out@).to_multiset() =~= post_take.to_multiset());
                assert forall|a: int, b: int| 0 <= a < b < evi.len() implies listed_before(pv,
                    #[trigger] evi[a], #[trigger] evi[b]) by {
                    if b < pos {
                    } else if a < pos && b == pos {
                        assert(evi[a] == ev_pre[a]);
                        assert(listed_before(pv, ev_pre[a], e@));
                    } else if a < pos && b > pos {
                        assert(evi[a] == ev_pre[a]);
                        assert(evi[b] == ev_pre[b - 1]);
                    } else if a == pos && b > pos {
                        assert(evi[b] == ev_pre[b - 1]);
                        if pos < ev_pre.len() {
                            lemma_listed_before_order(pv, evi[pos as int], ev_pre[pos as int],
                                ev_pre[b - 1]);
                            lemma_listed_before_order(pv, ev_pre[pos as int], evi[pos as int],
                                ev_pre[b - 1]);
                            if b - 1 > pos {
                                assert(listed_before(pv, ev_pre[pos as int], ev_pre[b - 1]));
                            }
                        }
                    } else {
                        assert(evi[a] == ev_pre[a - 1]);
                        assert(evi[b] == ev_pre[b - 1]);
                    }
                }
            }
            i += 1;
        }
        proof {
            assert(whole.take(n as int) =~= whole);
        }
        out
    }

    /// The entries whose name or series holds the query, case-insensitively,
    /// in order.
    pub fn search(&self, query: &str) -> (r: Vec<WishedCharacter>)
        ensures
            entries_view(r@) == self.entries().filter(|e: WishView| contains_seq(lower_of(e.name),
                lower_of(query@)) || (e.series matches Some(s) && contains_seq(lower_of(s),
                lower_of(query@)))),
    {
        let lquery = to_lowercase(query);
        let n = self.characters.len();
        let mut out: Vec<WishedCharacter> = Vec::new();
        proof {
            lemma_entries_view(self.characters@);
            reveal_with_fuel(Seq::filter, 2);
            assert(self.entries().take(0) =~= Seq::<WishView>::empty());
            assert(entries_view(out@) =~= Seq::<WishView>::empty());
        }
        let mut i: usize = 0;
        while i < n
            invariant
                0 <= i <= n,
                n == self.characters@.len(),
                lquery@ == lower_of(query@),
                self.entries().len() == n,
                forall|k: int| 0 <= k < n ==> #[trigger] self.entries()[k]
                    == self.characters@[k]@,
                entries_view(out@) =~= self.entries().take(i as int).filter(
                    |e: WishView| contains_seq(lower_of(e.name), lower_of(query@)) || (
                    e.series matches Some(s) && contains_seq(lower_of(s), lower_of(query@)))),
            decreases n - i,
        {
            let ghost pre = self.entries().take(i as int);
            let ghost post = self.entries().take(i as int + 1);
            proof {
                assert(post.drop_last() =~= pre);
                assert(post.last() == self.entries()[i as int]);
            }
            let ghost pre_out = out@;
            let c = &self.characters[i];
            let lname = to_lowercase(c.name.as_str());
            let name_hit = contains_str(lname.as_str(), lquery.as_str());
            let series_hit = match &c.series {
                Some(sr) => {
                    let ls = to_lowercase(sr.as_str());
                    contains_str(ls.as_str(), lquery.as_str())
                },
                None => false,
            };
            if name_hit || series_hit {
                let e = clone_entry(c);
                out.push(e);
                proof {
                    lemma_entries_view_push(pre_out, e);
                }
            }
            proof {
                reveal_with_fuel(Seq::filter, 2);
                assert(post.filter(|e: WishView| contains_seq(lower_of(e.name), lower_of(
                    query@)) || (e.series matches Some(s) && contains_seq(lower_of(s), lower_of(
                    query@)))) =~= entries_view(out@));
            }
            i += 1;
        }
        proof {
            assert(self.entries().take(n as int) =~= self.entries());
        }
        out
    }
}

/// What a bulk import leaves in the store: each incoming entry in turn is
/// appended unless its name is already present case-insensitively.
pub open spec fn import_fold(es: Seq<WishView>, cs: Seq<WishView>) -> Seq<WishView>
    decreases cs.len(),
{
    if cs.len() == 0 {
        es
    } else {
        let pre = import_fold(es, cs.drop_last());
        if has_name_ci(pre, lower_of(cs.last().name)) {
            pre
        } else {
            pre.push(cs.last())
        }
    }
}

impl WishlistManager {
    /// Take entries over in bulk, skipping names already present; the count
    /// actually added comes back.
    pub fn import(&mut self, characters: Vec<WishedCharacter>) -> (added: usize)
        ensures
            final(self).entries() == import_fold(old(self).entries(), entries_view(characters@)),
            added == final(self).entries().len() - old(self).entries().len(),
            final(self).spec_fuzzy_enabled() == old(self).spec_fuzzy_enabled(),
            final(self).spec_threshold() == old(self).spec_threshold(),
            final(self).spec_priority_verified() == old(self).spec_priority_verified(),
    {
        let n = characters.len();
        proof {
            lemma_entries_view(characters@);
            lemma_entries_view(self.characters@);
            assert(entries_view(characters@).take(0) =~= Seq::<WishView>::empty());
        }
        let ghost cs = entries_view(characters@);
        let ghost start = self.entries();
        let mut i: usize = 0;
        let mut added: usize = 0;
        while i < n
            invariant
                0 <= i <= n,
                n == characters@.len(),
                cs == entries_view(characters@),
                cs.len() == n,
                forall|k: int| 0 <= k < n ==> #[trigger] cs[k] == characters@[k]@,
                self.entries() == import_fold(start, cs.take(i as int)),
                self.entries().len() == start.len() + added,
                added <= i,
                self.fuzzy_enabled == old(self).fuzzy_enabled,
                self.fuzzy_threshold_hundredths == old(self).fuzzy_threshold_hundredths,
                self.priority_verified == old(self).priority_verified,
                start == old(self).entries(),
            decreases n - i,
        {
            let ghost pre_take = cs.take(i as int);
            let ghost post_take = cs.take(i as int + 1);
            proof {
                assert(post_take.drop_last() =~= pre_take);
                assert(post_take.last() == cs[i as int]);
            }
            let c = clone_entry(&characters[i]);
            let lname = to_lowercase(c.name.as_str());
            let m = self.characters.len();
            proof {
                lemma_entries_view(self.characters@);
            }
            let mut j: usize = 0;
            let mut exists_already = false;
            while !exists_already && j < m
                invariant
                    0 <= j <= m,
                    m == self.characters@.len(),
                    self.entries().len() == m,
                    lname@ == lower_of(c@.name),
                    forall|k: int| 0 <= k < m ==> #[trigger] self.entries()[k]
                        == self.characters@[k]@,
                    !exists_already ==> forall|k: int| 0 <= k < j ==> lower_of(
                        #[trigger] self.entries()[k].name) != lname@,
                    exists_already ==> has_name_ci(self.entries(), lower_of(c@.name)),
                decreases m - j + (if exists_already { 0int } else { 1int }),
            {
                let stored_l = to_lowercase(self.characters[j].name.as_str());
                if str_eq(stored_l.as_str(), lname.as_str()) {
                    exists_already = true;
                    proof {
                        assert(lower_of(self.entries()[j as int].name) == lname@);
                    }
                } else {
                    j += 1;
                }
            }
            if exists_already {
                proof {
                    assert(import_fold(start, post_take) == import_fold(start, pre_take));
                }
            } else {
                assert(!has_name_ci(self.entries(), lower_of(c@.name)));
                let ghost pre_chars = self.characters@;
                self.characters.push(c);
                added += 1;
                proof {
                    lemma_entries_view_push(pre_chars, c);
                    assert(import_fold(start, post_take) == import_fold(start, pre_take).push(
                        cs[i as int]));
                }
            }
            i += 1;
        }
        proof {
            assert(cs.take(n as int) =~= cs);
        }
        added
    }
}

impl WishlistManager {
    /// Borrow the stored entries for serialization.
    pub fn characters_ref(&self) -> (r: &Vec<WishedCharacter>)
        ensures
            entries_view(r@) == self.entries(),
    {
        &self.characters
    }

    pub fn last_updated(&self) -> (r: u64)
        ensures
            r == self.spec_last_updated(),
    {
        self.last_updated
    }

    /// Stamp the store; done before each save.
    pub fn set_last_updated(&mut self, now: u64)
        ensures
            final(self).spec_last_updated() == now,
            final(self).entries() == old(self).entries(),
            final(self).spec_fuzzy_enabled() == old(self).spec_fuzzy_enabled(),
            final(self).spec_threshold() == old(self).spec_threshold(),
            final(self).spec_priority_verified() == old(self).spec_priority_verified(),
    {
        self.last_updated = now;
    }

    /// Replace the whole store with loaded entries; the matching
    /// configuration stays.
    pub fn replace_entries(&mut self, characters: Vec<WishedCharacter>, last_updated: u64)
        ensures
            final(self).entries() == entries_view(characters@),
            final(self).spec_last_updated() == last_updated,
            final(self).spec_fuzzy_enabled() == old(self).spec_fuzzy_enabled(),
            final(self).spec_threshold() == old(self).spec_threshold(),
            final(self).spec_priority_verified() == old(self).spec_priority_verified(),
    {
        self.characters = characters;
        self.last_updated = last_updated;
    }
}

/// The entry's name matches the candidate: equal after lowercasing, or — with
/// fuzzy matching on — similar enough.
pub open spec fn wanted_name_ok(e: WishView, lname: Seq<char>, fuzzy: bool, th: u32) -> bool {
    lower_of(e.name) == lname || (fuzzy && similar_at_least(lower_of(e.name), lname, th))
}

/// The entry's series accepts the candidate series: a stored series matches an
/// offered one case-insensitively or — fuzzy — by similarity; an absent stored
/// series is a wildcard, and an absent offered series is always accepted.
pub open spec fn wanted_series_ok(e: WishView, sv: Option<Seq<char>>, fuzzy: bool, th: u32) -> bool {
    match (e.series, sv) {
        (Some(ws), Some(rs)) => lower_of(ws) == lower_of(rs) || (fuzzy && similar_at_least(
            lower_of(ws), lower_of(rs), th)),
        (None, _) => true,
        (Some(_), None) => true,
    }
}

pub open spec fn entry_wanted(e: WishView, lname: Seq<char>, sv: Option<Seq<char>>, fuzzy: bool, th: u32) -> bool {
    wanted_name_ok(e, lname, fuzzy, th) && wanted_series_ok(e, sv, fuzzy, th)
}

/// First index at or after `i` of an entry that matches name and series.
pub open spec fn first_wanted_from(
    es: Seq<WishView>,
    lname: Seq<char>,
    sv: Option<Seq<char>>,
    fuzzy: bool,
    th: u32,
    i: int,
) -> Option<int>
    decreases es.len() + 1 - i,
{
    if i < 0 || i >= es.len() {
        None
    } else if entry_wanted(es[i], lname, sv, fuzzy, th) {
        Some(i)
    } else {
        first_wanted_from(es, lname, sv, fuzzy, th, i + 1)
    }
}

pub proof fn lemma_first_wanted_from(
    es: Seq<WishView>,
    lname: Seq<char>,
    sv: Option<Seq<char>>,
    fuzzy: bool,
    th: u32,
    i: int,
)
    requires
        0 <= i,
    ensures
        first_wanted_from(es, lname, sv, fuzzy, th, i) matches Some(k) ==> i <= k < es.len()
            && entry_wanted(es[k], lname, sv, fuzzy, th) && forall|j: int|
            i <= j < k ==> !entry_wanted(#[trigger] es[j], lname, sv, fuzzy, th),
        first_wanted_from(es, lname, sv, fuzzy, th, i) is None ==> forall|j: int|
            i <= j < es.len() ==> !entry_wanted(#[trigger] es[j], lname, sv, fuzzy, th),
    decreases es.len() + 1 - i,
{
    if i < 0 || i >= es.len() {
    } else if entry_wanted(es[i], lname, sv, fuzzy, th) {
    } else {
        lemma_first_wanted_from(es, lname, sv, fuzzy, th, i + 1);
    }
}

/// The view of the series argument handed to `is_wished`.
pub open spec fn series_arg_view(series: Option<&str>) -> Option<Seq<char>> {
    match series {
        Some(s) => Some(s@),
        None => None,
    }
}

impl WishlistManager {
    /// The first stored entry, in insertion order, that matches the offered
    /// name and series under the store's matching configuration.
    pub fn is_wished(&self, name: &str, series: Option<&str>) -> (r: Option<WishedCharacter>)
        ensures
            r matches Some(c) ==> first_wanted_from(self.entries(), lower_of(name@),
                series_arg_view(series), self.spec_fuzzy_enabled(), self.spec_threshold(), 0)
                matches Some(k) && c@ == self.entries()[k],
            r is None ==> first_wanted_from(self.entries(), lower_of(name@),
                series_arg_view(series), self.spec_fuzzy_enabled(), self.spec_threshold(), 0)
                is None,
    {
        let lname = to_lowercase(name);
        let ghost lnm = lower_of(name@);
        let ghost sv = series_arg_view(series);
        let ghost fz = self.spec_fuzzy_enabled();
        let ghost th = self.spec_threshold();
        let n = self.characters.len();
        proof {
            lemma_entries_view(self.characters@);
        }
        let mut i: usize = 0;
        while i < n
            invariant
                0 <= i <= n,
                n == self.characters@.len(),
                lname@ == lnm,
                lnm == lower_of(name@),
                sv == series_arg_view(series),
                fz == self.spec_fuzzy_enabled(),
                th == self.spec_threshold(),
                self.entries().len() == n,
                first_wanted_from(self.entries(), lnm, sv, fz, th, 0) == first_wanted_from(
                    self.entries(), lnm, sv, fz, th, i as int),
                forall|k: int| 0 <= k < self.characters@.len()
                    ==> #[trigger] self.entries()[k] == self.characters@[k]@,
            decreases n - i,
        {
            let e = &self.characters[i];
            let stored_l = to_lowercase(e.name.as_str());
            let name_ok = str_eq(stored_l.as_str(), lname.as_str()) || (self.fuzzy_enabled
                && similarity_at_least(
                stored_l.as_str(), lname.as_str(), self.fuzzy_threshold_hundredths));
            assert(name_ok == wanted_name_ok(e@, lnm, fz, th));
            let ok = if name_ok {
                match (&e.series, series) {
                    (Some(ws), Some(rs)) => {
                        let wl = to_lowercase(ws.as_str());
                        let rl = to_lowercase(rs);
                        str_eq(wl.as_str(), rl.as_str()) || (self.fuzzy_enabled
                            && similarity_at_least(
                            wl.as_str(), rl.as_str(), self.fuzzy_threshold_hundredths))
                    },
                    _ => true,
                }
            } else {
                false
            };
            assert(ok == entry_wanted(e@, lnm, sv, fz, th));
            if ok {
                assert(first_wanted_from(self.entries(), lnm, sv, fz, th, i as int)
                    == Some(i as int));
                return Some(clone_entry(e));
            }
            i += 1;
        }
        None
    }
}

/// The entry as a verification update leaves it: verified set, and the
/// canonical name, series and id taken over where given.
pub open spec fn verification_update(
    e: WishView,
    verified: bool,
    canonical_name: Option<Seq<char>>,
    series: Option<Seq<char>>,
    character_id: Option<Seq<char>>,
) -> WishView {
    WishView {
        verified,
        name: match canonical_name {
            Some(cn) => cn,
            None => e.name,
        },
        series: match series {
            Some(s) => Some(s),
            None => e.series,
        },
        character_id: match character_id {
            Some(id) => Some(id),
            None => e.character_id,
        },
        ..e
    }
}

impl WishlistManager {
    /// Mark the first entry whose name matches case-insensitively as
    /// verified (or not), taking over the canonical name, series and id the
    /// verification reported. `false` when no entry matches.
    pub fn update_character_verification(
        &mut self,
        name: &str,
        verified: bool,
        canonical_name: Option<String>,
        series: Option<String>,
        character_id: Option<String>,
    ) -> (found: bool)
        ensures
            found == (first_name_idx_from(old(self).entries(), lower_of(name@), 0) is Some),
            first_name_idx_from(old(self).entries(), lower_of(name@), 0) matches Some(k)
                ==> final(self).entries() == old(self).entries().update(k, verification_update(
                old(self).entries()[k], verified, opt_view(canonical_name), opt_view(series),
                opt_view(character_id))),
            first_name_idx_from(old(self).entries(), lower_of(name@), 0) is None
                ==> final(self).entries() == old(self).entries(),
            final(self).spec_fuzzy_enabled() == old(self).spec_fuzzy_enabled(),
            final(self).spec_threshold() == old(self).spec_threshold(),
            final(self).spec_priority_verified() == old(self).spec_priority_verified(),
    {
        let lname = to_lowercase(name);
        let n = self.characters.len();
        proof {
            lemma_entries_view(self.characters@);
        }
        let mut i: usize = 0;
        while i < n
            invariant
                0 <= i <= n,
                self == old(self),
                n == self.characters@.len(),
                lname@ == lower_of(name@),
                self.entries().len() == n,
                first_name_idx_from(self.entries(), lower_of(name@), 0) == first_name_idx_from(
                    self.entries(), lower_of(name@), i as int),
                forall|k: int| 0 <= k < self.characters@.len()
                    ==> #[trigger] self.entries()[k] == self.characters@[k]@,
            decreases n - i,
        {
            let stored_l = to_lowercase(self.characters[i].name.as_str());
            if str_eq(stored_l.as_str(), lname.as_str()) {
                assert(first_name_idx_from(self.entries(), lower_of(name@), i as int)
                    == Some(i as int));
                let e = clone_entry(&self.characters[i]);
                let updated = WishedCharacter {
                    verified,
                    name: match canonical_name {
                        Some(cn) => cn,
                        None => e.name,
                    },
                    series: match series {
                        Some(s) => Some(s),
                        None => e.series,
                    },
                    character_id: match character_id {
                        Some(id) => Some(id),
                        None => e.character_id,
                    },
                    ..e
                };
                let ghost pre = self.characters@;
                let removed = self.characters.remove(i);
                self.characters.insert(i, updated);
                proof {
                    assert(self.characters@ =~= pre.update(i as int, updated));
                    lemma_entries_view(self.characters@);
                    assert(final(self).entries() =~= old(self).entries().update(
                        i as int, verification_update(old(self).entries()[i as int], verified,
                        opt_view(canonical_name), opt_view(series), opt_view(character_id))));
                }
                return true;
            }
            i += 1;
        }
        false
    }

    /// Set the priority of the first entry whose name matches
    /// case-insensitively; `false` when no entry matches.
    pub fn set_priority(&mut self, name: &str, priority: u8) -> (found: bool)
        ensures
            found == (first_name_idx_from(old(self).entries(), lower_of(name@), 0) is Some),
            first_name_idx_from(old(self).entries(), lower_of(name@), 0) matches Some(k)
                ==> final(self).entries() == old(self).entries().update(k, (WishView {
                priority,
                ..old(self).entries()[k]
            })),
            first_name_idx_from(old(self).entries(), lower_of(name@), 0) is None
                ==> final(self).entries() == old(self).entries(),
            final(self).spec_fuzzy_enabled() == old(self).spec_fuzzy_enabled(),
            final(self).spec_threshold() == old(self).spec_threshold(),
            final(self).spec_priority_verified() == old(self).spec_priority_verified(),
    {
        let lname = to_lowercase(name);
        let n = self.characters.len();
        proof {
            lemma_entries_view(self.characters@);
        }
        let mut i: usize = 0;
        while i < n
            invariant
                0 <= i <= n,
                self == old(self),
                n == self.characters@.len(),
                lname@ == lower_of(name@),
                self.entries().len() == n,
                first_name_idx_from(self.entries(), lower_of(name@), 0) == first_name_idx_from(
                    self.entries(), lower_of(name@), i as int),
                forall|k: int| 0 <= k < self.characters@.len()
                    ==> #[trigger] self.entries()[k] == self.characters@[k]@,
            decreases n - i,
        {
            let stored_l = to_lowercase(self.characters[i].name.as_str());
            if str_eq(stored_l.as_str(), lname.as_str()) {
                assert(first_name_idx_from(self.entries(), lower_of(name@), i as int)
                    == Some(i as int));
                let e = clone_entry(&self.characters[i]);
                let updated = WishedCharacter { priority, ..e };
                let ghost pre = self.characters@;
                let removed = self.characters.remove(i);
                self.characters.insert(i, updated);
                proof {
                    assert(self.characters@ =~= pre.update(i as int, updated));
                    lemma_entries_view(self.characters@);
                    assert(final(self).entries() =~= old(self).entries().update(i as int,
                        (WishView { priority, ..old(self).entries()[i as int] })));
                }
                return true;
            }
            i += 1;
        }
        false
    }

    /// All entries that are not verified yet, in order.
    pub fn get_unverified(&self) -> (r: Vec<WishedCharacter>)
        ensures
            entries_view(r@) == self.entries().filter(|e: WishView| !e.verified),
    {
        let n = self.characters.len();
        let mut out: Vec<WishedCharacter> = Vec::new();
        proof {
            lemma_entries_view(self.characters@);
            reveal_with_fuel(Seq::filter, 2);
            assert(self.entries().take(0) =~= Seq::<WishView>::empty());
            assert(entries_view(out@) =~= Seq::<WishView>::empty());
        }
        let mut i: usize = 0;
        while i < n
            invariant
                0 <= i <= n,
                n == self.characters@.len(),
                self.entries().len() == n,
                forall|k: int| 0 <= k < self.characters@.len()
                    ==> #[trigger] self.entries()[k] == self.characters@[k]@,
                entries_view(out@) =~= self.entries().take(i as int).filter(
                    |e: WishView| !e.verified),
            decreases n - i,
        {
            let ghost pre = self.entries().take(i as int);
            let ghost post = self.entries().take(i as int + 1);
            proof {
                assert(post.drop_last() =~= pre);
                assert(post.last() == self.entries()[i as int]);
            }
            let ghost pre_out = out@;
            if !self.characters[i].verified {
                let e = clone_entry(&self.characters[i]);
                out.push(e);
                proof {
                    lemma_entries_view_push(pre_out, e);
                }
            }
            proof {
                reveal_with_fuel(Seq::filter, 2);
                assert(post.filter(|e: WishView| !e.verified) =~= entries_view(out@));
            }
            i += 1;
        }
        proof {
            assert(self.entries().take(n as int) =~= self.entries());
        }
        out
    }

    /// All verified entries, in order.
    pub fn get_verified(&self) -> (r: Vec<WishedCharacter>)
        ensures
            entries_view(r@) == self.entries().filter(|e: WishView| e.verified),
    {
        let n = self.characters.len();
        let mut out: Vec<WishedCharacter> = Vec::new();
        proof {
            lemma_entries_view(self.characters@);
            reveal_with_fuel(Seq::filter, 2);
            assert(self.entries().take(0) =~= Seq::<WishView>::empty());
            assert(entries_view(out@) =~= Seq::<WishView>::empty());
        }
        let mut i: usize = 0;
        while i < n
            invariant
                0 <= i <= n,
                n == self.characters@.len(),
                self.entries().len() == n,
                forall|k: int| 0 <= k < self.characters@.len()
                    ==> #[trigger] self.entries()[k] == self.characters@[k]@,
                entries_view(out@) =~= self.entries().take(i as int).filter(
                    |e: WishView| e.verified),
            decreases n - i,
        {
            let ghost pre = self.entries().take(i as int);
            let ghost post = self.entries().take(i as int + 1);
            proof {
                assert(post.drop_last() =~= pre);
                assert(post.last() == self.entries()[i as int]);
            }
            let ghost pre_out = out@;
            if self.characters[i].verified {
                let e = clone_entry(&self.characters[i]);
                out.push(e);
                proof {
                    lemma_entries_view_push(pre_out, e);
                }
            }
            proof {
                reveal_with_fuel(Seq::filter, 2);
                assert(post.filter(|e: WishView| e.verified) =~= entries_view(out@));
            }
            i += 1;
        }
        proof {
            assert(self.entries().take(n as int) =~= self.entries());
        }
        out
    }

    /// Remove every entry; the count removed comes back.
    pub fn clear(&mut self) -> (count: usize)
        ensures
            count == old(self).entries().len(),
            final(self).entries() =~= Seq::<WishView>::empty(),
            final(self).spec_fuzzy_enabled() == old(self).spec_fuzzy_enabled(),
            final(self).spec_threshold() == old(self).spec_threshold(),
            final(self).spec_priority_verified() == old(self).spec_priority_verified(),
    {
        proof {
            lemma_entries_view(self.characters@);
        }
        let count = self.characters.len();
        self.characters = Vec::new();
        count
    }
}

} // verus!
