//! Fuzzy name index over the cache's channel collection: an exact sorted
//! mapping of name to identifier, compiled into a searchable automaton
//! structure (an FST). The compiled structure is always a pure function of
//! the exact mapping at the moment it was last rebuilt; it may be stale
//! relative to the cache, never inconsistent with its own mapping.

use fst::automaton::Automaton;
use fst::IntoStreamer;
use fst::Streamer;
use vstd::prelude::*;

use crate::text::lemma_sanitize_len;
use crate::text::lemma_seq_lt_asymmetric;
use crate::text::lemma_seq_lt_irreflexive;
use crate::text::lemma_seq_lt_transitive;
use crate::text::lemma_seq_lt_trichotomy;
use crate::text::sanitize_text_channel_name;
use crate::text::seq_lt;
use crate::text::spec_sanitize;
use crate::text::str_seq_lt;

verus! {

/// Channel kind codes, as the chat protocol numbers them.
pub const KIND_GUILD_TEXT: u8 = 0;

pub const KIND_PRIVATE: u8 = 1;

pub const KIND_GROUP: u8 = 3;

pub const KIND_PUBLIC_THREAD: u8 = 11;

pub const KIND_PRIVATE_THREAD: u8 = 12;

/// The text-bearing channel kinds: standard text channel, direct message,
/// group, public and private thread.
pub open spec fn spec_is_text_channel(kind: u8) -> bool {
    kind == KIND_GUILD_TEXT || kind == KIND_PRIVATE || kind == KIND_GROUP || kind
        == KIND_PUBLIC_THREAD || kind == KIND_PRIVATE_THREAD
}

/// Determine whether a channel kind bears text.
pub fn is_text_channel(kind: u8) -> (r: bool)
    ensures
        r == spec_is_text_channel(kind),
{
    kind == KIND_GUILD_TEXT || kind == KIND_PRIVATE || kind == KIND_GROUP || kind
        == KIND_PUBLIC_THREAD || kind == KIND_PRIVATE_THREAD
}

/// What the index reads of one cached channel: its kind code, its name if
/// it has one, and its identifier.
pub struct ChannelRecord {
    pub kind: u8,
    pub name: Option<String>,
    pub id: u64,
}

/// The mathematical shadow of a [`ChannelRecord`].
pub struct ChannelRecordView {
    pub kind: u8,
    pub name: Option<Seq<char>>,
    pub id: u64,
}

impl View for ChannelRecord {
    type V = ChannelRecordView;

    open spec fn view(&self) -> ChannelRecordView {
        ChannelRecordView {
            kind: self.kind,
            name: match self.name {
                Some(n) => Some(n@),
                None => None,
            },
            id: self.id,
        }
    }
}

/// The views of a sequence of records.
pub open spec fn records_view(rs: Seq<ChannelRecord>) -> Seq<ChannelRecordView> {
    rs.map_values(|r: ChannelRecord| r@)
}

/// A record enters the index when its kind bears text and it has a name.
pub open spec fn eligible(r: ChannelRecordView) -> bool {
    spec_is_text_channel(r.kind) && r.name is Some
}

/// The mathematical shadow of the exact mapping: name and identifier pairs.
pub open spec fn pairs_view(v: Seq<(String, u64)>) -> Seq<(Seq<char>, u64)> {
    v.map_values(|p: (String, u64)| (p.0@, p.1))
}

/// Names strictly increasing: sorted, and unique.
pub open spec fn strictly_sorted(s: Seq<(Seq<char>, u64)>) -> bool {
    forall|i: int, j: int| #![trigger s[i], s[j]] 0 <= i < j < s.len() ==> seq_lt(s[i].0, s[j].0)
}

/// One name put into a sorted mapping: inserted at its place, or replacing
/// the pair that already carries the same name (the later entry wins).
pub open spec fn spec_put(s: Seq<(Seq<char>, u64)>, name: Seq<char>, id: u64) -> Seq<
    (Seq<char>, u64),
>
    decreases s.len(),
{
    if s.len() == 0 {
        seq![(name, id)]
    } else if seq_lt(name, s[0].0) {
        seq![(name, id)] + s
    } else if name == s[0].0 {
        seq![(name, id)] + s.drop_first()
    } else {
        seq![s[0]] + spec_put(s.drop_first(), name, id)
    }
}

/// The exact mapping built from a snapshot of channel records: every
/// eligible record put in, in snapshot order, so on a name collision the
/// later record's identifier wins.
pub open spec fn build_index(records: Seq<ChannelRecordView>) -> Seq<(Seq<char>, u64)>
    decreases records.len(),
{
    if records.len() == 0 {
        Seq::empty()
    } else {
        let prev = build_index(records.drop_last());
        let r = records.last();
        if eligible(r) {
            spec_put(prev, r.name.unwrap(), r.id)
        } else {
            prev
        }
    }
}

/// Whether an indexed name answers a sanitized query: it starts with the
/// query, or lies within Levenshtein edit distance one of it.
pub open spec fn matches_query(name: Seq<char>, query: Seq<char>) -> bool {
    query.is_prefix_of(name) || within_one_edit(name, query)
}

/// Levenshtein distance at most one: equal, or one substitution, or one
/// character inserted, or one character deleted.
pub open spec fn within_one_edit(a: Seq<char>, b: Seq<char>) -> bool {
    a == b || (a.len() == b.len() && exists|i: int|
        0 <= i < b.len() && a == #[trigger] b.update(i, a[i])) || (a.len() == b.len() + 1
        && exists|i: int| 0 <= i < a.len() && b == #[trigger] a.remove(i)) || (b.len() == a.len()
        + 1 && exists|i: int| 0 <= i < b.len() && a == #[trigger] b.remove(i))
}

/// What a search returns: every entry hit by the combined matcher, in index
/// order; if nothing is hit, the entire mapping instead.
pub open spec fn spec_search(entries: Seq<(Seq<char>, u64)>, raw_query: Seq<char>) -> Seq<
    (Seq<char>, u64),
> {
    let q = spec_sanitize(raw_query);
    let hits = entries.filter(|e: (Seq<char>, u64)| matches_query(e.0, q));
    if hits.len() == 0 {
        entries
    } else {
        hits
    }
}

/// Where the scan for `name` stops, `spec_put` either replaces in place or
/// splices the new pair in: `k` is the count of names strictly below `name`.
proof fn lemma_put_at(s: Seq<(Seq<char>, u64)>, name: Seq<char>, id: u64, k: int)
    requires
        0 <= k <= s.len(),
        forall|j: int| 0 <= j < k ==> seq_lt(#[trigger] s[j].0, name),
        k == s.len() || !seq_lt(s[k].0, name),
    ensures
        k < s.len() && s[k].0 == name ==> spec_put(s, name, id) == s.update(k, (name, id)),
        k == s.len() || s[k].0 != name ==> spec_put(s, name, id) == s.take(k) + seq![(name, id)]
            + s.skip(k),
    decreases k,
{
    if k == 0 {
        if s.len() == 0 {
            assert(spec_put(s, name, id) =~= s.take(0) + seq![(name, id)] + s.skip(0));
        } else if s[0].0 == name {
            lemma_seq_lt_irreflexive(name);
            assert(spec_put(s, name, id) =~= s.update(0, (name, id)));
        } else {
            lemma_seq_lt_trichotomy(name, s[0].0);
            assert(seq_lt(name, s[0].0));
            assert(spec_put(s, name, id) =~= s.take(0) + seq![(name, id)] + s.skip(0));
        }
    } else {
        let d = s.drop_first();
        lemma_seq_lt_asymmetric(s[0].0, name);
        assert forall|j: int| 0 <= j < k - 1 implies seq_lt(#[trigger] d[j].0, name) by {
            assert(d[j] == s[j + 1]);
        }
        assert(k - 1 == d.len() || !seq_lt(d[k - 1].0, name));
        lemma_put_at(d, name, id, k - 1);
        assert(spec_put(s, name, id) == seq![s[0]] + spec_put(d, name, id));
        if k < s.len() && s[k].0 == name {
            assert(d[k - 1].0 == name);
            assert(seq![s[0]] + d.update(k - 1, (name, id)) =~= s.update(k, (name, id)));
        } else {
            assert(seq![s[0]] + (d.take(k - 1) + seq![(name, id)] + d.skip(k - 1)) =~= s.take(k)
                + seq![(name, id)] + s.skip(k));
        }
    }
}

/// Put one name into the sorted mapping, keeping it sorted; an entry that
/// already carries the name is replaced, so the later record wins.
#[verifier::loop_isolation(false)]
fn sorted_put(entries: &mut Vec<(String, u64)>, name: String, id: u64)
    requires
        strictly_sorted(pairs_view(old(entries)@)),
    ensures
        pairs_view(final(entries)@) == spec_put(pairs_view(old(entries)@), name@, id),
        strictly_sorted(pairs_view(final(entries)@)),
{
    let ghost s = pairs_view(old(entries)@);
    let n = entries.len();
    let mut k: usize = 0;
    while k < n && str_seq_lt(entries[k].0.as_str(), name.as_str())
        invariant
            k <= n,
            forall|j: int| 0 <= j < k ==> seq_lt(#[trigger] s[j].0, name@),
        decreases n - k,
    {
        k += 1;
    }
    proof {
        lemma_put_at(s, name@, id, k as int);
    }
    if k < n && entries[k].0 == name {
        entries.remove(k);
        entries.insert(k, (name, id));
        proof {
            assert(pairs_view(entries@) =~= s.update(k as int, (name@, id)));
            assert forall|i: int, j: int|
                #![trigger s.update(k as int, (name@, id))[i], s.update(k as int, (name@, id))[j]]
                0 <= i < j < s.len() implies seq_lt(
                s.update(k as int, (name@, id))[i].0,
                s.update(k as int, (name@, id))[j].0,
            ) by {
                if i == k {
                    assert(seq_lt(s[i].0, s[j].0));
                } else if j == k {
                    assert(seq_lt(s[i].0, s[j].0));
                }
            }
        }
    } else {
        entries.insert(k, (name, id));
        proof {
            let t = s.take(k as int) + seq![(name@, id)] + s.skip(k as int);
            assert(pairs_view(entries@) =~= t);
            if k < n {
                lemma_seq_lt_trichotomy(name@, s[k as int].0);
            }
            assert forall|i: int, j: int| #![trigger t[i], t[j]] 0 <= i < j < t.len() implies
                seq_lt(t[i].0, t[j].0) by {
                if i < k && j < k {
                    assert(t[i] == s[i] && t[j] == s[j]);
                } else if i < k && j == k {
                    assert(t[i] == s[i]);
                } else if i < k && j > k {
                    assert(t[i] == s[i] && t[j] == s[j - 1]);
                } else if i == k && j > k {
                    assert(t[j] == s[j - 1]);
                    if j - 1 > k {
                        lemma_seq_lt_transitive(name@, s[k as int].0, s[j - 1].0);
                    }
                } else {
                    assert(t[i] == s[i - 1] && t[j] == s[j - 1]);
                }
            }
        }
    }
}

#[verifier::external_type_specification]
#[verifier::external_body]
#[verifier::reject_recursive_types(D)]
pub struct ExFstMap<D>(fst::Map<D>);

/// What the compiled structure holds: its entries, in key order. The keys
/// of a map built by this crate are UTF-8 encodings of channel names, so
/// they are modelled as character sequences.
pub uninterp spec fn fst_entries(m: fst::Map<Vec<u8>>) -> Seq<(Seq<char>, u64)>;

/// Relies on `fst::Map::default`: the map holding no entries.
#[verifier::external_body]
fn fst_empty() -> (m: fst::Map<Vec<u8>>)
    ensures
        fst_entries(m) == Seq::<(Seq<char>, u64)>::empty(),
{
    fst::Map::default()
}

/// Relies on `fst::Map::from_iter`, which builds a map holding exactly the
/// entries it is fed and fails only when keys are not unique and ascending.
/// The keys fed here are UTF-8 encodings of the names, whose byte order
/// coincides with the scalar-value order `seq_lt` describes, so the strict
/// sort admitted by the precondition is exactly what `from_iter` demands.
#[verifier::external_body]
fn fst_build(entries: &Vec<(String, u64)>) -> (m: fst::Map<Vec<u8>>)
    requires
        strictly_sorted(pairs_view(entries@)),
    ensures
        fst_entries(m) == pairs_view(entries@),
{
    fst::Map::from_iter(entries.iter().map(|e| (e.0.as_str(), e.1))).unwrap()
}

/// Relies on `fst::Map::search` driven by the union of `Str::starts_with`
/// (keys with the query's bytes as a prefix) and a distance-one Levenshtein
/// automaton (keys within one character edit of the query): the stream
/// yields exactly the entries accepted by either automaton, in key order.
/// The automaton's construction fails only past a state cap. At distance
/// one each subset state keeps a window of at most three active positions,
/// so there are a few states per query character, times at most a handful
/// of byte-level intermediate states per transition — for a hundred
/// characters some thousands of states, against the cap of a million
/// passed here — so the construction cannot fail for an admitted query.
#[verifier::external_body]
fn fst_search_fuzzy(m: &fst::Map<Vec<u8>>, query: &str) -> (r: Vec<(String, u64)>)
    requires
        query@.len() <= 100,
    ensures
        pairs_view(r@) == fst_entries(*m).filter(
            |e: (Seq<char>, u64)| matches_query(e.0, query@),
        ),
{
    let automaton = fst::automaton::Str::new(query).starts_with().union(
        fst::automaton::Levenshtein::new_with_limit(query, 1, 1_000_000).unwrap(),
    );
    let mut stream = m.search(automaton).into_stream();
    let mut results = Vec::new();
    while let Some((name, id)) = stream.next() {
        results.push((String::from_utf8_lossy(name).into_owned(), id));
    }
    results
}

/// The fuzzy name index: the exact sorted mapping and the automaton
/// structure compiled from it, owned and replaced as one unit.
pub struct ChannelMap {
    entries: Vec<(String, u64)>,
    compiled: fst::Map<Vec<u8>>,
}

impl View for ChannelMap {
    type V = Seq<(Seq<char>, u64)>;

    closed spec fn view(&self) -> Seq<(Seq<char>, u64)> {
        pairs_view(self.entries@)
    }
}

impl ChannelMap {
    /// The exact mapping is sorted with unique names, and the compiled
    /// structure holds exactly the mapping it was built from.
    pub closed spec fn wf(&self) -> bool {
        strictly_sorted(pairs_view(self.entries@)) && fst_entries(self.compiled) == pairs_view(
            self.entries@,
        )
    }

    /// An empty index.
    pub fn new() -> (m: ChannelMap)
        ensures
            m@ == Seq::<(Seq<char>, u64)>::empty(),
            m.wf(),
    {
        let m = ChannelMap { entries: Vec::new(), compiled: fst_empty() };
        proof {
            assert(pairs_view(m.entries@) =~= Seq::<(Seq<char>, u64)>::empty());
        }
        m
    }

    /// Recompute the exact mapping from a snapshot of the cache's channel
    /// collection, keeping the text-bearing named channels, then compile
    /// the searchable structure from it. Called only once the caller has
    /// confirmed, through the damage tracker, that the index may be stale.
    #[verifier::loop_isolation(false)]
    pub fn update(&mut self, records: Vec<ChannelRecord>)
        ensures
            final(self)@ == build_index(records_view(records@)),
            final(self).wf(),
    {
        let ghost rv = records_view(records@);
        let mut entries: Vec<(String, u64)> = Vec::new();
        proof {
            assert(pairs_view(entries@) =~= Seq::<(Seq<char>, u64)>::empty());
            assert(rv.take(0) =~= Seq::<ChannelRecordView>::empty());
        }
        let n = records.len();
        let mut i: usize = 0;
        while i < n
            invariant
                i <= n,
                pairs_view(entries@) == build_index(rv.take(i as int)),
                strictly_sorted(pairs_view(entries@)),
            decreases n - i,
        {
            let rec = &records[i];
            proof {
                assert(rv.take(i + 1).drop_last() =~= rv.take(i as int));
                assert(rv.take(i + 1).last() == rv[i as int]);
            }
            if is_text_channel(rec.kind) {
                match &rec.name {
                    Some(name) => {
                        sorted_put(&mut entries, name.clone(), rec.id);
                    },
                    None => {},
                }
            }
            i += 1;
        }
        proof {
            assert(rv.take(n as int) =~= rv);
        }
        let compiled = fst_build(&entries);
        self.entries = entries;
        self.compiled = compiled;
    }

    /// Fuzzy search: sanitize the query, run the combined prefix and
    /// one-edit matcher over the compiled index in key order, and, when
    /// nothing matches, fall back to the entire mapping. The length bound
    /// is a machine limit — it keeps the edit-distance automaton's
    /// construction under its state cap — not a rule of the search; a
    /// caller with longer input shortens it first.
    pub fn search(&self, query: &str) -> (results: Vec<(String, u64)>)
        requires
            self.wf(),
            query@.len() <= 100,
        ensures
            pairs_view(results@) == spec_search(self@, query@),
    {
        let q = sanitize_text_channel_name(query);
        proof {
            lemma_sanitize_len(query@);
        }
        let results = fst_search_fuzzy(&self.compiled, q.as_str());
        if results.len() > 0 {
            results
        } else {
            let mut all: Vec<(String, u64)> = Vec::new();
            proof {
                assert(pairs_view(all@) =~= pairs_view(self.entries@).take(0));
            }
            let n = self.entries.len();
            let mut i: usize = 0;
            #[verifier::loop_isolation(false)]
            while i < n
                invariant
                    i <= n,
                    pairs_view(all@) == pairs_view(self.entries@).take(i as int),
                decreases n - i,
            {
                let name = self.entries[i].0.clone();
                let id = self.entries[i].1;
                all.push((name, id));
                proof {
                    assert(pairs_view(all@) =~= pairs_view(self.entries@).take(i + 1));
                }
                i += 1;
            }
            proof {
                assert(pairs_view(self.entries@).take(n as int) =~= pairs_view(self.entries@));
            }
            all
        }
    }
}

} // verus!
