//! The receipt store: a keyed mapping from opaque identifiers to scored
//! records with write-once, read-many semantics. `submit` files a record
//! under a freshly generated identifier and never overwrites an entry;
//! `lookup` returns the stored record or signals an unknown identifier with
//! `None`. The store's model is the map from identifier text to record.

use crate::receipt::{Receipt, ScoreRecord};
use crate::score::{clamp_points, score, spec_score};
use vstd::prelude::*;

verus! {

/// Relies on uuid::Uuid::new_v4 for a fresh random 128-bit identifier and
/// on uuid's Display form, documented as the 36-character hyphenated text.
/// The value is random: nothing relates it to earlier or later calls.
#[verifier::external_body]
fn new_id() -> (r: String)
    ensures
        r@.len() == 36,
{
    uuid::Uuid::new_v4().to_string()
}

/// The map that a sequence of keyed entries denotes; a key that repeats
/// (which a well-formed store never holds) would take its last record.
pub open spec fn map_of(entries: Seq<(String, ScoreRecord)>) -> Map<Seq<char>, ScoreRecord>
    decreases entries.len(),
{
    if entries.len() == 0 {
        Map::empty()
    } else {
        map_of(entries.drop_last()).insert(entries.last().0@, entries.last().1)
    }
}

/// A key stands in the map exactly where some entry carries it.
proof fn lemma_map_of_contains(entries: Seq<(String, ScoreRecord)>, key: Seq<char>)
    ensures
        map_of(entries).contains_key(key) <==> exists|k: int|
            0 <= k < entries.len() && entries[k].0@ == key,
    decreases entries.len(),
{
    if entries.len() > 0 {
        lemma_map_of_contains(entries.drop_last(), key);
        if map_of(entries).contains_key(key) {
            if entries.last().0@ == key {
                assert(entries[entries.len() - 1].0@ == key);
            }
        }
        if exists|k: int| 0 <= k < entries.len() && entries[k].0@ == key {
            let k = choose|k: int| 0 <= k < entries.len() && entries[k].0@ == key;
            if k < entries.len() - 1 {
                assert(entries.drop_last()[k].0@ == key);
            }
        }
    }
}

/// The store: entries in submission order, no identifier twice.
pub struct ReceiptStore {
    entries: Vec<(String, ScoreRecord)>,
}

impl View for ReceiptStore {
    type V = Map<Seq<char>, ScoreRecord>;

    closed spec fn view(&self) -> Map<Seq<char>, ScoreRecord> {
        map_of(self.entries@)
    }
}

impl ReceiptStore {
    /// Well-formed: no two entries carry the same identifier.
    pub closed spec fn wf(&self) -> bool {
        forall|a: int, b: int|
            0 <= a < b < self.entries@.len() ==> self.entries@[a].0@ != self.entries@[b].0@
    }

    /// An empty store.
    pub fn new() -> (s: ReceiptStore)
        ensures
            s.wf(),
            s@ == Map::<Seq<char>, ScoreRecord>::empty(),
    {
        ReceiptStore { entries: Vec::new() }
    }

    /// Point lookup: the record stored under `id`, or `None` where the
    /// identifier is unknown.
    pub fn lookup(&self, id: &String) -> (r: Option<&ScoreRecord>)
        requires
            self.wf(),
        ensures
            match r {
                Some(record) => self@.contains_key(id@) && *record == self@[id@],
                None => !self@.contains_key(id@),
            },
    {
        let n: usize = self.entries.len();
        let mut j: usize = 0;
        while j < n
            invariant
                n == self.entries@.len(),
                0 <= j <= n,
                self.wf(),
                forall|k: int| 0 <= k < j ==> self.entries@[k].0@ != id@,
            decreases n - j,
        {
            if self.entries[j].0 == *id {
                proof {
                    lemma_lookup_entry(self.entries@, j as int);
                }
                return Some(&self.entries[j].1);
            }
            j = j + 1;
        }
        proof {
            lemma_map_of_contains(self.entries@, id@);
        }
        None
    }

    /// Files a record under a freshly generated identifier — one the store
    /// has never handed out — and returns that identifier. Every earlier
    /// entry is kept unchanged: entries are written once.
    pub fn submit(&mut self, record: ScoreRecord) -> (id: String)
        requires
            old(self).wf(),
        ensures
            final(self).wf(),
            !old(self)@.contains_key(id@),
            final(self)@ == old(self)@.insert(id@, record),
    {
        let mut attempts: u8 = 0;
        while attempts < 8
            invariant
                self.wf(),
                *self == *old(self),
            decreases 8 - attempts,
        {
            let id = new_id();
            if self.lookup(&id).is_none() {
                self.file_fresh(&id, record);
                return id;
            }
            attempts = attempts + 1;
        }
        let id = self.longer_than_all();
        proof {
            lemma_map_of_contains(self.entries@, id@);
        }
        self.file_fresh(&id, record);
        id
    }

    /// An identifier longer than every identifier in the store, and so
    /// certainly fresh: the concatenation of all of them plus one more
    /// character. The last resort where the random source keeps answering
    /// with texts the store already holds.
    fn longer_than_all(&self) -> (id: String)
        ensures
            forall|k: int|
                0 <= k < self.entries@.len() ==> self.entries@[k].0@.len() < id@.len(),
    {
        let mut s = String::new();
        let n: usize = self.entries.len();
        let mut j: usize = 0;
        while j < n
            invariant
                n == self.entries@.len(),
                0 <= j <= n,
                forall|k: int| 0 <= k < j ==> self.entries@[k].0@.len() <= s@.len(),
            decreases n - j,
        {
            s.append(self.entries[j].0.as_str());
            j = j + 1;
        }
        s.append("x");
        proof {
            reveal_strlit("x");
        }
        s
    }

    /// Adds an entry under an identifier the store does not hold.
    fn file_fresh(&mut self, id: &String, record: ScoreRecord)
        requires
            old(self).wf(),
            !old(self)@.contains_key(id@),
        ensures
            final(self).wf(),
            final(self)@ == old(self)@.insert(id@, record),
    {
        proof {
            lemma_map_of_contains(self.entries@, id@);
        }
        self.entries.push((id.clone(), record));
        proof {
            assert(self.entries@.drop_last() =~= old(self).entries@);
        }
    }
}

/// The record under a well-formed store's `k`-th identifier is that entry's
/// record.
proof fn lemma_lookup_entry(entries: Seq<(String, ScoreRecord)>, k: int)
    requires
        0 <= k < entries.len(),
        forall|a: int, b: int| 0 <= a < b < entries.len() ==> entries[a].0@ != entries[b].0@,
    ensures
        map_of(entries).contains_key(entries[k].0@),
        map_of(entries)[entries[k].0@] == entries[k].1,
    decreases entries.len(),
{
    if k < entries.len() - 1 {
        lemma_lookup_entry(entries.drop_last(), k);
        assert(entries.drop_last()[k] == entries[k]);
        assert(entries.last().0@ != entries[k].0@);
    }
}

/// Scores a receipt, files the scored record, and returns its identifier:
/// the submission path behind the processing endpoint.
pub fn process_receipt(store: &mut ReceiptStore, receipt: Receipt) -> (id: String)
    requires
        old(store).wf(),
    ensures
        final(store).wf(),
        !old(store)@.contains_key(id@),
        final(store)@ == old(store)@.insert(
            id@,
            (ScoreRecord { receipt, points: clamp_points(spec_score(receipt)) }),
        ),
{
    let points: u64 = score(&receipt);
    store.submit(ScoreRecord { receipt, points })
}

/// Write-once: an identifier handed out by one submission keeps its record
/// unchanged through any later submission, which can only file a fresh
/// identifier of its own.
pub proof fn lemma_write_once(
    m0: Map<Seq<char>, ScoreRecord>,
    id1: Seq<char>,
    r1: ScoreRecord,
    id2: Seq<char>,
    r2: ScoreRecord,
)
    requires
        !m0.contains_key(id1),
        !m0.insert(id1, r1).contains_key(id2),
    ensures
        m0.insert(id1, r1)[id1] == r1,
        m0.insert(id1, r1).insert(id2, r2)[id1] == r1,
{
}

/// The points stored under an identifier, or `None` where it is unknown:
/// the query path behind the points endpoint.
pub fn get_points(store: &ReceiptStore, id: &String) -> (r: Option<u64>)
    requires
        store.wf(),
    ensures
        match r {
            Some(points) => store@.contains_key(id@) && points == store@[id@].points,
            None => !store@.contains_key(id@),
        },
{
    match store.lookup(id) {
        Some(record) => Some(record.points),
        None => None,
    }
}

} // verus!
