//! The membership filter: a probabilistic record of the fingerprints that
//! have appeared in a chain, kept in a quotient filter of the `qfilter` crate.
//!
//! A quotient filter stores a short hash of each item, so two fingerprints
//! may share an entry. The model is the multiset of stored hashes together
//! with their width: a fingerprint is reported as often as its hash is stored.

use vstd::prelude::*;
use vstd::multiset::Multiset;
use vstd::arithmetic::power2::pow2;
use vstd::seq_lib::lemma_sorted_unique;
use vstd::relations::{sorted_by, total_ordering};
use crate::fingerprint::Fingerprint;

verus! {

/// The largest capacity with which a filter is made. A filter takes the
/// memory for its whole capacity when it is made, so the capacity is kept
/// to what any machine can give.
pub const MAX_CAPACITY: u64 = 1_048_576;

#[verifier::external_type_specification]
#[verifier::external_body]
#[verifier::reject_recursive_types(B)]
#[verifier::reject_recursive_types(S)]
pub struct ExFilter<B, S>(qfilter::Filter<B, S>);

#[verifier::external_type_specification]
#[verifier::external_body]
pub struct ExStableBuildHasher(qfilter::StableBuildHasher);

#[verifier::external_type_specification]
#[verifier::external_body]
pub struct ExFilterFault(qfilter::Error);

#[verifier::external_type_specification]
#[verifier::external_body]
pub struct ExJsonFault(serde_json::Error);

/// The hashes that the filter stores, each as often as it is stored: what
/// `qfilter::Filter::fingerprints` lists.
pub uninterp spec fn filter_entries(f: qfilter::Filter) -> Multiset<u64>;

/// The number of bits that the filter keeps of each hash: what
/// `qfilter::Filter::fingerprint_size` returns.
pub uninterp spec fn filter_bits(f: qfilter::Filter) -> u8;

/// The number of entries the filter holds before it is full: what
/// `qfilter::Filter::capacity` returns.
pub uninterp spec fn filter_capacity(f: qfilter::Filter) -> nat;

/// The filter is in a state that `qfilter` itself brought about, by making
/// it empty and inserting into it. Only of such a filter do the operations
/// of `qfilter` answer as documented.
pub uninterp spec fn filter_sound(f: qfilter::Filter) -> bool;

/// The hash under which a filter that keeps `bits` bits stores the eight
/// words of a fingerprint: what `qfilter::compute_fingerprint_with_hasher`
/// returns for them with the hasher of `qfilter`. It is the hash of the
/// words as they lie in memory, cut to its lower `bits` bits.
pub uninterp spec fn item_fingerprint(words: Seq<u32>, bits: u8) -> u64;

/// The number of slots, as a power of two, that `qfilter` gives a filter of
/// the capacity: the least from 64 slots on of which nineteen twentieths,
/// rounded up, reach the capacity.
pub open spec fn slot_bits_from(capacity: nat, q: nat) -> nat
    decreases 64 - q,
{
    if q >= 64 || (pow2(q) * 19 + 19) / 20 >= capacity {
        q
    } else {
        slot_bits_from(capacity, q + 1)
    }
}

/// A filter of the capacity that keeps `bits` bits of each hash can be made:
/// the bits lie in 7..=64 and exceed the slot bits of the capacity.
pub open spec fn makeable(capacity: u64, bits: u8) -> bool {
    7 <= bits <= 64 && bits > slot_bits_from(capacity as nat, 6)
}

/// The hash has no bit above the lower `bits` bits.
pub open spec fn fits(hash: u64, bits: u8) -> bool {
    bits >= 64 || (hash >> (bits as u64)) == 0
}

/// No hash of the list is larger than one that follows it.
pub open spec fn ascending(hashes: Seq<u64>) -> bool {
    forall|i: int, j: int| 0 <= i < j < hashes.len() ==> hashes[i] <= hashes[j]
}

/// Every hash of the list fits the width.
pub open spec fn all_fit(hashes: Seq<u64>, bits: u8) -> bool {
    forall|i: int| 0 <= i < hashes.len() ==> fits(#[trigger] hashes[i], bits)
}

/// `qfilter::Filter::with_fingerprint_size`, for a capacity of at most
/// `MAX_CAPACITY`: it makes a filter exactly where one is `makeable`, and the
/// filter is then empty, keeps the bits asked for and holds at least the
/// capacity asked for.
#[verifier::external_body]
fn filter_with_fingerprint_size(capacity: u64, fingerprint_bits: u8) -> (r: Result<
    qfilter::Filter,
    qfilter::Error,
>)
    requires
        capacity <= MAX_CAPACITY,
    ensures
        r is Ok <==> makeable(capacity, fingerprint_bits),
        r matches Ok(f) ==> filter_sound(f) && filter_entries(f) == Multiset::<u64>::empty()
            && filter_bits(f) == fingerprint_bits && filter_capacity(f) >= capacity,
{
    qfilter::Filter::with_fingerprint_size(capacity, fingerprint_bits)
}

/// `qfilter::compute_fingerprint_with_hasher` on the eight words of a
/// fingerprint, with the hasher that every filter here uses. The hash has
/// no bit above the lower `bits` bits.
#[verifier::external_body]
fn hash_of(item: &Fingerprint, bits: u8) -> (r: u64)
    ensures
        r == item_fingerprint(item@, bits),
        fits(r, bits),
{
    qfilter::compute_fingerprint_with_hasher(&qfilter::StableBuildHasher, item.words, bits)
}

/// `qfilter::Filter::len`: the number of stored hashes.
#[verifier::external_body]
fn filter_stored(f: &qfilter::Filter) -> (r: u64)
    requires
        filter_sound(*f),
    ensures
        r == filter_entries(*f).len(),
{
    f.len()
}

/// `qfilter::Filter::count_fingerprint`, for a hash that fits the width of
/// the filter: how often the hash is stored.
#[verifier::external_body]
fn filter_count(f: &qfilter::Filter, hash: u64) -> (r: u64)
    requires
        filter_sound(*f),
        fits(hash, filter_bits(*f)),
    ensures
        r == filter_entries(*f).count(hash),
{
    f.count_fingerprint(hash)
}

/// `qfilter::Filter::contains_fingerprint`, for a hash that fits the width
/// of the filter: whether the hash is stored.
#[verifier::external_body]
fn filter_contains(f: &qfilter::Filter, hash: u64) -> (r: bool)
    requires
        filter_sound(*f),
        fits(hash, filter_bits(*f)),
    ensures
        r == (filter_entries(*f).count(hash) > 0),
{
    f.contains_fingerprint(hash)
}

/// `qfilter::Filter::insert_fingerprint`, allowing duplicates, for a filter
/// below its capacity and a hash that fits its width. There it succeeds
/// without growing the filter and stores the hash once more.
#[verifier::external_body]
fn filter_insert_fingerprint(f: &mut qfilter::Filter, hash: u64) -> (r: Result<
    bool,
    qfilter::Error,
>)
    requires
        filter_sound(*old(f)),
        filter_entries(*old(f)).len() < filter_capacity(*old(f)),
        fits(hash, filter_bits(*old(f))),
    ensures
        r is Ok,
        filter_sound(*final(f)),
        filter_bits(*final(f)) == filter_bits(*old(f)),
        filter_capacity(*final(f)) == filter_capacity(*old(f)),
        filter_entries(*final(f)) == filter_entries(*old(f)).insert(hash),
    no_unwind
{
    f.insert_fingerprint(true, hash)
}

/// `qfilter::Filter::fingerprints`, collected: the stored hashes in
/// ascending order, each within the width of the filter.
#[verifier::external_body]
fn filter_fingerprints(f: &qfilter::Filter) -> (r: Vec<u64>)
    requires
        filter_sound(*f),
    ensures
        r@.to_multiset() == filter_entries(*f),
        ascending(r@),
        all_fit(r@, filter_bits(*f)),
{
    f.fingerprints().collect()
}

/// The JSON text that `serde_json::to_string` writes for a width, a capacity
/// and a list of hashes, as an array of the three.
pub uninterp spec fn snapshot_json(bits: u8, capacity: u64, entries: Seq<u64>) -> Seq<char>;

/// The width, the capacity and the list of hashes that
/// `serde_json::from_str` reads from a JSON text, where the text is an array
/// of the three.
pub uninterp spec fn json_snapshot(text: Seq<char>) -> Option<(u8, u64, Seq<u64>)>;

/// `serde_json::to_string` on a width, a capacity and a list of hashes.
/// Writing three numbers of this kind does not fail, and what is written is
/// read back as the same three.
#[verifier::external_body]
fn snapshot_to_json(bits: u8, capacity: u64, entries: &Vec<u64>) -> (r: Result<
    String,
    serde_json::Error,
>)
    ensures
        r is Ok,
        r matches Ok(text) ==> text@ == snapshot_json(bits, capacity, entries@),
        r matches Ok(text) ==> json_snapshot(text@) == Some((bits, capacity, entries@)),
{
    serde_json::to_string(&(bits, capacity, entries))
}

/// `serde_json::from_str` for a width, a capacity and a list of hashes.
#[verifier::external_body]
fn snapshot_from_json(text: &str) -> (r: Result<(u8, u64, Vec<u64>), serde_json::Error>)
    ensures
        r matches Ok(parts) ==> json_snapshot(text@) == Some((parts.0, parts.1, parts.2@)),
        r is Err ==> json_snapshot(text@) is None,
{
    serde_json::from_str::<(u8, u64, Vec<u64>)>(text)
}

/// Why a filter operation was refused.
#[derive(Clone, Copy, Debug, PartialEq, Eq, Structural)]
pub enum FilterError {
    /// The filter holds as many entries as its capacity allows.
    Overflow,
    /// No filter can be made with the capacity and fingerprint size asked for.
    Configuration,
    /// The snapshot is not one that a filter writes.
    Snapshot,
}

/// The largest count a filter reports.
pub open spec fn saturate(n: nat) -> u32 {
    if n > u32::MAX {
        u32::MAX
    } else {
        n as u32
    }
}

/// What a filter has stored: the hashes and their width.
pub struct Record {
    pub entries: Multiset<u64>,
    pub bits: u8,
}

impl Record {
    /// How often the record reports a fingerprint: as often as it holds the
    /// hash of the fingerprint.
    pub open spec fn count(self, fingerprint: Seq<u32>) -> nat {
        self.entries.count(item_fingerprint(fingerprint, self.bits))
    }

    /// The record of a chain that has recorded nothing.
    pub open spec fn nothing() -> Record {
        Record { entries: Multiset::empty(), bits: 0 }
    }

    /// The other record holds every hash at least as often, at the same width.
    pub open spec fn subset_of(self, other: Record) -> bool {
        self.bits == other.bits && self.entries.subset_of(other.entries)
    }
}

/// A filter written out: its width, its capacity, and the stored hashes in
/// ascending order.
#[derive(Clone, Debug, PartialEq, Eq)]
pub struct FilterSnapshot {
    pub fingerprint_bits: u8,
    pub capacity: u64,
    pub entries: Vec<u64>,
}

/// The contents of a snapshot.
pub struct FilterSnapshotView {
    pub fingerprint_bits: u8,
    pub capacity: u64,
    pub entries: Seq<u64>,
}

impl View for FilterSnapshot {
    type V = FilterSnapshotView;

    open spec fn view(&self) -> FilterSnapshotView {
        FilterSnapshotView {
            fingerprint_bits: self.fingerprint_bits,
            capacity: self.capacity,
            entries: self.entries@,
        }
    }
}

impl FilterSnapshot {
    /// The snapshot as JSON text. What is written is read back by
    /// `from_json` as the same snapshot.
    pub fn to_json(&self) -> (r: String)
        ensures
            r@ == snapshot_json(self.fingerprint_bits, self.capacity, self.entries@),
            json_snapshot(r@) == Some((self.fingerprint_bits, self.capacity, self.entries@)),
    {
        match snapshot_to_json(self.fingerprint_bits, self.capacity, &self.entries) {
            Ok(text) => text,
            Err(_) => String::new(),
        }
    }

    /// Reads a snapshot from JSON text, where the text holds one.
    pub fn from_json(text: &str) -> (r: Option<FilterSnapshot>)
        ensures
            r is Some <==> json_snapshot(text@) is Some,
            r matches Some(snapshot) ==> json_snapshot(text@) == Some(
                (snapshot.fingerprint_bits, snapshot.capacity, snapshot.entries@),
            ),
    {
        match snapshot_from_json(text) {
            Ok(parts) => Some(
                FilterSnapshot { fingerprint_bits: parts.0, capacity: parts.1, entries: parts.2 },
            ),
            Err(_) => None,
        }
    }
}

/// The snapshot that a JSON text holds, if it holds one.
pub open spec fn text_snapshot(text: Seq<char>) -> Option<FilterSnapshotView> {
    match json_snapshot(text) {
        Some(parts) => Some(
            FilterSnapshotView { fingerprint_bits: parts.0, capacity: parts.1, entries: parts.2 },
        ),
        None => None,
    }
}

impl FilterSnapshotView {
    /// The snapshot is one that a filter writes: a filter of its capacity
    /// and width can be made, and the hashes are no more than the capacity,
    /// ascending, and within the width.
    pub open spec fn acceptable(self) -> bool {
        &&& self.capacity <= MAX_CAPACITY
        &&& makeable(self.capacity, self.fingerprint_bits)
        &&& self.entries.len() <= self.capacity
        &&& ascending(self.entries)
        &&& all_fit(self.entries, self.fingerprint_bits)
    }

    /// What a filter read from the snapshot has stored.
    pub open spec fn record(self) -> Record {
        Record { entries: self.entries.to_multiset(), bits: self.fingerprint_bits }
    }
}

/// The set of fingerprints recorded in a chain so far.
pub struct MembershipFilter {
    inner: qfilter::Filter,
    capacity: u64,
    bits: u8,
    recorded: Ghost<Multiset<Seq<u32>>>,
}

impl MembershipFilter {
    /// The filter is one that `qfilter` built, within the capacity it was
    /// made with, and it reports every fingerprint at least as often as it
    /// was inserted: there are no false negatives, and no count is too low.
    #[verifier::type_invariant]
    spec fn well_kept(&self) -> bool {
        &&& filter_sound(self.inner)
        &&& filter_bits(self.inner) == self.bits
        &&& self.capacity <= MAX_CAPACITY
        &&& makeable(self.capacity, self.bits)
        &&& self.capacity <= filter_capacity(self.inner)
        &&& filter_entries(self.inner).len() <= self.capacity
        &&& forall|g: Seq<u32>| #[trigger]
            self.recorded@.count(g) <= filter_entries(self.inner).count(
                item_fingerprint(g, self.bits),
            )
    }

    /// What the filter has stored.
    pub closed spec fn counts(&self) -> Record {
        Record { entries: filter_entries(self.inner), bits: self.bits }
    }

    /// The number of entries stored.
    pub open spec fn stored(&self) -> nat {
        self.counts().entries.len()
    }

    /// The number of entries at which the filter is full: the capacity it
    /// was made with.
    pub closed spec fn limit(&self) -> nat {
        self.capacity as nat
    }

    /// The fingerprints that were inserted through this value, each as often
    /// as it was inserted. A filter read from a snapshot starts with none.
    pub closed spec fn recorded(&self) -> Multiset<Seq<u32>> {
        self.recorded@
    }

    /// Whether the filter reports the fingerprint at all.
    pub open spec fn reports(&self, fingerprint: Seq<u32>) -> bool {
        self.counts().count(fingerprint) > 0
    }

    /// The snapshot is the one that `to_snapshot` writes for the filter.
    pub open spec fn written_as(&self, snapshot: FilterSnapshotView) -> bool {
        &&& snapshot.fingerprint_bits == self.counts().bits
        &&& snapshot.capacity == self.limit()
        &&& snapshot.record() == self.counts()
        &&& ascending(snapshot.entries)
        &&& all_fit(snapshot.entries, snapshot.fingerprint_bits)
    }

    /// An empty filter for `capacity` entries that keeps `fingerprint_bits`
    /// bits of each entry's hash. A filter is made exactly where the capacity
    /// is at most `MAX_CAPACITY` and the filter is `makeable`. The bound on
    /// the capacity is there because the memory for the whole capacity is
    /// taken when the filter is made.
    pub fn new(capacity: u64, fingerprint_bits: u8) -> (r: Result<MembershipFilter, FilterError>)
        ensures
            r is Ok <==> capacity <= MAX_CAPACITY && makeable(capacity, fingerprint_bits),
            r matches Ok(m) ==> m.counts() == (Record {
                entries: Multiset::<u64>::empty(),
                bits: fingerprint_bits,
            }) && m.stored() == 0 && m.limit() == capacity && m.recorded() == Multiset::<
                Seq<u32>,
            >::empty(),
            r matches Err(e) ==> e == FilterError::Configuration,
    {
        if capacity > MAX_CAPACITY {
            return Err(FilterError::Configuration);
        }
        match filter_with_fingerprint_size(capacity, fingerprint_bits) {
            Ok(inner) => Ok(
                MembershipFilter {
                    inner,
                    capacity,
                    bits: fingerprint_bits,
                    recorded: Ghost(Multiset::empty()),
                },
            ),
            Err(_) => Err(FilterError::Configuration),
        }
    }

    /// The number of entries stored.
    pub fn len(&self) -> (r: u64)
        ensures
            r == self.stored(),
    {
        proof {
            use_type_invariant(self);
        }
        filter_stored(&self.inner)
    }

    /// The number of entries at which the filter is full.
    pub fn capacity(&self) -> (r: u64)
        ensures
            r == self.limit(),
    {
        self.capacity
    }

    /// The number of bits that the filter keeps of each hash.
    pub fn fingerprint_bits(&self) -> (r: u8)
        ensures
            r == self.counts().bits,
    {
        self.bits
    }

    /// Records one occurrence of a fingerprint. Nothing is ever removed: every
    /// fingerprint is reported afterwards at least as often as before.
    pub fn insert(&mut self, fingerprint: &Fingerprint) -> (r: Result<(), FilterError>)
        ensures
            r is Ok <==> old(self).stored() < old(self).limit(),
            r matches Err(e) ==> e == FilterError::Overflow && *final(self) == *old(self),
            r is Ok ==> final(self).stored() == old(self).stored() + 1,
            final(self).limit() == old(self).limit(),
            final(self).counts().bits == old(self).counts().bits,
            r is Ok ==> final(self).counts().entries == old(self).counts().entries.insert(
                item_fingerprint(fingerprint@, old(self).counts().bits),
            ),
            r is Ok ==> final(self).counts().count(fingerprint@) == old(self).counts().count(
                fingerprint@,
            ) + 1,
            r is Ok ==> forall|g: Seq<u32>|
                old(self).counts().count(g) <= #[trigger] final(self).counts().count(g) <= old(
                    self,
                ).counts().count(g) + 1,
            r is Ok ==> final(self).recorded() == old(self).recorded().insert(fingerprint@),
            old(self).counts().subset_of(final(self).counts()),
    {
        proof {
            use_type_invariant(&*self);
        }
        if filter_stored(&self.inner) >= self.capacity {
            return Err(FilterError::Overflow);
        }
        let hash = hash_of(fingerprint, self.bits);
        match filter_insert_fingerprint(&mut self.inner, hash) {
            Ok(_) => {
                self.recorded = Ghost(self.recorded@.insert(fingerprint@));
                Ok(())
            },
            Err(_) => Err(FilterError::Overflow),
        }
    }

    /// Whether the fingerprint is reported as recorded. A fingerprint that was
    /// inserted is always reported; one that was not may be.
    pub fn contains(&self, fingerprint: &Fingerprint) -> (r: bool)
        ensures
            r == self.reports(fingerprint@),
            self.recorded().count(fingerprint@) > 0 ==> r,
    {
        proof {
            use_type_invariant(self);
        }
        filter_contains(&self.inner, hash_of(fingerprint, self.bits))
    }

    /// How often the fingerprint is reported, at most `u32::MAX`: never less
    /// often than it was inserted.
    pub fn approximate_count(&self, fingerprint: &Fingerprint) -> (r: u32)
        ensures
            r == saturate(self.counts().count(fingerprint@)),
            r >= saturate(self.recorded().count(fingerprint@)),
    {
        proof {
            use_type_invariant(self);
        }
        let n: u64 = filter_count(&self.inner, hash_of(fingerprint, self.bits));
        if n > 0xffff_ffff {
            0xffff_ffff
        } else {
            n as u32
        }
    }

    /// Writes the filter out, to be carried into the next round. What is
    /// written can always be read back.
    pub fn to_snapshot(&self) -> (r: FilterSnapshot)
        ensures
            self.written_as(r@),
            r@.acceptable(),
    {
        proof {
            use_type_invariant(self);
        }
        let entries = filter_fingerprints(&self.inner);
        proof {
            entries@.to_multiset_ensures();
        }
        FilterSnapshot { fingerprint_bits: self.bits, capacity: self.capacity, entries }
    }

    /// Reads back a filter from a snapshot: a fresh filter of the capacity
    /// and width is made, and the hashes are stored in it one by one. A
    /// snapshot is read exactly where it is `acceptable`, and the filter then
    /// writes the same snapshot again.
    pub fn from_snapshot(snapshot: &FilterSnapshot) -> (r: Result<MembershipFilter, FilterError>)
        ensures
            r is Ok <==> snapshot@.acceptable(),
            r matches Ok(m) ==> m.written_as(snapshot@) && m.recorded() == Multiset::<
                Seq<u32>,
            >::empty(),
            r matches Err(e) ==> e == FilterError::Snapshot,
    {
        let bits = snapshot.fingerprint_bits;
        let capacity = snapshot.capacity;
        let count = snapshot.entries.len();
        if capacity > MAX_CAPACITY || count as u64 > capacity {
            return Err(FilterError::Snapshot);
        }
        let mut i: usize = 0;
        while i < count
            invariant
                i <= count,
                count == snapshot.entries@.len(),
                bits == snapshot.fingerprint_bits,
                forall|j: int| 0 <= j < i ==> fits(#[trigger] snapshot.entries@[j], bits),
                forall|a: int, b: int|
                    0 <= a < b < i ==> snapshot.entries@[a] <= snapshot.entries@[b],
            decreases count - i,
        {
            let hash = snapshot.entries[i];
            if !(bits >= 64 || (hash >> (bits as u64)) == 0) {
                assert(!fits(snapshot.entries@[i as int], bits));
                return Err(FilterError::Snapshot);
            }
            if i > 0 && snapshot.entries[i - 1] > hash {
                assert(!ascending(snapshot.entries@));
                return Err(FilterError::Snapshot);
            }
            i = i + 1;
        }
        let mut inner = match filter_with_fingerprint_size(capacity, bits) {
            Ok(inner) => inner,
            Err(_) => {
                return Err(FilterError::Snapshot);
            },
        };
        proof {
            snapshot.entries@.take(0).to_multiset_ensures();
            assert(snapshot.entries@.take(0).to_multiset() =~= Multiset::<u64>::empty());
        }
        let mut k: usize = 0;
        while k < count
            invariant
                k <= count,
                count == snapshot.entries@.len(),
                count <= capacity,
                bits == snapshot.fingerprint_bits,
                all_fit(snapshot.entries@, bits),
                filter_sound(inner),
                filter_bits(inner) == bits,
                filter_capacity(inner) >= capacity,
                filter_entries(inner) == snapshot.entries@.take(k as int).to_multiset(),
            decreases count - k,
        {
            proof {
                snapshot.entries@.take(k as int).to_multiset_ensures();
                vstd::seq_lib::to_multiset_build(
                    snapshot.entries@.take(k as int),
                    snapshot.entries@[k as int],
                );
                assert(snapshot.entries@.take(k + 1) =~= snapshot.entries@.take(k as int).push(
                    snapshot.entries@[k as int],
                ));
            }
            let _ = filter_insert_fingerprint(&mut inner, snapshot.entries[k]);
            k = k + 1;
        }
        proof {
            assert(snapshot.entries@.take(count as int) =~= snapshot.entries@);
            snapshot.entries@.to_multiset_ensures();
        }
        Ok(MembershipFilter { inner, capacity, bits, recorded: Ghost(Multiset::empty()) })
    }
}

/// Ascending order of hashes is the order that `sorted_by` knows.
proof fn lemma_ascending_is_sorted(hashes: Seq<u64>)
    requires
        ascending(hashes),
    ensures
        sorted_by(hashes, |x: u64, y: u64| x <= y),
        total_ordering(|x: u64, y: u64| x <= y),
{
    let leq = |x: u64, y: u64| x <= y;
    assert forall|i: int, j: int| 0 <= i < j < hashes.len() implies #[trigger] leq(
        hashes[i],
        hashes[j],
    ) by {}
    assert(vstd::relations::reflexive(leq));
    assert(vstd::relations::antisymmetric(leq));
    assert(vstd::relations::transitive(leq));
    assert(vstd::relations::strongly_connected(leq));
}

/// A filter is written in one way only: two snapshots of the same filter
/// are the same snapshot, entry for entry. So a snapshot that is read and
/// written again comes out as it went in.
pub proof fn law_snapshot_is_unique(
    m: MembershipFilter,
    first: FilterSnapshotView,
    second: FilterSnapshotView,
)
    requires
        m.written_as(first),
        m.written_as(second),
    ensures
        first == second,
{
    lemma_ascending_is_sorted(first.entries);
    lemma_ascending_is_sorted(second.entries);
    lemma_sorted_unique(first.entries, second.entries, |x: u64, y: u64| x <= y);
}

/// Each state of the chain holds every hash at least as often as the state
/// before it.
pub open spec fn only_grows(chain: Seq<Record>) -> bool {
    forall|k: int| 0 < k < chain.len() ==> (#[trigger] chain[k - 1]).subset_of(chain[k])
}

/// Membership is monotone along a chain: a fingerprint that the filter
/// reports at one round is reported at every later round.
pub proof fn law_membership_is_monotone(
    chain: Seq<Record>,
    fingerprint: Seq<u32>,
    round: int,
    later: int,
)
    requires
        only_grows(chain),
        0 <= round <= later < chain.len(),
        chain[round].count(fingerprint) > 0,
    ensures
        chain[later].bits == chain[round].bits,
        chain[later].count(fingerprint) >= chain[round].count(fingerprint),
        chain[later].count(fingerprint) > 0,
    decreases later - round,
{
    if round < later {
        law_membership_is_monotone(chain, fingerprint, round, later - 1);
        assert(chain[later - 1].subset_of(chain[later]));
    }
}

} // verus!
