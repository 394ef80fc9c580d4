//! The mathematical model of a registry and of each operation on it.
//!
//! A registry is an append-only log of records, an append-only list of
//! authority names (an id is a position in that list), a record counter and
//! the notifications emitted so far. Each operation is a function from a model
//! to either an error or the next model.
use vstd::prelude::*;

use crate::hash::canonical_hash;
use crate::types::{Config, Error, EventView, ImageRecord, Submission, SubmissionType};

verus! {

/// Most items one batch may hold.
pub const MAX_BATCH_SIZE: usize = 100;

/// Number of authority ids that can be assigned: ids run from 0 to
/// `u16::MAX - 1`.
pub const MAX_AUTHORITIES: usize = 65535;

/// The fixed-size key whose bytes are `h`.
pub open spec fn hash_key(h: Seq<u8>) -> [u8; 32] {
    choose|k: [u8; 32]| k@ == h
}

/// Saturating narrowing of a ledger value to 32 bits.
pub open spec fn saturate_u32(x: u64) -> u32 {
    if x > u32::MAX {
        u32::MAX
    } else {
        x as u32
    }
}

/// The state of a registry.
#[verifier::ext_equal]
pub struct RegistryView {
    pub config: Config,
    /// Committed records, oldest first.
    pub records: Seq<ImageRecord>,
    /// Authority names; a name's id is its position.
    pub authorities: Seq<Seq<u8>>,
    /// The record counter.
    pub total: nat,
    /// Notifications, oldest first.
    pub events: Seq<EventView>,
}

impl RegistryView {
    /// The registry as created at genesis.
    pub open spec fn genesis(config: Config) -> RegistryView {
        RegistryView {
            config,
            records: Seq::empty(),
            authorities: Seq::empty(),
            total: 0,
            events: Seq::empty(),
        }
    }

    /// Whether a record with key `h` is committed.
    pub open spec fn contains_hash(self, h: [u8; 32]) -> bool {
        exists|i: int| 0 <= i < self.records.len() && #[trigger] self.records[i].image_hash == h
    }

    /// The record with key `h`, if any.
    pub open spec fn record(self, h: [u8; 32]) -> Option<ImageRecord> {
        if self.contains_hash(h) {
            Some(
                self.records[choose|i: int|
                    0 <= i < self.records.len() && #[trigger] self.records[i].image_hash == h],
            )
        } else {
            None
        }
    }

    /// Whether `name` has an id.
    pub open spec fn has_authority(self, name: Seq<u8>) -> bool {
        exists|i: int| 0 <= i < self.authorities.len() && #[trigger] self.authorities[i] == name
    }

    /// The id of `name`, if it has one.
    pub open spec fn authority_id(self, name: Seq<u8>) -> Option<u16> {
        if self.has_authority(name) {
            Some(
                (choose|i: int|
                    0 <= i < self.authorities.len() && #[trigger] self.authorities[i] == name) as u16,
            )
        } else {
            None
        }
    }

    /// The name with id `id`, if any.
    pub open spec fn authority_name(self, id: u16) -> Option<Seq<u8>> {
        if id < self.authorities.len() {
            Some(self.authorities[id as int])
        } else {
            None
        }
    }

    /// The id the next new authority will receive.
    pub open spec fn next_authority_id(self) -> nat {
        self.authorities.len()
    }

    /// The set of committed keys.
    pub open spec fn hashes(self) -> Set<[u8; 32]> {
        self.records.map_values(|r: ImageRecord| r.image_hash).to_set()
    }

    /// Record `i` meets the per-record rules of this registry.
    pub open spec fn record_ok(self, i: int) -> bool {
        let r = self.records[i];
        &&& r.modification_level <= 2
        &&& r.authority_id < self.authorities.len()
        &&& (r.parent_image_hash matches Some(p) ==> exists|j: int|
            0 <= j < i && #[trigger] self.records[j].image_hash == p)
    }

    /// The invariant of every reachable registry: keys are unique, names are
    /// unique and within the length limit, ids fit in `u16`, every record is
    /// well formed and names only an earlier record as parent, and the counter
    /// equals the number of records.
    pub open spec fn valid(self) -> bool {
        &&& forall|i: int, j: int|
            0 <= i < j < self.records.len() ==> #[trigger] self.records[i].image_hash
                != #[trigger] self.records[j].image_hash
        &&& forall|i: int, j: int|
            0 <= i < j < self.authorities.len() ==> #[trigger] self.authorities[i]
                != #[trigger] self.authorities[j]
        &&& self.authorities.len() <= MAX_AUTHORITIES
        &&& forall|i: int|
            0 <= i < self.authorities.len() ==> #[trigger] self.authorities[i].len()
                <= self.config.max_authority_id_length
        &&& forall|i: int| 0 <= i < self.records.len() ==> #[trigger] self.record_ok(i)
        &&& self.total == self.records.len()
    }

    /// The registry with one more record.
    pub open spec fn with_record(self, r: ImageRecord) -> RegistryView {
        RegistryView { records: self.records.push(r), total: self.total + 1, ..self }
    }

    /// The registry with one more notification.
    pub open spec fn with_event(self, e: EventView) -> RegistryView {
        RegistryView { events: self.events.push(e), ..self }
    }
}

/// Looks up `name` in the dictionary, registering it under the next id when
/// it is new. Returns the resulting registry and the name's id.
pub open spec fn register_outcome(s: RegistryView, name: Seq<u8>) -> Result<(RegistryView, u16), Error> {
    if name.len() > s.config.max_authority_id_length {
        Err(Error::AuthorityNameTooLong)
    } else if s.has_authority(name) {
        Ok((s, s.authority_id(name)->0))
    } else if s.authorities.len() >= MAX_AUTHORITIES {
        Err(Error::TooManyAuthorities)
    } else {
        let id = s.authorities.len() as u16;
        Ok(
            (
                RegistryView {
                    authorities: s.authorities.push(name),
                    events: s.events.push(
                        EventView::AuthorityRegistered { authority_id: id, authority_name: name },
                    ),
                    ..s
                },
                id,
            ),
        )
    }
}

/// The single-record pipeline: normalise the hash, validate the fields,
/// check the parent, refuse a duplicate, resolve the authority, append the
/// record.
pub open spec fn item_outcome(
    s: RegistryView,
    image_hash: Seq<u8>,
    submission_type: SubmissionType,
    modification_level: u8,
    parent_image_hash: Option<Seq<u8>>,
    authority_name: Seq<u8>,
    timestamp: u32,
    block_number: u32,
) -> Result<RegistryView, Error> {
    if canonical_hash(image_hash) is None {
        Err(Error::InvalidHashLength)
    } else if modification_level > 2 {
        Err(Error::InvalidModificationLevel)
    } else if authority_name.len() > s.config.max_authority_id_length {
        Err(Error::AuthorityNameTooLong)
    } else if parent_image_hash matches Some(p) && canonical_hash(p) is None {
        Err(Error::InvalidParentHashLength)
    } else if parent_image_hash matches Some(p) && !s.contains_hash(
        hash_key(canonical_hash(p)->0),
    ) {
        Err(Error::ParentHashNotFound)
    } else if s.contains_hash(hash_key(canonical_hash(image_hash)->0)) {
        Err(Error::HashAlreadyExists)
    } else {
        match register_outcome(s, authority_name) {
            Err(e) => Err(e),
            Ok((t, id)) => Ok(
                t.with_record(
                    ImageRecord {
                        image_hash: hash_key(canonical_hash(image_hash)->0),
                        submission_type,
                        modification_level,
                        parent_image_hash: match parent_image_hash {
                            Some(p) => Some(hash_key(canonical_hash(p)->0)),
                            None => None,
                        },
                        authority_id: id,
                        timestamp,
                        block_number,
                    },
                ),
            ),
        }
    }
}

/// [`item_outcome`] on a submission tuple.
pub open spec fn submission_outcome(s: RegistryView, item: Submission, timestamp: u32, block_number: u32) -> Result<RegistryView, Error> {
    item_outcome(
        s,
        item.0@,
        item.1,
        item.2,
        match item.3 {
            Some(p) => Some(p@),
            None => None,
        },
        item.4@,
        timestamp,
        block_number,
    )
}

/// A single submission: the pipeline, then a "record submitted" notification.
pub open spec fn single_outcome(
    s: RegistryView,
    item: Submission,
    now: u64,
    block_number: u64,
) -> Result<RegistryView, Error> {
    match submission_outcome(s, item, saturate_u32(now), saturate_u32(block_number)) {
        Err(e) => Err(e),
        Ok(t) => Ok(
            t.with_event(
                EventView::ImageRecordSubmitted {
                    image_hash: t.records.last().image_hash,
                    authority_id: t.records.last().authority_id,
                    modification_level: t.records.last().modification_level,
                },
            ),
        ),
    }
}

/// The pipeline applied to each item in order, stopping at the first error.
pub open spec fn items_outcome(s: RegistryView, items: Seq<Submission>, timestamp: u32, block_number: u32) -> Result<RegistryView, Error>
    decreases items.len(),
{
    if items.len() == 0 {
        Ok(s)
    } else {
        match items_outcome(s, items.drop_last(), timestamp, block_number) {
            Err(e) => Err(e),
            Ok(t) => submission_outcome(t, items.last(), timestamp, block_number),
        }
    }
}

/// A batch: its size is checked first, then every item runs through the
/// pipeline with one shared timestamp and height, then one "batch submitted"
/// notification follows. Any error rejects the whole batch.
pub open spec fn batch_outcome(s: RegistryView, items: Seq<Submission>, now: u64, block_number: u64) -> Result<RegistryView, Error> {
    if items.len() == 0 {
        Err(Error::EmptyBatch)
    } else if items.len() > MAX_BATCH_SIZE {
        Err(Error::BatchTooLarge)
    } else {
        match items_outcome(s, items, saturate_u32(now), saturate_u32(block_number)) {
            Err(e) => Err(e),
            Ok(t) => Ok(t.with_event(EventView::ImageBatchSubmitted { count: items.len() as u32 })),
        }
    }
}

/// A key is determined by its bytes.
pub proof fn lemma_hash_key(k: [u8; 32])
    ensures
        hash_key(k@) == k,
{
    let h = k@;
    assert(exists|x: [u8; 32]| #[trigger] x@ == h) by {
        assert(k@ == h);
    }
    let c = hash_key(h);
    assert(c =~= k);
}

/// Appending a well-formed record with a fresh key whose parent is committed
/// keeps a registry valid.
pub proof fn lemma_with_record_valid(s: RegistryView, r: ImageRecord)
    requires
        s.valid(),
        !s.contains_hash(r.image_hash),
        r.modification_level <= 2,
        r.authority_id < s.authorities.len(),
        r.parent_image_hash matches Some(p) ==> s.contains_hash(p),
    ensures
        s.with_record(r).valid(),
{
    let t = s.with_record(r);
    let n = s.records.len() as int;
    assert forall|i: int| 0 <= i < t.records.len() implies #[trigger] t.record_ok(i) by {
        if i < n {
            assert(s.record_ok(i));
            match s.records[i].parent_image_hash {
                Some(p) => {
                    let j = choose|j: int| 0 <= j < i && #[trigger] s.records[j].image_hash == p;
                    assert(t.records[j].image_hash == p);
                },
                None => {},
            }
        } else {
            match r.parent_image_hash {
                Some(p) => {
                    let j = choose|j: int| 0 <= j < n && #[trigger] s.records[j].image_hash == p;
                    assert(t.records[j].image_hash == p);
                },
                None => {},
            }
        }
    }
    assert forall|i: int, j: int| 0 <= i < j < t.records.len() implies #[trigger] t.records[i].image_hash
        != #[trigger] t.records[j].image_hash by {
        if j == n {
            assert(t.records[i].image_hash == s.records[i].image_hash);
        } else {
            assert(t.records[i].image_hash == s.records[i].image_hash);
            assert(t.records[j].image_hash == s.records[j].image_hash);
        }
    }
}

/// What a successful dictionary lookup or registration yields: the records
/// are untouched, the name holds the returned id, and the dictionary either
/// stays or grows by exactly that name.
pub proof fn lemma_register(s: RegistryView, name: Seq<u8>)
    requires
        s.valid(),
    ensures
        register_outcome(s, name) matches Ok((t, id)) ==> {
            &&& t.valid()
            &&& t.config == s.config
            &&& t.records == s.records
            &&& t.total == s.total
            &&& id < t.authorities.len()
            &&& t.authorities[id as int] == name
            &&& if s.has_authority(name) {
                t == s
            } else {
                t.authorities == s.authorities.push(name) && id == s.authorities.len()
            }
        },
{
    if name.len() <= s.config.max_authority_id_length && !s.has_authority(name)
        && s.authorities.len() < MAX_AUTHORITIES {
        let (t, id) = register_outcome(s, name)->Ok_0;
        let n = s.authorities.len() as int;
        assert forall|i: int, j: int| 0 <= i < j < t.authorities.len() implies #[trigger] t.authorities[i]
            != #[trigger] t.authorities[j] by {
            if j == n {
                assert(t.authorities[i] == s.authorities[i]);
            } else {
                assert(t.authorities[i] == s.authorities[i]);
                assert(t.authorities[j] == s.authorities[j]);
            }
        }
        assert forall|i: int| 0 <= i < t.records.len() implies #[trigger] t.record_ok(i) by {
            assert(s.record_ok(i));
        }
        assert forall|i: int| 0 <= i < t.authorities.len() implies #[trigger] t.authorities[i].len()
            <= t.config.max_authority_id_length by {
            if i < n {
                assert(t.authorities[i] == s.authorities[i]);
            }
        }
    }
}

/// A successful pipeline step keeps a registry valid and appends exactly one
/// record, under the canonical key of the submitted hash.
pub proof fn lemma_item(
    s: RegistryView,
    image_hash: Seq<u8>,
    submission_type: SubmissionType,
    modification_level: u8,
    parent_image_hash: Option<Seq<u8>>,
    authority_name: Seq<u8>,
    timestamp: u32,
    block_number: u32,
)
    requires
        s.valid(),
    ensures
        item_outcome(
            s,
            image_hash,
            submission_type,
            modification_level,
            parent_image_hash,
            authority_name,
            timestamp,
            block_number,
        ) matches Ok(t) ==> {
            &&& t.valid()
            &&& t.config == s.config
            &&& t.records == s.records.push(t.records.last())
            &&& t.total == s.total + 1
            &&& t.records.last().image_hash == hash_key(canonical_hash(image_hash)->0)
            &&& s.authorities.is_prefix_of(t.authorities)
        },
{
    lemma_register(s, authority_name);
    match item_outcome(
        s,
        image_hash,
        submission_type,
        modification_level,
        parent_image_hash,
        authority_name,
        timestamp,
        block_number,
    ) {
        Ok(t) => {
            let (u, id) = register_outcome(s, authority_name)->Ok_0;
            let r = t.records.last();
            assert(t == u.with_record(r));
            assert(!u.contains_hash(r.image_hash));
            lemma_with_record_valid(u, r);
            assert(t.records =~= s.records.push(r));
            assert(s.authorities.is_prefix_of(u.authorities));
        },
        Err(_) => {},
    }
}

/// Once an item fails, the batch fails with its error, whatever follows.
pub proof fn lemma_items_error(s: RegistryView, items: Seq<Submission>, k: int, timestamp: u32, block_number: u32)
    requires
        0 <= k <= items.len(),
        items_outcome(s, items.take(k), timestamp, block_number) is Err,
    ensures
        items_outcome(s, items, timestamp, block_number) == items_outcome(s, items.take(k), timestamp, block_number),
    decreases items.len() - k,
{
    if k < items.len() {
        assert(items.take(k + 1).drop_last() =~= items.take(k));
        lemma_items_error(s, items, k + 1, timestamp, block_number);
    } else {
        assert(items.take(k) =~= items);
    }
}

/// Notifications do not affect validity.
pub proof fn lemma_with_event_valid(s: RegistryView, e: EventView)
    requires
        s.valid(),
    ensures
        s.with_event(e).valid(),
{
    let t = s.with_event(e);
    assert forall|i: int| 0 <= i < t.records.len() implies #[trigger] t.record_ok(i) by {
        assert(s.record_ok(i));
    }
}

} // verus!
