//! The registry: single and batch submission, and queries.
//!
//! Every mutation is first staged in a [`Pending`] buffer, checked against the
//! committed state plus what is already staged, and appended to the registry
//! only once the whole operation has succeeded. A failed operation drops its
//! buffer, so the registry never sees part of it.
use vstd::prelude::*;
use vstd::slice::slice_to_vec;

use crate::authority::find_name;
use crate::hash::{canonical_hash, normalize};
use crate::model::{
    batch_outcome, item_outcome, items_outcome, lemma_hash_key, lemma_item, lemma_items_error,
    lemma_register, lemma_with_event_valid, register_outcome, saturate_u32, single_outcome, submission_outcome,
    RegistryView, MAX_AUTHORITIES, MAX_BATCH_SIZE,
};
use crate::store::find_record;
use crate::types::{Config, Error, Event, EventView, ImageRecord, Submission, SubmissionType};

verus! {

/// The views of a list of names.
pub open spec fn names_view(names: Seq<Vec<u8>>) -> Seq<Seq<u8>> {
    names.map_values(|n: Vec<u8>| n@)
}

/// The views of a list of notifications.
pub open spec fn events_view(events: Seq<Event>) -> Seq<EventView> {
    events.map_values(|e: Event| e@)
}

/// The view of an optional byte string.
pub open spec fn opt_bytes(v: Option<Vec<u8>>) -> Option<Seq<u8>> {
    match v {
        Some(b) => Some(b@),
        None => None,
    }
}

/// Saturating narrowing of a ledger value to 32 bits.
pub fn saturating_u32(x: u64) -> (r: u32)
    ensures
        r == saturate_u32(x),
{
    if x > u32::MAX as u64 {
        u32::MAX
    } else {
        x as u32
    }
}

/// The image-authentication registry.
pub struct Pallet {
    config: Config,
    records: Vec<ImageRecord>,
    authorities: Vec<Vec<u8>>,
    total: u64,
    events: Vec<Event>,
}

/// Writes of an operation that has not finished yet.
struct Pending {
    records: Vec<ImageRecord>,
    authorities: Vec<Vec<u8>>,
    events: Vec<Event>,
}

impl Pending {
    fn new() -> (p: Pending)
        ensures
            p.records@.len() == 0,
            p.authorities@.len() == 0,
            p.events@.len() == 0,
    {
        Pending { records: Vec::new(), authorities: Vec::new(), events: Vec::new() }
    }
}

impl View for Pallet {
    type V = RegistryView;

    closed spec fn view(&self) -> RegistryView {
        RegistryView {
            config: self.config,
            records: self.records@,
            authorities: names_view(self.authorities@),
            total: self.total as nat,
            events: events_view(self.events@),
        }
    }
}

/// Creates the registry at genesis.
pub struct GenesisConfig {
    pub config: Config,
}

impl GenesisConfig {
    /// An empty registry: no records, no authorities, counters at zero.
    pub fn build(&self) -> (p: Pallet)
        ensures
            p.wf(),
            p@ == RegistryView::genesis(self.config),
    {
        let p = Pallet {
            config: self.config,
            records: Vec::new(),
            authorities: Vec::new(),
            total: 0,
            events: Vec::new(),
        };
        assert(p@ =~= RegistryView::genesis(self.config));
        p
    }
}

impl Pallet {
    /// The registry invariant.
    pub open spec fn wf(&self) -> bool {
        self@.valid()
    }

    /// The registry as it would be if `p` were committed.
    spec fn staged(&self, p: &Pending) -> RegistryView {
        RegistryView {
            config: self.config,
            records: self.records@ + p.records@,
            authorities: names_view(self.authorities@ + p.authorities@),
            total: (self.total + p.records@.len()) as nat,
            events: events_view(self.events@ + p.events@),
        }
    }

    proof fn lemma_staged_empty(&self, p: &Pending)
        requires
            p.records@.len() == 0,
            p.authorities@.len() == 0,
            p.events@.len() == 0,
        ensures
            self.staged(p) == self@,
    {
        assert(self.records@ + p.records@ =~= self.records@);
        assert(self.authorities@ + p.authorities@ =~= self.authorities@);
        assert(self.events@ + p.events@ =~= self.events@);
    }

    /// Whether the key is committed or staged.
    fn staged_contains(&self, p: &Pending, key: &[u8; 32]) -> (r: bool)
        ensures
            r == self.staged(p).contains_hash(*key),
    {
        let ghost s = self.staged(p);
        let n = self.records.len();
        match find_record(&self.records, key) {
            Some(i) => {
                assert(s.records[i as int].image_hash == *key);
                true
            },
            None => match find_record(&p.records, key) {
                Some(j) => {
                    assert(s.records[n + j].image_hash == *key);
                    true
                },
                None => {
                    assert forall|i: int| 0 <= i < s.records.len() implies #[trigger] s.records[i].image_hash
                        != *key by {
                        if i >= n {
                            assert(s.records[i] == p.records@[i - n]);
                        }
                    }
                    false
                },
            },
        }
    }

    /// Looks up `name` among committed and staged authorities, staging it
    /// under the next id when it is new.
    fn stage_authority(&self, p: &mut Pending, name: &[u8]) -> (r: Result<u16, Error>)
        requires
            self.staged(old(p)).valid(),
        ensures
            match register_outcome(self.staged(old(p)), name@) {
                Ok((t, id)) => r == Ok::<u16, Error>(id) && self.staged(final(p)) == t,
                Err(e) => r == Err::<u16, Error>(e) && self.staged(final(p)) == self.staged(old(p)),
            },
            final(p).records@ == old(p).records@,
    {
        let ghost s = self.staged(p);
        proof {
            lemma_register(s, name@);
        }
        if name.len() as u64 > self.config.max_authority_id_length as u64 {
            return Err(Error::AuthorityNameTooLong);
        }
        let n = self.authorities.len();
        match find_name(&self.authorities, name) {
            Some(i) => {
                assert(s.authorities[i as int] == name@);
                proof {
                    let c = choose|c: int|
                        0 <= c < s.authorities.len() && #[trigger] s.authorities[c] == name@;
                    assert(c == i);
                }
                return Ok(i as u16);
            },
            None => {},
        }
        match find_name(&p.authorities, name) {
            Some(j) => {
                assert(s.authorities[n + j] == name@);
                proof {
                    let c = choose|c: int|
                        0 <= c < s.authorities.len() && #[trigger] s.authorities[c] == name@;
                    assert(c == n + j);
                }
                return Ok((n + j) as u16);
            },
            None => {},
        }
        assert forall|i: int| 0 <= i < s.authorities.len() implies #[trigger] s.authorities[i] != name@ by {
            if i < n {
                assert(s.authorities[i] == self.authorities@[i]@);
            } else {
                assert(s.authorities[i] == p.authorities@[i - n]@);
            }
        }
        let next = n + p.authorities.len();
        if next >= MAX_AUTHORITIES {
            return Err(Error::TooManyAuthorities);
        }
        let id = next as u16;
        p.authorities.push(slice_to_vec(name));
        p.events.push(Event::AuthorityRegistered { authority_id: id, authority_name: slice_to_vec(name) });
        let ghost t = register_outcome(s, name@)->Ok_0.0;
        assert(self.staged(p).authorities =~= t.authorities);
        assert(self.staged(p).events =~= t.events);
        Ok(id)
    }

    /// Runs one submission through the pipeline against the committed and
    /// staged state, staging its writes.
    fn stage_item(
        &self,
        p: &mut Pending,
        image_hash: &[u8],
        submission_type: SubmissionType,
        modification_level: u8,
        parent_image_hash: &Option<Vec<u8>>,
        authority_name: &[u8],
        timestamp: u32,
        block_number: u32,
    ) -> (r: Result<ImageRecord, Error>)
        requires
            self.staged(old(p)).valid(),
        ensures
            match item_outcome(
                self.staged(old(p)),
                image_hash@,
                submission_type,
                modification_level,
                opt_bytes(*parent_image_hash),
                authority_name@,
                timestamp,
                block_number,
            ) {
                Ok(t) => r == Ok::<ImageRecord, Error>(t.records.last()) && self.staged(final(p)) == t,
                Err(e) => r == Err::<ImageRecord, Error>(e) && self.staged(final(p)) == self.staged(
                    old(p),
                ),
            },
    {
        let ghost s = self.staged(p);
        proof {
            lemma_item(
                s,
                image_hash@,
                submission_type,
                modification_level,
                opt_bytes(*parent_image_hash),
                authority_name@,
                timestamp,
                block_number,
            );
        }
        let key = match normalize(image_hash) {
            Some(k) => k,
            None => return Err(Error::InvalidHashLength),
        };
        proof {
            lemma_hash_key(key);
        }
        if modification_level > 2 {
            return Err(Error::InvalidModificationLevel);
        }
        if authority_name.len() as u64 > self.config.max_authority_id_length as u64 {
            return Err(Error::AuthorityNameTooLong);
        }
        let parent_key: Option<[u8; 32]> = match parent_image_hash {
            Some(parent) => match normalize(parent.as_slice()) {
                Some(k) => {
                    proof {
                        lemma_hash_key(k);
                    }
                    Some(k)
                },
                None => return Err(Error::InvalidParentHashLength),
            },
            None => None,
        };
        match parent_key {
            Some(pk) => {
                if !self.staged_contains(p, &pk) {
                    return Err(Error::ParentHashNotFound);
                }
            },
            None => {},
        }
        if self.staged_contains(p, &key) {
            return Err(Error::HashAlreadyExists);
        }
        let authority_id = match self.stage_authority(p, authority_name) {
            Ok(id) => id,
            Err(e) => return Err(e),
        };
        let record = ImageRecord {
            image_hash: key,
            submission_type,
            modification_level,
            parent_image_hash: parent_key,
            authority_id,
            timestamp,
            block_number,
        };
        let ghost u = self.staged(p);
        p.records.push(record);
        assert(self.staged(p).records =~= u.records.push(record));
        Ok(record)
    }

    /// Appends everything staged in `p` to the registry.
    fn commit(&mut self, p: Pending)
        requires
            old(self).staged(&p).valid(),
        ensures
            final(self)@ == old(self).staged(&p),
            final(self).config == old(self).config,
    {
        let ghost target = self.staged(&p);
        let mut p = p;
        let added = p.records.len();
        self.records.append(&mut p.records);
        self.authorities.append(&mut p.authorities);
        self.events.append(&mut p.events);
        assert(self.total + added == self.records@.len());
        let new_len = self.records.len();
        assert(new_len == self.records@.len());
        self.total = self.total + added as u64;
        assert(self@.records =~= target.records);
        assert(self@.authorities =~= target.authorities);
        assert(self@.events =~= target.events);
    }

    /// Canonicalises a hash given as 32 raw bytes or 64 hexadecimal
    /// characters.
    pub fn parse_image_hash(hash: &[u8]) -> (r: Result<[u8; 32], Error>)
        ensures
            match canonical_hash(hash@) {
                Some(h) => r is Ok && r->Ok_0@ == h,
                None => r == Err::<[u8; 32], Error>(Error::InvalidHashLength),
            },
    {
        match normalize(hash) {
            Some(k) => Ok(k),
            None => Err(Error::InvalidHashLength),
        }
    }

    /// Returns the id of `authority_name`, registering it under the next id
    /// (and emitting a notification) when it is new.
    pub fn register_or_get_authority(&mut self, authority_name: Vec<u8>) -> (r: Result<u16, Error>)
        requires
            old(self).wf(),
        ensures
            final(self).wf(),
            match register_outcome(old(self)@, authority_name@) {
                Ok((t, id)) => r == Ok::<u16, Error>(id) && final(self)@ == t,
                Err(e) => r == Err::<u16, Error>(e) && final(self)@ == old(self)@,
            },
    {
        let mut p = Pending::new();
        proof {
            self.lemma_staged_empty(&p);
            lemma_register(self@, authority_name@);
        }
        let r = self.stage_authority(&mut p, authority_name.as_slice());
        if r.is_ok() {
            self.commit(p);
        }
        r
    }

    /// Submits one record.
    ///
    /// The hash and the optional parent hash may each be 32 raw bytes or 64
    /// hexadecimal characters. `now` and `block_number` are the ledger's
    /// current time and height; both are stored saturated to 32 bits. On
    /// success the record is committed and a "record submitted" notification
    /// follows any "authority registered" one; on failure nothing changes.
    pub fn submit_image_record(
        &mut self,
        image_hash: Vec<u8>,
        submission_type: SubmissionType,
        modification_level: u8,
        parent_image_hash: Option<Vec<u8>>,
        authority_name: Vec<u8>,
        now: u64,
        block_number: u64,
    ) -> (r: Result<(), Error>)
        requires
            old(self).wf(),
        ensures
            final(self).wf(),
            match single_outcome(
                old(self)@,
                (image_hash, submission_type, modification_level, parent_image_hash, authority_name),
                now,
                block_number,
            ) {
                Ok(t) => r is Ok && final(self)@ == t,
                Err(e) => r == Err::<(), Error>(e) && final(self)@ == old(self)@,
            },
    {
        let timestamp = saturating_u32(now);
        let height = saturating_u32(block_number);
        let mut p = Pending::new();
        proof {
            self.lemma_staged_empty(&p);
        }
        let record = match self.stage_item(
            &mut p,
            image_hash.as_slice(),
            submission_type,
            modification_level,
            &parent_image_hash,
            authority_name.as_slice(),
            timestamp,
            height,
        ) {
            Ok(rec) => rec,
            Err(e) => return Err(e),
        };
        proof {
            lemma_item(
                self@,
                image_hash@,
                submission_type,
                modification_level,
                opt_bytes(parent_image_hash),
                authority_name@,
                timestamp,
                height,
            );
        }
        self.commit(p);
        proof {
            lemma_with_event_valid(
                self@,
                EventView::ImageRecordSubmitted {
                    image_hash: record.image_hash,
                    authority_id: record.authority_id,
                    modification_level: record.modification_level,
                },
            );
        }
        let ghost committed = self@;
        self.events.push(
            Event::ImageRecordSubmitted {
                image_hash: record.image_hash,
                authority_id: record.authority_id,
                modification_level: record.modification_level,
            },
        );
        assert(self@ =~= committed.with_event(
            EventView::ImageRecordSubmitted {
                image_hash: record.image_hash,
                authority_id: record.authority_id,
                modification_level: record.modification_level,
            },
        ));
        Ok(())
    }

    /// Submits 1 to 100 records as one unit.
    ///
    /// All items share one timestamp and height. Items are processed in order,
    /// so an item may name an earlier item of the same batch as its parent. If
    /// any item fails, the batch fails with that item's error and nothing
    /// changes; otherwise every record is committed, followed by one "batch
    /// submitted" notification, and the number of records is returned.
    pub fn submit_image_batch(&mut self, records: Vec<Submission>, now: u64, block_number: u64) -> (r: Result<u32, Error>)
        requires
            old(self).wf(),
        ensures
            final(self).wf(),
            match batch_outcome(old(self)@, records@, now, block_number) {
                Ok(t) => r == Ok::<u32, Error>(records@.len() as u32) && final(self)@ == t,
                Err(e) => r == Err::<u32, Error>(e) && final(self)@ == old(self)@,
            },
    {
        if records.len() == 0 {
            return Err(Error::EmptyBatch);
        }
        if records.len() > MAX_BATCH_SIZE {
            return Err(Error::BatchTooLarge);
        }
        let count = records.len() as u32;
        let timestamp = saturating_u32(now);
        let height = saturating_u32(block_number);
        let mut p = Pending::new();
        proof {
            self.lemma_staged_empty(&p);
            assert(records@.take(0) =~= Seq::<Submission>::empty());
        }
        let mut i: usize = 0;
        while i < records.len()
            invariant
                i <= records@.len(),
                0 < records@.len() <= MAX_BATCH_SIZE,
                timestamp == saturate_u32(now),
                height == saturate_u32(block_number),
                self.wf(),
                self@ == old(self)@,
                self.staged(&p).valid(),
                items_outcome(self@, records@.take(i as int), timestamp, height) == Ok::<
                    RegistryView,
                    Error,
                >(self.staged(&p)),
            decreases records@.len() - i,
        {
            let item = &records[i];
            let ghost before = self.staged(&p);
            proof {
                assert(records@.take(i + 1).drop_last() =~= records@.take(i as int));
                assert(records@.take(i + 1).last() == records@[i as int]);
                lemma_item(
                    before,
                    item.0@,
                    item.1,
                    item.2,
                    opt_bytes(item.3),
                    item.4@,
                    timestamp,
                    height,
                );
            }
            match self.stage_item(
                &mut p,
                item.0.as_slice(),
                item.1,
                item.2,
                &item.3,
                item.4.as_slice(),
                timestamp,
                height,
            ) {
                Ok(_) => {},
                Err(e) => {
                    proof {
                        assert(submission_outcome(before, records@[i as int], timestamp, height) == Err::<RegistryView, Error>(e));
                        assert(items_outcome(self@, records@.take(i + 1), timestamp, height) == Err::<RegistryView, Error>(e));
                        lemma_items_error(self@, records@, i + 1, timestamp, height);
                    }
                    return Err(e);
                },
            }
            i = i + 1;
        }
        proof {
            assert(records@.take(records@.len() as int) =~= records@);
        }
        self.commit(p);
        proof {
            lemma_with_event_valid(self@, EventView::ImageBatchSubmitted { count });
        }
        let ghost committed = self@;
        self.events.push(Event::ImageBatchSubmitted { count });
        assert(self@ =~= committed.with_event(EventView::ImageBatchSubmitted { count }));
        Ok(count)
    }

    /// The record with the given canonical hash, if any.
    pub fn get_image_record(&self, hash: &[u8; 32]) -> (r: Option<ImageRecord>)
        requires
            self.wf(),
        ensures
            r == self@.record(*hash),
    {
        match find_record(&self.records, hash) {
            Some(i) => {
                proof {
                    let c = choose|c: int|
                        0 <= c < self@.records.len() && #[trigger] self@.records[c].image_hash == *hash;
                    assert(self@.records[i as int].image_hash == *hash);
                    assert(c == i);
                }
                Some(self.records[i])
            },
            None => None,
        }
    }

    /// The name registered under `id`, if any.
    pub fn get_authority_name(&self, id: u16) -> (r: Option<Vec<u8>>)
        ensures
            opt_bytes(r) == self@.authority_name(id),
    {
        if (id as usize) < self.authorities.len() {
            Some(slice_to_vec(self.authorities[id as usize].as_slice()))
        } else {
            None
        }
    }

    /// Whether a record with the given canonical hash is committed.
    pub fn image_exists(&self, hash: &[u8; 32]) -> (r: bool)
        ensures
            r == self@.contains_hash(*hash),
    {
        match find_record(&self.records, hash) {
            Some(i) => {
                assert(self@.records[i as int].image_hash == *hash);
                true
            },
            None => false,
        }
    }

    /// The number of committed records.
    pub fn get_total_records(&self) -> (r: u64)
        ensures
            r == self@.total,
    {
        self.total
    }

    /// The number of committed records.
    pub fn total_records(&self) -> (r: u64)
        ensures
            r == self@.total,
    {
        self.total
    }

    /// The record with the given canonical hash, if any.
    pub fn image_records(&self, hash: &[u8; 32]) -> (r: Option<ImageRecord>)
        requires
            self.wf(),
        ensures
            r == self@.record(*hash),
    {
        self.get_image_record(hash)
    }

    /// The id the next new authority will receive.
    pub fn next_authority_id(&self) -> (r: u16)
        requires
            self.wf(),
        ensures
            r == self@.next_authority_id(),
    {
        self.authorities.len() as u16
    }

    /// The notifications emitted so far, oldest first.
    pub fn events(&self) -> (r: &[Event])
        ensures
            events_view(r@) == self@.events,
    {
        self.events.as_slice()
    }

    /// The limits this registry was created with.
    pub fn config(&self) -> (r: Config)
        ensures
            r == self@.config,
    {
        self.config
    }
}

} // verus!
