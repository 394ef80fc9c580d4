//! Properties of the registry that relate several operations or hold of
//! every reachable state, stated over the model and proved.
use vstd::prelude::*;

use crate::hash::{all_hex, canonical_hash, hex_decode};
use crate::model::{
    batch_outcome, hash_key, item_outcome, items_outcome, lemma_item, lemma_items_error, lemma_register,
    register_outcome, saturate_u32, single_outcome, submission_outcome, RegistryView,
    MAX_BATCH_SIZE,
};
use crate::types::{Error, ImageRecord, Submission, SubmissionType};

verus! {

/// The canonical key of a submitted hash.
pub open spec fn key_of(image_hash: Seq<u8>) -> [u8; 32] {
    hash_key(canonical_hash(image_hash)->0)
}

/// The item's own fields pass the shape checks that precede the store
/// lookups: a well-formed hash, a known level, a name within the limit and,
/// if given, a well-formed parent hash.
pub open spec fn shape_ok(s: RegistryView, item: Submission) -> bool {
    &&& canonical_hash(item.0@) is Some
    &&& item.2 <= 2
    &&& item.4@.len() <= s.config.max_authority_id_length
    &&& (item.3 matches Some(p) ==> canonical_hash(p@) is Some)
}

/// The item's parent, if it names one, is committed in `s`.
pub open spec fn parent_present(s: RegistryView, item: Submission) -> bool {
    item.3 matches Some(p) ==> s.contains_hash(key_of(p@))
}

proof fn lemma_prefix_keeps_hash(s: RegistryView, t: RegistryView, h: [u8; 32])
    requires
        s.records.is_prefix_of(t.records),
        s.contains_hash(h),
    ensures
        t.contains_hash(h),
{
    let i = choose|i: int| 0 <= i < s.records.len() && #[trigger] s.records[i].image_hash == h;
    assert(t.records[i].image_hash == h);
}

/// A successful run of items keeps validity, only appends, and counts one
/// record per item.
proof fn lemma_items(s: RegistryView, items: Seq<Submission>, timestamp: u32, block_number: u32)
    requires
        s.valid(),
    ensures
        items_outcome(s, items, timestamp, block_number) matches Ok(t) ==> {
            &&& t.valid()
            &&& t.config == s.config
            &&& s.records.is_prefix_of(t.records)
            &&& t.total == s.total + items.len()
            &&& forall|j: int|
                0 <= j < items.len() ==> canonical_hash(#[trigger] items[j].0@) is Some
                    && t.contains_hash(key_of(items[j].0@))
        },
    decreases items.len(),
{
    if items.len() > 0 {
        let rest = items.drop_last();
        lemma_items(s, rest, timestamp, block_number);
        match items_outcome(s, rest, timestamp, block_number) {
            Ok(u) => {
                let it = items.last();
                lemma_item(
                    u,
                    it.0@,
                    it.1,
                    it.2,
                    match it.3 {
                        Some(p) => Some(p@),
                        None => None,
                    },
                    it.4@,
                    timestamp,
                    block_number,
                );
                match submission_outcome(u, it, timestamp, block_number) {
                    Ok(t) => {
                        let n = u.records.len() as int;
                        assert(t.records[n].image_hash == key_of(it.0@));
                        assert forall|j: int| 0 <= j < items.len() implies canonical_hash(
                            #[trigger] items[j].0@,
                        ) is Some && t.contains_hash(key_of(items[j].0@)) by {
                            if j < items.len() - 1 {
                                assert(items[j] == rest[j]);
                                lemma_prefix_keeps_hash(u, t, key_of(items[j].0@));
                            }
                        }
                    },
                    Err(_) => {},
                }
            },
            Err(_) => {},
        }
    }
}

/// Uniqueness: once a hash is committed, a later single submission of the
/// same canonical hash (with any metadata that passes the shape and parent
/// checks) is refused as a duplicate. The refused call changes nothing.
pub proof fn law_duplicate_refused(s: RegistryView, item: Submission, now: u64, block_number: u64)
    requires
        s.valid(),
        shape_ok(s, item),
        parent_present(s, item),
        s.contains_hash(key_of(item.0@)),
    ensures
        single_outcome(s, item, now, block_number) == Err::<RegistryView, Error>(
            Error::HashAlreadyExists,
        ),
{
}

/// Uniqueness within and across batches: an item whose canonical hash is
/// already committed, or was committed by an earlier item of the same batch,
/// makes the whole batch fail as a duplicate.
pub proof fn law_duplicate_refused_in_batch(
    s: RegistryView,
    items: Seq<Submission>,
    k: int,
    now: u64,
    block_number: u64,
)
    requires
        s.valid(),
        0 <= k < items.len() <= MAX_BATCH_SIZE,
        items_outcome(s, items.take(k), saturate_u32(now), saturate_u32(block_number)) matches Ok(
            t,
        ) && shape_ok(t, items[k]) && parent_present(t, items[k]) && t.contains_hash(
            key_of(items[k].0@),
        ),
    ensures
        batch_outcome(s, items, now, block_number) == Err::<RegistryView, Error>(
            Error::HashAlreadyExists,
        ),
{
    law_batch_atomic(s, items, k, now, block_number);
}

/// A committed hash stays committed: a successful single submission keeps
/// every earlier record, adds its own key and counts exactly one more record.
pub proof fn law_commit_keeps_hashes(s: RegistryView, item: Submission, now: u64, block_number: u64)
    requires
        s.valid(),
        single_outcome(s, item, now, block_number) is Ok,
    ensures
        ({
            let t = single_outcome(s, item, now, block_number)->Ok_0;
            &&& t.valid()
            &&& s.records.is_prefix_of(t.records)
            &&& forall|h: [u8; 32]| s.contains_hash(h) ==> #[trigger] t.contains_hash(h)
            &&& t.contains_hash(key_of(item.0@))
            &&& t.total == s.total + 1
        }),
{
    let ts = saturate_u32(now);
    let bn = saturate_u32(block_number);
    lemma_item(
        s,
        item.0@,
        item.1,
        item.2,
        match item.3 {
            Some(p) => Some(p@),
            None => None,
        },
        item.4@,
        ts,
        bn,
    );
    let t = single_outcome(s, item, now, block_number)->Ok_0;
    let u = submission_outcome(s, item, ts, bn)->Ok_0;
    assert(u.records[s.records.len() as int].image_hash == key_of(item.0@));
    assert(t.records == u.records);
    assert forall|h: [u8; 32]| s.contains_hash(h) implies #[trigger] t.contains_hash(h) by {
        lemma_prefix_keeps_hash(s, t, h);
    }
    assert forall|i: int| 0 <= i < t.records.len() implies #[trigger] t.record_ok(i) by {
        assert(u.record_ok(i));
    }
}

/// A successful batch keeps every earlier record, commits the key of each of
/// its items and counts exactly one more record per item.
pub proof fn law_batch_keeps_hashes(s: RegistryView, items: Seq<Submission>, now: u64, block_number: u64)
    requires
        s.valid(),
        batch_outcome(s, items, now, block_number) is Ok,
    ensures
        ({
            let t = batch_outcome(s, items, now, block_number)->Ok_0;
            &&& t.valid()
            &&& forall|h: [u8; 32]| s.contains_hash(h) ==> #[trigger] t.contains_hash(h)
            &&& forall|j: int| 0 <= j < items.len() ==> t.contains_hash(key_of(#[trigger] items[j].0@))
            &&& t.total == s.total + items.len()
        }),
{
    let ts = saturate_u32(now);
    let bn = saturate_u32(block_number);
    lemma_items(s, items, ts, bn);
    let t = batch_outcome(s, items, now, block_number)->Ok_0;
    let u = items_outcome(s, items, ts, bn)->Ok_0;
    assert(t.records == u.records);
    assert forall|h: [u8; 32]| s.contains_hash(h) implies #[trigger] t.contains_hash(h) by {
        lemma_prefix_keeps_hash(s, t, h);
    }
    assert forall|j: int| 0 <= j < items.len() implies t.contains_hash(key_of(#[trigger] items[j].0@)) by {
        assert(u.contains_hash(key_of(items[j].0@)));
    }
    assert forall|i: int| 0 <= i < t.records.len() implies #[trigger] t.record_ok(i) by {
        assert(u.record_ok(i));
    }
}

/// Normalisation equivalence: a hash given as 64 hex characters and the 32
/// bytes they encode have the same canonical key, and a submission behaves
/// identically whichever form it uses.
pub proof fn law_hex_equals_binary(
    s: RegistryView,
    hex: Seq<u8>,
    bin: Seq<u8>,
    submission_type: SubmissionType,
    modification_level: u8,
    parent_image_hash: Option<Seq<u8>>,
    authority_name: Seq<u8>,
    timestamp: u32,
    block_number: u32,
)
    requires
        hex.len() == 64,
        all_hex(hex),
        bin == hex_decode(hex),
    ensures
        canonical_hash(hex) == canonical_hash(bin),
        key_of(hex) == key_of(bin),
        item_outcome(
            s,
            hex,
            submission_type,
            modification_level,
            parent_image_hash,
            authority_name,
            timestamp,
            block_number,
        ) == item_outcome(
            s,
            bin,
            submission_type,
            modification_level,
            parent_image_hash,
            authority_name,
            timestamp,
            block_number,
        ),
{
}

/// Provenance: a single submission whose otherwise well-formed item names a
/// parent that is not committed fails with `ParentHashNotFound`.
pub proof fn law_missing_parent_refused(s: RegistryView, item: Submission, now: u64, block_number: u64)
    requires
        shape_ok(s, item),
        item.3 is Some,
        !parent_present(s, item),
    ensures
        single_outcome(s, item, now, block_number) == Err::<RegistryView, Error>(
            Error::ParentHashNotFound,
        ),
{
}

/// Provenance in a batch: wherever it stands, an otherwise well-formed item
/// whose parent is neither committed nor committed by an earlier item of the
/// batch makes the whole batch fail with `ParentHashNotFound`.
pub proof fn law_missing_parent_refused_in_batch(
    s: RegistryView,
    items: Seq<Submission>,
    k: int,
    now: u64,
    block_number: u64,
)
    requires
        0 <= k < items.len() <= MAX_BATCH_SIZE,
        items_outcome(s, items.take(k), saturate_u32(now), saturate_u32(block_number)) matches Ok(
            t,
        ) && shape_ok(t, items[k]) && items[k].3 is Some && !parent_present(t, items[k]),
    ensures
        batch_outcome(s, items, now, block_number) == Err::<RegistryView, Error>(
            Error::ParentHashNotFound,
        ),
{
    law_batch_atomic(s, items, k, now, block_number);
}

/// Provenance in a batch: when item `k` names as parent the hash of an
/// earlier item `j` of the same batch, and the items before `k` succeeded,
/// that parent is committed by the time item `k` is checked, so item `k` is
/// not refused for a missing parent.
pub proof fn law_parent_from_same_batch(
    s: RegistryView,
    items: Seq<Submission>,
    j: int,
    k: int,
    timestamp: u32,
    block_number: u32,
)
    requires
        s.valid(),
        0 <= j < k < items.len(),
        items_outcome(s, items.take(k), timestamp, block_number) is Ok,
        items[k].3 matches Some(p) && canonical_hash(p@) is Some && canonical_hash(p@)
            == canonical_hash(items[j].0@),
    ensures
        ({
            let t = items_outcome(s, items.take(k), timestamp, block_number)->Ok_0;
            &&& parent_present(t, items[k])
            &&& submission_outcome(t, items[k], timestamp, block_number) != Err::<
                RegistryView,
                Error,
            >(Error::ParentHashNotFound)
        }),
{
    let pre = items.take(k);
    lemma_items(s, pre, timestamp, block_number);
    assert(pre[j] == items[j]);
}

/// Every parent link points to an earlier record, so provenance chains are
/// acyclic and strictly chronological.
pub proof fn law_parents_precede_children(s: RegistryView, i: int)
    requires
        s.valid(),
        0 <= i < s.records.len(),
        s.records[i].parent_image_hash is Some,
    ensures
        exists|j: int|
            0 <= j < i && #[trigger] s.records[j].image_hash == s.records[i].parent_image_hash->0,
{
    assert(s.record_ok(i));
}

/// Dictionary idempotence: registering a name a second time returns the
/// same id and changes nothing, and the next id has advanced by one in total
/// if the name was new, and not at all otherwise.
pub proof fn law_register_idempotent(s: RegistryView, name: Seq<u8>)
    requires
        s.valid(),
        register_outcome(s, name) is Ok,
    ensures
        ({
            let (t, id) = register_outcome(s, name)->Ok_0;
            &&& register_outcome(t, name) == Ok::<(RegistryView, u16), Error>((t, id))
            &&& t.next_authority_id() == s.next_authority_id() + if s.has_authority(name) {
                0int
            } else {
                1int
            }
        }),
{
    lemma_register(s, name);
    let (t, id) = register_outcome(s, name)->Ok_0;
    assert(t.authorities[id as int] == name);
    let c = choose|c: int| 0 <= c < t.authorities.len() && #[trigger] t.authorities[c] == name;
    assert(c == id);
}

/// Batch atomicity: when the items before `k` succeed and item `k` fails, the
/// batch fails with item `k`'s error. A failed batch leaves the registry
/// exactly as it was, so none of its items is reflected.
pub proof fn law_batch_atomic(s: RegistryView, items: Seq<Submission>, k: int, now: u64, block_number: u64)
    requires
        0 <= k < items.len() <= MAX_BATCH_SIZE,
        items_outcome(s, items.take(k), saturate_u32(now), saturate_u32(block_number)) matches Ok(
            t,
        ) && submission_outcome(t, items[k], saturate_u32(now), saturate_u32(block_number)) is Err,
    ensures
        batch_outcome(s, items, now, block_number) == submission_outcome(
            items_outcome(s, items.take(k), saturate_u32(now), saturate_u32(block_number))->Ok_0,
            items[k],
            saturate_u32(now),
            saturate_u32(block_number),
        ),
{
    let ts = saturate_u32(now);
    let bn = saturate_u32(block_number);
    assert(items.take(k + 1).drop_last() =~= items.take(k));
    assert(items.take(k + 1).last() == items[k]);
    lemma_items_error(s, items, k + 1, ts, bn);
}

/// Counting: in every valid registry the record counter equals the number of
/// distinct committed hashes.
pub proof fn law_total_counts_distinct_hashes(s: RegistryView)
    requires
        s.valid(),
    ensures
        s.total == s.hashes().len(),
{
    let keys = s.records.map_values(|r: ImageRecord| r.image_hash);
    assert(keys.no_duplicates()) by {
        assert forall|i: int, j: int|
            0 <= i < keys.len() && 0 <= j < keys.len() && i != j implies keys[i] != keys[j] by {
            if i < j {
                assert(s.records[i].image_hash != s.records[j].image_hash);
            } else {
                assert(s.records[j].image_hash != s.records[i].image_hash);
            }
        }
    }
    keys.unique_seq_to_set();
}

} // verus!
