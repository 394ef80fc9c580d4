//! Searching the record log by key.
use vstd::prelude::*;

use crate::types::ImageRecord;

verus! {

/// Whether two canonical hashes are equal.
pub fn same_hash(a: &[u8; 32], b: &[u8; 32]) -> (r: bool)
    ensures
        r == (*a == *b),
{
    let mut i: usize = 0;
    while i < 32
        invariant
            i <= 32,
            forall|k: int| 0 <= k < i ==> a@[k] == b@[k],
        decreases 32 - i,
    {
        if a[i] != b[i] {
            assert(a@[i as int] != b@[i as int]);
            return false;
        }
        i = i + 1;
    }
    assert(*a =~= *b);
    true
}

/// The position of the record with key `key` in `records`, if any.
pub fn find_record(records: &Vec<ImageRecord>, key: &[u8; 32]) -> (r: Option<usize>)
    ensures
        match r {
            Some(i) => i < records@.len() && records@[i as int].image_hash == *key,
            None => forall|i: int|
                0 <= i < records@.len() ==> #[trigger] records@[i].image_hash != *key,
        },
{
    let mut i: usize = 0;
    while i < records.len()
        invariant
            i <= records@.len(),
            forall|k: int| 0 <= k < i ==> #[trigger] records@[k].image_hash != *key,
        decreases records@.len() - i,
    {
        if same_hash(&records[i].image_hash, key) {
            return Some(i);
        }
        i = i + 1;
    }
    None
}

} // verus!
