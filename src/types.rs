//! The registry's data: records, notifications, errors and limits.
use vstd::prelude::*;

verus! {

/// Where an image record comes from.
#[derive(Clone, Copy, Debug, PartialEq, Eq, Structural)]
pub enum SubmissionType {
    Camera,
    Software,
}

/// One immutable entry of the registry, keyed by its canonical image hash.
#[derive(Clone, Copy, Debug, PartialEq, Eq)]
pub struct ImageRecord {
    /// Canonical 32-byte content hash.
    pub image_hash: [u8; 32],
    pub submission_type: SubmissionType,
    /// 0 = raw sensor data, 1 = validated or minor edits, 2 = modified.
    pub modification_level: u8,
    /// Canonical hash of the record this image was derived from.
    pub parent_image_hash: Option<[u8; 32]>,
    /// Index into the authority dictionary.
    pub authority_id: u16,
    /// Ledger time of submission (not capture time).
    pub timestamp: u32,
    /// Ledger height of submission.
    pub block_number: u32,
}

/// Why a submission was rejected.
#[derive(Clone, Copy, Debug, PartialEq, Eq, Structural)]
pub enum Error {
    /// The image hash is neither 32 raw bytes nor 64 hexadecimal characters.
    InvalidHashLength,
    /// The modification level is not 0, 1 or 2.
    InvalidModificationLevel,
    /// The authority name is longer than the configured maximum.
    AuthorityNameTooLong,
    /// The image hash is already registered.
    HashAlreadyExists,
    /// The named parent hash is not registered.
    ParentHashNotFound,
    /// The parent hash is neither 32 raw bytes nor 64 hexadecimal characters.
    InvalidParentHashLength,
    /// A batch with no items.
    EmptyBatch,
    /// A batch with more than the allowed number of items.
    BatchTooLarge,
    /// No authority has the given id.
    AuthorityNotFound,
    /// Every authority id has been assigned.
    TooManyAuthorities,
}

/// A notification emitted by a successful operation.
#[derive(Clone, Debug, PartialEq, Eq)]
pub enum Event {
    /// A single record was committed.
    ImageRecordSubmitted { image_hash: [u8; 32], authority_id: u16, modification_level: u8 },
    /// A batch of `count` records was committed.
    ImageBatchSubmitted { count: u32 },
    /// A new authority name received an id.
    AuthorityRegistered { authority_id: u16, authority_name: Vec<u8> },
}

/// The mathematical value of an [`Event`].
pub enum EventView {
    ImageRecordSubmitted { image_hash: [u8; 32], authority_id: u16, modification_level: u8 },
    ImageBatchSubmitted { count: u32 },
    AuthorityRegistered { authority_id: u16, authority_name: Seq<u8> },
}

impl View for Event {
    type V = EventView;

    open spec fn view(&self) -> EventView {
        match self {
            Event::ImageRecordSubmitted { image_hash, authority_id, modification_level } =>
                EventView::ImageRecordSubmitted {
                image_hash: *image_hash,
                authority_id: *authority_id,
                modification_level: *modification_level,
            },
            Event::ImageBatchSubmitted { count } => EventView::ImageBatchSubmitted { count: *count },
            Event::AuthorityRegistered { authority_id, authority_name } =>
                EventView::AuthorityRegistered {
                authority_id: *authority_id,
                authority_name: authority_name@,
            },
        }
    }
}

/// Limits of a registry, fixed when it is created.
#[derive(Clone, Copy, Debug, PartialEq, Eq, Structural)]
pub struct Config {
    /// Longest accepted authority name, in bytes.
    pub max_authority_id_length: u32,
}

/// One submission: image hash (raw or hex), origin, modification level,
/// optional parent hash (raw or hex), authority name.
pub type Submission = (Vec<u8>, SubmissionType, u8, Option<Vec<u8>>, Vec<u8>);

} // verus!
