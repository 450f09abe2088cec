use vstd::prelude::*;

use crate::error::{IoErrorKind, IoFailure};
use crate::save_sync::SnapshotManifest;

verus! {

/// The current version of the peer protocol.
pub const SYNC_PROTOCOL_VERSION: u32 = 1;

/// The largest control message, in bytes.
pub const MAX_CONTROL_MESSAGE_BYTES: usize = 1048576;

/// The number of bytes of a control message's length prefix.
pub const MESSAGE_LENGTH_BYTES: usize = 4;

/// The largest blob that a peer may announce, in bytes.
pub const MAX_BLOB_BYTES: u64 = 536870912;

/// Identifies a peer when an authenticated connection starts.
#[derive(Debug, Clone, PartialEq)]
pub struct PeerHello {
    pub protocol_version: u32,
    pub device_id: String,
    pub device_name: String,
}

/// A compact summary of one snapshot, used when comparing histories.
#[derive(Debug, Clone, PartialEq)]
pub struct SnapshotDescriptor {
    pub snapshot_id: String,
    pub parent_snapshot_id: Option<String>,
    pub device_id: String,
    pub created_at: String,
    pub file_count: usize,
}

impl SnapshotDescriptor {
    /// A network safe summary of a verified local manifest: its identity and how many
    /// files it has, without the file details.
    pub fn from_manifest(manifest: &SnapshotManifest) -> (r: Self)
        ensures
            r.snapshot_id@ == manifest.snapshot_id@,
            r.parent_snapshot_id == manifest.parent_snapshot_id,
            r.device_id@ == manifest.device_id@,
            r.created_at@ == manifest.created_at@,
            r.file_count == manifest.files@.len(),
    {
        let parent_snapshot_id = match &manifest.parent_snapshot_id {
            Some(p) => Some(p.clone()),
            None => None,
        };
        SnapshotDescriptor {
            snapshot_id: manifest.snapshot_id.clone(),
            parent_snapshot_id,
            device_id: manifest.device_id.clone(),
            created_at: manifest.created_at.clone(),
            file_count: manifest.files.len(),
        }
    }
}

/// Machine readable categories of peer protocol failures.
#[derive(Debug, Clone, Copy, PartialEq, Eq, Structural)]
pub enum SyncProtocolErrorCode {
    UnsupportedVersion,
    Unauthorized,
    InvalidRequest,
    NotFound,
    IntegrityFailure,
    Internal,
}

/// A control message between two paired installations.
#[derive(Debug, PartialEq)]
pub enum SyncMessage {
    /// Begins the application protocol once the secure connection is open.
    Hello(PeerHello),
    /// Asks for the snapshot history of one visual novel.
    SnapshotInventoryRequest { vn_sync_id: String },
    /// The snapshot summaries of a visual novel, newest first.
    SnapshotInventory { vn_sync_id: String, snapshots: Vec<SnapshotDescriptor> },
    /// Asks for one complete snapshot manifest.
    ManifestRequest { vn_sync_id: String, snapshot_id: String },
    /// A manifest that the sender has verified locally.
    Manifest { manifest: SnapshotManifest },
    /// Asks for one save blob.
    BlobRequest { vn_sync_id: String, content_hash: String },
    /// Announces the raw blob bytes that follow the message.
    BlobReady { content_hash: String, size_bytes: u64 },
    /// Confirms that a snapshot and all its blobs were received.
    TransferComplete { vn_sync_id: String, snapshot_id: String },
    /// Reports a request that the peer would not complete.
    Error { code: SyncProtocolErrorCode, message: String },
}

/// The four big-endian bytes of `n`.
pub open spec fn be_bytes(n: u32) -> Seq<u8> {
    seq![((n >> 24u32) & 0xffu32) as u8, ((n >> 16u32) & 0xffu32) as u8, ((n >> 8u32) & 0xffu32) as u8, (n & 0xffu32) as u8]
}

/// The number that four big-endian bytes spell.
pub open spec fn be_value(b: Seq<u8>) -> int {
    b[0] * 16777216 + b[1] * 65536 + b[2] * 256 + b[3]
}

proof fn lemma_be_round_trip(n: u32)
    ensures
        be_value(be_bytes(n)) == n,
{
    let b0 = ((n >> 24u32) & 0xffu32) as u8;
    let b1 = ((n >> 16u32) & 0xffu32) as u8;
    let b2 = ((n >> 8u32) & 0xffu32) as u8;
    let b3 = (n & 0xffu32) as u8;
    assert(b0 as u32 * 16777216u32 + b1 as u32 * 65536u32 + b2 as u32 * 256u32 + b3 as u32 == n
        && b0 as u32 * 16777216u32 <= 0xffff_ffffu32) by (bit_vector)
        requires
            b0 == ((n >> 24u32) & 0xffu32) as u8,
            b1 == ((n >> 16u32) & 0xffu32) as u8,
            b2 == ((n >> 8u32) & 0xffu32) as u8,
            b3 == (n & 0xffu32) as u8;
}

/// The bytes sent for one encoded control message: its length as four big-endian
/// bytes, then the message itself.
pub open spec fn framed(encoded: Seq<u8>) -> Seq<u8> {
    be_bytes(encoded.len() as u32) + encoded
}

/// Frames an encoded control message for transport, refusing one over the size limit.
pub fn frame_control_message(encoded: &[u8]) -> (r: Result<Vec<u8>, IoFailure>)
    ensures
        match r {
            Ok(bytes) => encoded@.len() <= MAX_CONTROL_MESSAGE_BYTES && bytes@ == framed(encoded@),
            Err(e) => encoded@.len() > MAX_CONTROL_MESSAGE_BYTES
                && e.model() == (IoErrorKind::InvalidInput, "The sync control message exceeds the size limit"@),
        },
{
    if encoded.len() > MAX_CONTROL_MESSAGE_BYTES {
        return Err(IoFailure::new(IoErrorKind::InvalidInput, "The sync control message exceeds the size limit"));
    }
    let n = encoded.len() as u32;
    let mut bytes: Vec<u8> = Vec::new();
    bytes.push(((n >> 24u32) & 0xffu32) as u8);
    bytes.push(((n >> 16u32) & 0xffu32) as u8);
    bytes.push(((n >> 8u32) & 0xffu32) as u8);
    bytes.push((n & 0xffu32) as u8);
    let mut i: usize = 0;
    while i < encoded.len()
        invariant
            i <= encoded@.len(),
            bytes@ == be_bytes(n) + encoded@.take(i as int),
        decreases encoded.len() - i,
    {
        bytes.push(encoded[i]);
        assert(encoded@.take(i + 1) =~= encoded@.take(i as int).push(encoded@[i as int]));
        i = i + 1;
    }
    assert(encoded@.take(encoded@.len() as int) =~= encoded@);
    Ok(bytes)
}

pub open spec fn oversized_message_failure() -> (IoErrorKind, Seq<char>) {
    (IoErrorKind::InvalidData, "The peer sent an oversized sync control message..."@)
}

/// Reads the length that a control message's prefix announces, refusing one over the
/// size limit.
pub fn control_message_length(prefix: &[u8; 4]) -> (r: Result<usize, IoFailure>)
    ensures
        match r {
            Ok(n) => n == be_value(prefix@) && n <= MAX_CONTROL_MESSAGE_BYTES,
            Err(e) => be_value(prefix@) > MAX_CONTROL_MESSAGE_BYTES && e.model() == oversized_message_failure(),
        },
{
    let value: u64 = prefix[0] as u64 * 16777216 + prefix[1] as u64 * 65536 + prefix[2] as u64 * 256 + prefix[3] as u64;
    if value > MAX_CONTROL_MESSAGE_BYTES as u64 {
        return Err(IoFailure::new(IoErrorKind::InvalidData, "The peer sent an oversized sync control message..."));
    }
    Ok(value as usize)
}

/// A framed message announces exactly the length of the message it carries, and the
/// message follows the prefix unchanged.
pub proof fn law_framing_round_trip(encoded: Seq<u8>)
    requires
        encoded.len() <= MAX_CONTROL_MESSAGE_BYTES,
    ensures
        be_value(framed(encoded).take(4)) == encoded.len(),
        framed(encoded).skip(4) == encoded,
{
    let n = encoded.len() as u32;
    lemma_be_round_trip(n);
    assert(framed(encoded).take(4) =~= be_bytes(n));
    assert(framed(encoded).skip(4) =~= encoded);
}

} // verus!
