use vstd::prelude::*;

use crate::error::{IoErrorKind, IoFailure};
use crate::hashing::{blake3_hex, ContentHasher};
use crate::paths::LocalPath;
use crate::save_sync::{content_hash_check, fingerprint_from, FileFingerprint, SnapshotFile, SnapshotManifest};
use crate::sync_protocol::{
    SnapshotDescriptor, SyncMessage, SyncProtocolErrorCode, MAX_BLOB_BYTES, SYNC_PROTOCOL_VERSION,
};

verus! {

/// A blob of the local store whose contents were checked against its name.
#[derive(Debug, PartialEq)]
pub struct VerifiedLocalBlob {
    pub path: LocalPath,
    pub content_hash: String,
    pub size_bytes: u64,
}

/// A `BlobReady` answer and the blob it announces.
#[derive(Debug, PartialEq)]
pub struct PreparedBlobResponse {
    pub ready_message: SyncMessage,
    pub blob: VerifiedLocalBlob,
}

/// Identifies one completed outgoing snapshot transfer.
#[derive(Debug, Clone, PartialEq)]
pub struct CompletedPeerTransfer {
    pub vn_sync_id: String,
    pub snapshot_id: String,
}

/// A snapshot received from another device.
#[derive(Debug, PartialEq)]
pub struct ReceivedPeerSnapshot {
    pub manifest: SnapshotManifest,
    pub downloaded_blob_count: usize,
}

/// An error message as plain values.
pub open spec fn error_message(m: SyncMessage) -> Option<(SyncProtocolErrorCode, Seq<char>)> {
    match m {
        SyncMessage::Error { code, message } => Some((code, message@)),
        _ => None,
    }
}

fn error_reply(code: SyncProtocolErrorCode, message: &str) -> (r: SyncMessage)
    ensures
        error_message(r) == Some((code, message@)),
{
    SyncMessage::Error { code, message: message.to_owned() }
}

/// The visual novel and blob that a blob request asks for.
pub fn requested_blob(request: &SyncMessage) -> (r: Option<(String, String)>)
    ensures
        match *request {
            SyncMessage::BlobRequest { vn_sync_id, content_hash } => r matches Some((v, h)) && v@ == vn_sync_id@ && h@ == content_hash@,
            _ => r is None,
        },
{
    match request {
        SyncMessage::BlobRequest { vn_sync_id, content_hash } => Some((vn_sync_id.clone(), content_hash.clone())),
        _ => None,
    }
}

/// The answer to a blob request for which looking up the local blob failed with `kind`.
pub open spec fn blob_lookup_error(kind: IoErrorKind) -> (SyncProtocolErrorCode, Seq<char>) {
    if kind == IoErrorKind::InvalidInput {
        (SyncProtocolErrorCode::InvalidRequest, "The blob request is invalid"@)
    } else if kind == IoErrorKind::NotFound {
        (SyncProtocolErrorCode::NotFound, "The requested blob does not exist"@)
    } else if kind == IoErrorKind::InvalidData {
        (SyncProtocolErrorCode::IntegrityFailure, "The requested blob failed verification"@)
    } else {
        (SyncProtocolErrorCode::Internal, "The requested blob could not be opened"@)
    }
}

/// Answers a blob request: `lookup` is the outcome of looking up, for the visual novel and
/// content hash that the request names, the verified local blob.
pub fn prepare_blob_response(request: SyncMessage, lookup: Result<VerifiedLocalBlob, IoFailure>) -> (r: Result<PreparedBlobResponse, SyncMessage>)
    ensures
        match request {
            SyncMessage::BlobRequest { .. } => match lookup {
                Ok(blob) => r matches Ok(p) && p.blob == blob && match p.ready_message {
                    SyncMessage::BlobReady { content_hash, size_bytes } => content_hash@ == blob.content_hash@ && size_bytes == blob.size_bytes,
                    _ => false,
                },
                Err(e) => r matches Err(m) && error_message(m) == Some(blob_lookup_error(e.kind)),
            },
            _ => r matches Err(m) && error_message(m) == Some((SyncProtocolErrorCode::InvalidRequest, "Expected a blob request"@)),
        },
{
    match request {
        SyncMessage::BlobRequest { .. } => {},
        _ => return Err(error_reply(SyncProtocolErrorCode::InvalidRequest, "Expected a blob request")),
    }
    let blob = match lookup {
        Ok(blob) => blob,
        Err(e) => {
            if e.kind == IoErrorKind::InvalidInput {
                return Err(error_reply(SyncProtocolErrorCode::InvalidRequest, "The blob request is invalid"));
            } else if e.kind == IoErrorKind::NotFound {
                return Err(error_reply(SyncProtocolErrorCode::NotFound, "The requested blob does not exist"));
            } else if e.kind == IoErrorKind::InvalidData {
                return Err(error_reply(SyncProtocolErrorCode::IntegrityFailure, "The requested blob failed verification"));
            } else {
                return Err(error_reply(SyncProtocolErrorCode::Internal, "The requested blob could not be opened"));
            }
        },
    };
    let ready_message = SyncMessage::BlobReady { content_hash: blob.content_hash.clone(), size_bytes: blob.size_bytes };
    Ok(PreparedBlobResponse { ready_message, blob })
}

/// The visual novel whose snapshots a request asks for, for an inventory or manifest request.
pub fn requested_vn(request: &SyncMessage) -> (r: Option<String>)
    ensures
        match *request {
            SyncMessage::SnapshotInventoryRequest { vn_sync_id } => r matches Some(v) && v@ == vn_sync_id@,
            SyncMessage::ManifestRequest { vn_sync_id, .. } => r matches Some(v) && v@ == vn_sync_id@,
            _ => r is None,
        },
{
    match request {
        SyncMessage::SnapshotInventoryRequest { vn_sync_id } => Some(vn_sync_id.clone()),
        SyncMessage::ManifestRequest { vn_sync_id, .. } => Some(vn_sync_id.clone()),
        _ => None,
    }
}

/// The summaries of `manifests`, in order.
pub open spec fn describes(snapshots: Seq<SnapshotDescriptor>, manifests: Seq<SnapshotManifest>) -> bool {
    &&& snapshots.len() == manifests.len()
    &&& forall|i: int| 0 <= i < snapshots.len() ==> {
        let d = #[trigger] snapshots[i];
        let m = manifests[i];
        &&& d.snapshot_id@ == m.snapshot_id@
        &&& d.parent_snapshot_id == m.parent_snapshot_id
        &&& d.device_id@ == m.device_id@
        &&& d.created_at@ == m.created_at@
        &&& d.file_count == m.files@.len()
    }
}

/// Answers an inventory request: `listing` is the outcome of listing the local snapshots of
/// the visual novel that the request names.
pub fn build_inventory_response(request: SyncMessage, listing: Result<Vec<SnapshotManifest>, IoFailure>) -> (r: SyncMessage)
    ensures
        match request {
            SyncMessage::SnapshotInventoryRequest { vn_sync_id } => match listing {
                Ok(manifests) => match r {
                    SyncMessage::SnapshotInventory { vn_sync_id: v, snapshots } => v@ == vn_sync_id@ && describes(snapshots@, manifests@),
                    _ => false,
                },
                Err(e) => error_message(r) == Some(if e.kind == IoErrorKind::InvalidInput {
                    (SyncProtocolErrorCode::InvalidRequest, "The VN sync ID is invalid"@)
                } else {
                    (SyncProtocolErrorCode::Internal, "The local snapshot inventory could not be loaded"@)
                }),
            },
            _ => error_message(r) == Some((SyncProtocolErrorCode::InvalidRequest, "Expected a snapshot inventory request"@)),
        },
{
    let vn_sync_id = match request {
        SyncMessage::SnapshotInventoryRequest { vn_sync_id } => vn_sync_id,
        _ => return error_reply(SyncProtocolErrorCode::InvalidRequest, "Expected a snapshot inventory request"),
    };
    let manifests = match listing {
        Ok(m) => m,
        Err(e) => {
            if e.kind == IoErrorKind::InvalidInput {
                return error_reply(SyncProtocolErrorCode::InvalidRequest, "The VN sync ID is invalid");
            } else {
                return error_reply(SyncProtocolErrorCode::Internal, "The local snapshot inventory could not be loaded");
            }
        },
    };
    let mut snapshots: Vec<SnapshotDescriptor> = Vec::new();
    let mut i: usize = 0;
    while i < manifests.len()
        invariant
            i <= manifests.len(),
            describes(snapshots@, manifests@.take(i as int)),
        decreases manifests.len() - i,
    {
        snapshots.push(SnapshotDescriptor::from_manifest(&manifests[i]));
        i = i + 1;
    }
    assert(manifests@.take(manifests@.len() as int) =~= manifests@);
    SyncMessage::SnapshotInventory { vn_sync_id, snapshots }
}

/// The index of the first manifest whose id is `id`.
pub open spec fn first_with_id(manifests: Seq<SnapshotManifest>, id: Seq<char>, i: int) -> Option<int>
    decreases manifests.len() - i,
{
    if i < 0 || i >= manifests.len() {
        None
    } else if manifests[i].snapshot_id@ == id {
        Some(i)
    } else {
        first_with_id(manifests, id, i + 1)
    }
}

/// Answers a manifest request: `listing` is the outcome of listing the local snapshots of
/// the visual novel that the request names.
pub fn build_manifest_response(request: SyncMessage, listing: Result<Vec<SnapshotManifest>, IoFailure>) -> (r: SyncMessage)
    ensures
        match request {
            SyncMessage::ManifestRequest { snapshot_id, .. } => match listing {
                Ok(manifests) => match first_with_id(manifests@, snapshot_id@, 0) {
                    Some(i) => r matches SyncMessage::Manifest { manifest } && manifest == manifests@[i],
                    None => error_message(r) == Some((SyncProtocolErrorCode::NotFound, "The requested snapshot does not exist"@)),
                },
                Err(e) => error_message(r) == Some(if e.kind == IoErrorKind::InvalidInput {
                    (SyncProtocolErrorCode::InvalidRequest, "The VN sync iD is invalid"@)
                } else {
                    (SyncProtocolErrorCode::Internal, "The requested manifest could not be loaded"@)
                }),
            },
            _ => error_message(r) == Some((SyncProtocolErrorCode::InvalidRequest, "Expected a snapshot manifest request"@)),
        },
{
    let snapshot_id = match request {
        SyncMessage::ManifestRequest { snapshot_id, .. } => snapshot_id,
        _ => return error_reply(SyncProtocolErrorCode::InvalidRequest, "Expected a snapshot manifest request"),
    };
    let mut manifests = match listing {
        Ok(m) => m,
        Err(e) => {
            if e.kind == IoErrorKind::InvalidInput {
                return error_reply(SyncProtocolErrorCode::InvalidRequest, "The VN sync iD is invalid");
            } else {
                return error_reply(SyncProtocolErrorCode::Internal, "The requested manifest could not be loaded");
            }
        },
    };
    let ghost all = manifests@;
    let mut i: usize = 0;
    while i < manifests.len()
        invariant
            i <= manifests.len(),
            manifests@ == all,
            request matches SyncMessage::ManifestRequest { snapshot_id: s, .. } && s@ == snapshot_id@,
            listing matches Ok(m) && m@ == all,
            first_with_id(all, snapshot_id@, 0) == first_with_id(all, snapshot_id@, i as int),
        decreases manifests.len() - i,
    {
        if manifests[i].snapshot_id.eq(&snapshot_id) {
            assert(first_with_id(all, snapshot_id@, i as int) == Some(i as int));
            let manifest = manifests.swap_remove(i);
            assert(manifest == all[i as int]);
            return SyncMessage::Manifest { manifest };
        }
        i = i + 1;
    }
    error_reply(SyncProtocolErrorCode::NotFound, "The requested snapshot does not exist")
}

fn failure_with_detail(kind: IoErrorKind, text: &str, detail: &String) -> (r: IoFailure)
    ensures
        r.model() == (kind, text@ + detail@),
{
    let mut message = text.to_owned();
    message.append(detail.as_str());
    IoFailure { kind, message }
}

pub open spec fn unsupported_protocol_failure() -> (IoErrorKind, Seq<char>) {
    (IoErrorKind::InvalidData, "The peer uses an unsupported sync protocol"@)
}

/// How a serving installation answers the first message of a session: `Ok` for a hello of
/// the current protocol version; otherwise the session fails, after telling the peer
/// that its version is unsupported when it did say hello.
pub fn check_hello_as_server(message: &SyncMessage) -> (r: Result<(), (Option<SyncMessage>, IoFailure)>)
    ensures
        match *message {
            SyncMessage::Hello(h) => if h.protocol_version == SYNC_PROTOCOL_VERSION {
                r is Ok
            } else {
                r matches Err((Some(reply), e)) && error_message(reply) == Some((SyncProtocolErrorCode::UnsupportedVersion, "The peer uses an unsupported sync protocol"@))
                    && e.model() == unsupported_protocol_failure()
            },
            _ => r matches Err((None, e)) && e.model() == (IoErrorKind::InvalidData, "The peer did not begin with a hello message"@),
        },
{
    match message {
        SyncMessage::Hello(hello) => {
            if hello.protocol_version == SYNC_PROTOCOL_VERSION {
                Ok(())
            } else {
                Err((
                    Some(error_reply(SyncProtocolErrorCode::UnsupportedVersion, "The peer uses an unsupported sync protocol")),
                    IoFailure::new(IoErrorKind::InvalidData, "The peer uses an unsupported sync protocol"),
                ))
            }
        },
        _ => Err((None, IoFailure::new(IoErrorKind::InvalidData, "The peer did not begin with a hello message"))),
    }
}

/// What a serving installation does with one request.
#[derive(Debug, Clone, Copy, PartialEq, Eq, Structural)]
pub enum RequestKind {
    Inventory,
    Manifest,
    Blob,
    Completion,
    Unexpected,
}

pub fn classify_request(request: &SyncMessage) -> (r: RequestKind)
    ensures
        r == match *request {
            SyncMessage::SnapshotInventoryRequest { .. } => RequestKind::Inventory,
            SyncMessage::ManifestRequest { .. } => RequestKind::Manifest,
            SyncMessage::BlobRequest { .. } => RequestKind::Blob,
            SyncMessage::TransferComplete { .. } => RequestKind::Completion,
            _ => RequestKind::Unexpected,
        },
{
    match request {
        SyncMessage::SnapshotInventoryRequest { .. } => RequestKind::Inventory,
        SyncMessage::ManifestRequest { .. } => RequestKind::Manifest,
        SyncMessage::BlobRequest { .. } => RequestKind::Blob,
        SyncMessage::TransferComplete { .. } => RequestKind::Completion,
        _ => RequestKind::Unexpected,
    }
}

/// The answer to a message that a serving installation does not expect.
pub fn unexpected_message_reply() -> (r: SyncMessage)
    ensures
        error_message(r) == Some((SyncProtocolErrorCode::InvalidRequest, "The peer sent an unexpected message"@)),
{
    error_reply(SyncProtocolErrorCode::InvalidRequest, "The peer sent an unexpected message")
}

/// The serving side of one session: which snapshot it has offered so far.
pub struct ServerSession {
    pub offered: Option<(String, String)>,
}

impl ServerSession {
    pub open spec fn offered_model(&self) -> Option<(Seq<char>, Seq<char>)> {
        match self.offered {
            Some((v, s)) => Some((v@, s@)),
            None => None,
        }
    }

    pub fn new() -> (r: ServerSession)
        ensures
            r.offered_model() is None,
    {
        ServerSession { offered: None }
    }

    /// Records a response about to be sent: a manifest offers its snapshot, and any other
    /// response leaves the offer unchanged.
    pub fn note_response(&mut self, response: &SyncMessage)
        ensures
            final(self).offered_model() == offer_after_response(old(self).offered_model(), *response),
            match *response {
                SyncMessage::Manifest { manifest } => final(self).offered_model() == Some((manifest.vn_sync_id@, manifest.snapshot_id@)),
                _ => final(self).offered_model() == old(self).offered_model(),
            },
    {
        if let SyncMessage::Manifest { manifest } = response {
            self.offered = Some((manifest.vn_sync_id.clone(), manifest.snapshot_id.clone()));
        }
    }

    /// Accepts the peer's confirmation of a transfer, provided it names the snapshot that
    /// this session offered last.
    pub fn complete(&self, vn_sync_id: String, snapshot_id: String) -> (r: Result<CompletedPeerTransfer, IoFailure>)
        ensures
            match r {
                Ok(done) => self.offered_model() == Some((vn_sync_id@, snapshot_id@)) && done.vn_sync_id@ == vn_sync_id@
                    && done.snapshot_id@ == snapshot_id@,
                Err(e) => self.offered_model() != Some((vn_sync_id@, snapshot_id@))
                    && e.model() == (IoErrorKind::InvalidData, "The peer confirmed a snapshot that was not offered"@),
            },
    {
        let matches = match &self.offered {
            Some((offered_vn, offered_snapshot)) => offered_vn.eq(&vn_sync_id) && offered_snapshot.eq(&snapshot_id),
            None => false,
        };
        if !matches {
            return Err(IoFailure::new(IoErrorKind::InvalidData, "The peer confirmed a snapshot that was not offered"));
        }
        Ok(CompletedPeerTransfer { vn_sync_id, snapshot_id })
    }
}

/// The offer after a response is sent: a manifest offers its snapshot, anything else
/// keeps the offer.
pub open spec fn offer_after_response(offer: Option<(Seq<char>, Seq<char>)>, response: SyncMessage) -> Option<(Seq<char>, Seq<char>)> {
    match response {
        SyncMessage::Manifest { manifest } => Some((manifest.vn_sync_id@, manifest.snapshot_id@)),
        _ => offer,
    }
}

/// The offer after the responses are sent one after another, starting from `offer`.
pub open spec fn offer_after_responses(offer: Option<(Seq<char>, Seq<char>)>, responses: Seq<SyncMessage>) -> Option<(Seq<char>, Seq<char>)>
    decreases responses.len(),
{
    if responses.len() == 0 {
        offer
    } else {
        offer_after_response(offer_after_responses(offer, responses.drop_last()), responses.last())
    }
}

/// Whether `responses` hold a manifest at index `k` with these IDs, and no manifest after it.
pub open spec fn last_manifest_at(responses: Seq<SyncMessage>, k: int, ids: (Seq<char>, Seq<char>)) -> bool {
    &&& 0 <= k < responses.len()
    &&& responses[k] matches SyncMessage::Manifest { manifest } && (manifest.vn_sync_id@, manifest.snapshot_id@) == ids
    &&& forall|j: int| k < j < responses.len() ==> !(#[trigger] responses[j] is Manifest)
}

/// A session that starts with nothing offered and sends `responses` has offered exactly the
/// snapshot of the last manifest among them (nothing when none was a manifest); so a
/// transfer is confirmed (`ServerSession::complete`) only for that snapshot.
pub proof fn law_only_the_last_offer_is_confirmed(responses: Seq<SyncMessage>)
    ensures
        offer_after_responses(None, responses) is Some ==> exists|k: int| #[trigger] last_manifest_at(responses, k, offer_after_responses(None, responses)->0),
        offer_after_responses(None, responses) is None ==> forall|j: int| 0 <= j < responses.len() ==> !(#[trigger] responses[j] is Manifest),
    decreases responses.len(),
{
    if responses.len() == 0 {
        assert(offer_after_responses(None, responses) is None);
    } else {
        let init = responses.drop_last();
        law_only_the_last_offer_is_confirmed(init);
        let n = responses.len() - 1;
        assert(responses.last() == responses[n]);
        assert(offer_after_responses(None, responses) == offer_after_response(offer_after_responses(None, init), responses.last()));
        match responses.last() {
            SyncMessage::Manifest { manifest } => {
                assert(offer_after_responses(None, responses) == Some((manifest.vn_sync_id@, manifest.snapshot_id@)));
                assert forall|j: int| n < j < responses.len() implies !(#[trigger] responses[j] is Manifest) by {}
                assert(last_manifest_at(responses, n, (manifest.vn_sync_id@, manifest.snapshot_id@)));
                assert(last_manifest_at(responses, n, offer_after_responses(None, responses)->0));
            },
            _ => {
                assert(offer_after_responses(None, responses) == offer_after_responses(None, init));
                assert(!(responses[n] is Manifest));
                match offer_after_responses(None, init) {
                    Some(ids) => {
                        let k = choose|k: int| last_manifest_at(init, k, ids);
                        assert forall|j: int| k < j < responses.len() implies !(#[trigger] responses[j] is Manifest) by {
                            if j < n {
                                assert(responses[j] == init[j]);
                            }
                        }
                        assert(responses[k] == init[k]);
                        assert(init[k] is Manifest);
                        assert(last_manifest_at(responses, k, offer_after_responses(None, responses)->0));
                    },
                    None => {
                        assert(offer_after_responses(None, responses) is None);
                        assert forall|j: int| 0 <= j < responses.len() implies !(#[trigger] responses[j] is Manifest) by {
                            if j < n {
                                assert(responses[j] == init[j]);
                            }
                        }
                    },
                }
            },
        }
    }
}

/// How a receiving installation judges the peer's answer to its hello.
pub fn check_hello_as_client(message: &SyncMessage) -> (r: Result<(), IoFailure>)
    ensures
        match *message {
            SyncMessage::Hello(h) => if h.protocol_version == SYNC_PROTOCOL_VERSION {
                r is Ok
            } else {
                r matches Err(e) && e.model() == unsupported_protocol_failure()
            },
            SyncMessage::Error { message: text, .. } => r matches Err(e) && e.model() == (IoErrorKind::Other, "The peer rejected the sync session: "@ + text@),
            _ => r matches Err(e) && e.model() == (IoErrorKind::InvalidData, "The peer did not respond with a hello message"@),
        },
{
    match message {
        SyncMessage::Hello(hello) => {
            if hello.protocol_version == SYNC_PROTOCOL_VERSION {
                Ok(())
            } else {
                Err(IoFailure::new(IoErrorKind::InvalidData, "The peer uses an unsupported sync protocol"))
            }
        },
        SyncMessage::Error { message: text, .. } => Err(failure_with_detail(IoErrorKind::Other, "The peer rejected the sync session: ", text)),
        _ => Err(IoFailure::new(IoErrorKind::InvalidData, "The peer did not respond with a hello message")),
    }
}

/// The newest snapshot that the peer's inventory answer offers for `vn_sync_id`: the
/// first one listed.
pub fn newest_offered_snapshot(vn_sync_id: &String, response: SyncMessage) -> (r: Result<SnapshotDescriptor, IoFailure>)
    ensures
        match response {
            SyncMessage::SnapshotInventory { vn_sync_id: v, snapshots } => if v@ != vn_sync_id@ {
                r matches Err(e) && e.model() == (IoErrorKind::InvalidData, "The peer returned an unexpected snapshot inventory"@)
            } else if snapshots@.len() == 0 {
                r matches Err(e) && e.model() == (IoErrorKind::NotFound, "The peer has no snapshots for this vn"@)
            } else {
                r == Ok::<SnapshotDescriptor, IoFailure>(snapshots@[0])
            },
            SyncMessage::Error { message: text, .. } => r matches Err(e) && e.model() == (IoErrorKind::Other, "The peer rejected the inventory request: "@ + text@),
            _ => r matches Err(e) && e.model() == (IoErrorKind::InvalidData, "The peer returned an unexpected snapshot inventory"@),
        },
{
    match response {
        SyncMessage::SnapshotInventory { vn_sync_id: returned, mut snapshots } => {
            if !returned.eq(vn_sync_id) {
                return Err(IoFailure::new(IoErrorKind::InvalidData, "The peer returned an unexpected snapshot inventory"));
            }
            if snapshots.len() == 0 {
                return Err(IoFailure::new(IoErrorKind::NotFound, "The peer has no snapshots for this vn"));
            }
            Ok(snapshots.swap_remove(0))
        },
        SyncMessage::Error { message: text, .. } => Err(failure_with_detail(IoErrorKind::Other, "The peer rejected the inventory request: ", &text)),
        _ => Err(IoFailure::new(IoErrorKind::InvalidData, "The peer returned an unexpected snapshot inventory")),
    }
}

/// The request for the manifest of the snapshot `snapshot_id` of `vn_sync_id`.
pub fn manifest_request(vn_sync_id: &String, snapshot_id: &String) -> (r: SyncMessage)
    ensures
        r matches SyncMessage::ManifestRequest { vn_sync_id: v, snapshot_id: s } && v@ == vn_sync_id@ && s@ == snapshot_id@,
{
    SyncMessage::ManifestRequest { vn_sync_id: vn_sync_id.clone(), snapshot_id: snapshot_id.clone() }
}

/// Accepts the peer's manifest answer provided it is the requested snapshot of the requested
/// visual novel.
pub fn accept_manifest_response(vn_sync_id: &String, snapshot_id: &String, response: SyncMessage) -> (r: Result<SnapshotManifest, IoFailure>)
    ensures
        match response {
            SyncMessage::Manifest { manifest } => if manifest.vn_sync_id@ != vn_sync_id@ || manifest.snapshot_id@ != snapshot_id@ {
                r matches Err(e) && e.model() == (IoErrorKind::InvalidData, "The peer returned a different snapshot than the one requested"@)
            } else {
                r == Ok::<SnapshotManifest, IoFailure>(manifest)
            },
            SyncMessage::Error { message: text, .. } => r matches Err(e) && e.model() == (IoErrorKind::Other, "The peer rejected the manifest request: "@ + text@),
            _ => r matches Err(e) && e.model() == (IoErrorKind::InvalidData, "The peer returned an unexpected manifest response"@),
        },
{
    match response {
        SyncMessage::Manifest { manifest } => {
            if !manifest.vn_sync_id.eq(vn_sync_id) || !manifest.snapshot_id.eq(snapshot_id) {
                return Err(IoFailure::new(IoErrorKind::InvalidData, "The peer returned a different snapshot than the one requested"));
            }
            Ok(manifest)
        },
        SyncMessage::Error { message: text, .. } => Err(failure_with_detail(IoErrorKind::Other, "The peer rejected the manifest request: ", &text)),
        _ => Err(IoFailure::new(IoErrorKind::InvalidData, "The peer returned an unexpected manifest response")),
    }
}

/// Whether a manifest file still has to be downloaded, given the outcome of looking up its
/// blob in the local store.
pub fn blob_download_needed(existing: &Result<VerifiedLocalBlob, IoFailure>, file: &SnapshotFile) -> (r: Result<bool, IoFailure>)
    ensures
        match *existing {
            Ok(blob) => if blob.size_bytes == file.size_bytes {
                r == Ok::<bool, IoFailure>(false)
            } else {
                r matches Err(e) && e.model() == (IoErrorKind::InvalidData, "An existing local blob has the wrong size"@)
            },
            Err(e) => if e.kind == IoErrorKind::NotFound {
                r == Ok::<bool, IoFailure>(true)
            } else {
                r matches Err(f) && f.model() == e.model()
            },
        },
{
    match existing {
        Ok(blob) => {
            if blob.size_bytes == file.size_bytes {
                Ok(false)
            } else {
                Err(IoFailure::new(IoErrorKind::InvalidData, "An existing local blob has the wrong size"))
            }
        },
        Err(e) => {
            if e.kind == IoErrorKind::NotFound {
                Ok(true)
            } else {
                Err(e.duplicate())
            }
        },
    }
}

/// The request for the blob of one manifest file.
pub fn blob_request(vn_sync_id: &String, file: &SnapshotFile) -> (r: SyncMessage)
    ensures
        r matches SyncMessage::BlobRequest { vn_sync_id: v, content_hash: h } && v@ == vn_sync_id@ && h@ == file.content_hash@,
{
    SyncMessage::BlobRequest { vn_sync_id: vn_sync_id.clone(), content_hash: file.content_hash.clone() }
}

/// Accepts the peer's answer to a blob request provided it announces exactly the requested blob.
pub fn accept_blob_announcement(response: SyncMessage, file: &SnapshotFile) -> (r: Result<(String, u64), IoFailure>)
    ensures
        match response {
            SyncMessage::BlobReady { content_hash, size_bytes } => if content_hash@ != file.content_hash@ || size_bytes != file.size_bytes {
                r matches Err(e) && e.model() == (IoErrorKind::InvalidData, "The peer announced different blob details than requested"@)
            } else {
                r matches Ok((h, n)) && h@ == content_hash@ && n == size_bytes
            },
            SyncMessage::Error { message: text, .. } => r matches Err(e) && e.model() == (IoErrorKind::Other, "The peer rejected a blob request: "@ + text@),
            _ => r matches Err(e) && e.model() == (IoErrorKind::InvalidData, "The peer returned an unexpected blob response"@),
        },
{
    match response {
        SyncMessage::BlobReady { content_hash, size_bytes } => {
            if !content_hash.eq(&file.content_hash) || size_bytes != file.size_bytes {
                return Err(IoFailure::new(IoErrorKind::InvalidData, "The peer announced different blob details than requested"));
            }
            Ok((content_hash, size_bytes))
        },
        SyncMessage::Error { message: text, .. } => Err(failure_with_detail(IoErrorKind::Other, "The peer rejected a blob request: ", &text)),
        _ => Err(IoFailure::new(IoErrorKind::InvalidData, "The peer returned an unexpected blob response")),
    }
}

/// Checks an announced blob before any of its bytes are received: it must fit the size
/// limit and be named by a canonical content hash.
pub fn check_blob_announcement(content_hash: &String, size_bytes: u64) -> (r: Result<(), IoFailure>)
    ensures
        match r {
            Ok(()) => size_bytes <= MAX_BLOB_BYTES && content_hash_check(content_hash@) is Ok,
            Err(e) => if size_bytes > MAX_BLOB_BYTES {
                e.model() == (IoErrorKind::InvalidData, "The peer announced a blob larger than Kakera's limit"@)
            } else {
                content_hash_check(content_hash@) is Err && e.model() == (IoErrorKind::InvalidData, "The peer announced an invalid blob hash"@)
            },
        },
{
    if size_bytes > MAX_BLOB_BYTES {
        return Err(IoFailure::new(IoErrorKind::InvalidData, "The peer announced a blob larger than Kakera's limit"));
    }
    match crate::save_sync::check_content_hash(content_hash) {
        Ok(()) => Ok(()),
        Err(_) => Err(IoFailure::new(IoErrorKind::InvalidData, "The peer announced an invalid blob hash")),
    }
}

/// Checks the bytes received for an announced blob against the announced hash.
pub fn check_received_blob(content_hash: &String, received: &FileFingerprint) -> (r: Result<(), IoFailure>)
    ensures
        match r {
            Ok(()) => received.content_hash@ == content_hash@,
            Err(e) => received.content_hash@ != content_hash@
                && e.model() == (IoErrorKind::InvalidData, "The received blob failed integrity verification"@),
        },
{
    if !received.content_hash.eq(content_hash) {
        return Err(IoFailure::new(IoErrorKind::InvalidData, "The received blob failed integrity verification"));
    }
    Ok(())
}

/// Checks a blob that was already stored under an announced name.
pub fn check_existing_received_blob(content_hash: &String, size_bytes: u64, existing: &FileFingerprint) -> (r: Result<(), IoFailure>)
    ensures
        match r {
            Ok(()) => existing.content_hash@ == content_hash@ && existing.size_bytes == size_bytes,
            Err(e) => !(existing.content_hash@ == content_hash@ && existing.size_bytes == size_bytes)
                && e.model() == (IoErrorKind::InvalidData, "The existing received blob failed verification"@),
        },
{
    if !existing.content_hash.eq(content_hash) || existing.size_bytes != size_bytes {
        return Err(IoFailure::new(IoErrorKind::InvalidData, "The existing received blob failed verification"));
    }
    Ok(())
}

/// Checks, after a local blob was sent, that the bytes sent are the ones it was verified to hold.
pub fn check_sent_blob(blob: &VerifiedLocalBlob, sent: &FileFingerprint) -> (r: Result<(), IoFailure>)
    ensures
        match r {
            Ok(()) => sent.size_bytes == blob.size_bytes && sent.content_hash@ == blob.content_hash@,
            Err(e) => !(sent.size_bytes == blob.size_bytes && sent.content_hash@ == blob.content_hash@)
                && e.model() == (IoErrorKind::InvalidData, "The local blob changed during transmission!!"@),
        },
{
    if sent.size_bytes != blob.size_bytes || !sent.content_hash.eq(&blob.content_hash) {
        return Err(IoFailure::new(IoErrorKind::InvalidData, "The local blob changed during transmission!!"));
    }
    Ok(())
}

/// The most bytes of a blob that are read or written in one piece.
pub const BLOB_BUFFER_SIZE: usize = 65536;

/// The length of the next piece of a blob of which `remaining` bytes are still to come.
pub open spec fn next_piece_len(remaining: u64) -> int {
    if remaining > BLOB_BUFFER_SIZE { BLOB_BUFFER_SIZE as int } else { remaining as int }
}

/// An announced blob while its bytes arrive: what was announced, how many bytes are still
/// to come, and the bytes received so far.
pub struct BlobReception {
    pub content_hash: String,
    pub size_bytes: u64,
    pub remaining: u64,
    pub received: ContentHasher,
}

impl BlobReception {
    /// The received bytes and the ones still to come add up to the announced size.
    pub open spec fn well_formed(&self) -> bool {
        &&& self.received.well_formed()
        &&& self.received@.len() + self.remaining == self.size_bytes
    }

    /// Starts receiving an announced blob, once the announcement passes
    /// `check_blob_announcement`.
    pub fn start(content_hash: String, size_bytes: u64) -> (r: Result<BlobReception, IoFailure>)
        ensures
            match r {
                Ok(b) => size_bytes <= MAX_BLOB_BYTES && content_hash_check(content_hash@) is Ok
                    && b.well_formed() && b.content_hash@ == content_hash@ && b.size_bytes == size_bytes
                    && b.remaining == size_bytes && b.received@ == Seq::<u8>::empty(),
                Err(e) => if size_bytes > MAX_BLOB_BYTES {
                    e.model() == (IoErrorKind::InvalidData, "The peer announced a blob larger than Kakera's limit"@)
                } else {
                    content_hash_check(content_hash@) is Err && e.model() == (IoErrorKind::InvalidData, "The peer announced an invalid blob hash"@)
                },
            },
    {
        match check_blob_announcement(&content_hash, size_bytes) {
            Err(e) => Err(e),
            Ok(()) => Ok(BlobReception { content_hash, size_bytes, remaining: size_bytes, received: ContentHasher::new() }),
        }
    }

    /// How many bytes to read next: a full buffer, or what is left; 0 once all arrived.
    pub fn next_piece(&self) -> (r: usize)
        ensures
            r == next_piece_len(self.remaining),
    {
        if self.remaining > BLOB_BUFFER_SIZE as u64 { BLOB_BUFFER_SIZE } else { self.remaining as usize }
    }

    /// Takes the next piece of the blob, read as `next_piece` said.
    pub fn take_piece(&mut self, piece: &[u8])
        requires
            old(self).well_formed(),
            old(self).remaining > 0,
            piece@.len() == next_piece_len(old(self).remaining),
        ensures
            final(self).well_formed(),
            final(self).received@ == old(self).received@ + piece@,
            final(self).remaining == old(self).remaining - piece@.len(),
            final(self).content_hash == old(self).content_hash,
            final(self).size_bytes == old(self).size_bytes,
    {
        self.received.update(piece);
        self.remaining = self.remaining - piece.len() as u64;
    }

    /// Checks the whole blob once every byte arrived: it must hash to the announced hash.
    pub fn finish(&self) -> (r: Result<FileFingerprint, IoFailure>)
        requires
            self.well_formed(),
            self.remaining == 0,
        ensures
            match r {
                Ok(f) => blake3_hex(self.received@) == self.content_hash@ && f.content_hash@ == self.content_hash@
                    && f.size_bytes == self.size_bytes,
                Err(e) => blake3_hex(self.received@) != self.content_hash@
                    && e.model() == (IoErrorKind::InvalidData, "The received blob failed integrity verification"@),
            },
    {
        let fingerprint = fingerprint_from(&self.received);
        match check_received_blob(&self.content_hash, &fingerprint) {
            Ok(()) => Ok(fingerprint),
            Err(e) => Err(e),
        }
    }
}

/// A local blob while its bytes are sent: the blob and the bytes sent so far.
pub struct BlobTransmission {
    pub blob: VerifiedLocalBlob,
    pub sent: ContentHasher,
}

impl BlobTransmission {
    /// Starts sending a verified local blob.
    pub fn start(blob: VerifiedLocalBlob) -> (r: BlobTransmission)
        ensures
            r.blob == blob,
            r.sent.well_formed(),
            r.sent@ == Seq::<u8>::empty(),
    {
        BlobTransmission { blob, sent: ContentHasher::new() }
    }

    /// Records a piece that was sent.
    pub fn record_piece(&mut self, piece: &[u8])
        requires
            old(self).sent.well_formed(),
            old(self).sent@.len() + piece@.len() <= u64::MAX,
        ensures
            final(self).sent.well_formed(),
            final(self).sent@ == old(self).sent@ + piece@,
            final(self).blob == old(self).blob,
    {
        self.sent.update(piece);
    }

    /// Checks, once the file is read to its end, that the bytes sent are the ones the blob
    /// was verified to hold.
    pub fn finish(&self) -> (r: Result<(), IoFailure>)
        requires
            self.sent.well_formed(),
        ensures
            match r {
                Ok(()) => self.sent@.len() == self.blob.size_bytes && blake3_hex(self.sent@) == self.blob.content_hash@,
                Err(e) => !(self.sent@.len() == self.blob.size_bytes && blake3_hex(self.sent@) == self.blob.content_hash@)
                    && e.model() == (IoErrorKind::InvalidData, "The local blob changed during transmission!!"@),
            },
    {
        check_sent_blob(&self.blob, &fingerprint_from(&self.sent))
    }
}

} // verus!
