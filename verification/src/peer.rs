use vstd::prelude::*;

use crate::error::{IoErrorKind, IoFailure};
use crate::text::{chars_of, char_is_lower_hex_digit, is_lower_hex_digit, starts_with, starts_with_chars, string_of, trim_chars, trimmed};

verus! {

/// The file, in the sync storage directory, that holds this install's peer secret key.
pub const PEER_SECRET_FILE_NAME: &'static str = "peer-secret-key";

/// The QUIC application protocol that peers speak.
pub const KAKERA_SYNC_ALPN: &'static str = "xyz.majou.kakera/save-sync/1";

/// What another install needs to connect to this one.
#[derive(Debug, PartialEq)]
pub struct PeerConnectionInfo {
    pub endpoint_id: String,
    pub direct_addresses: Vec<String>,
}

/// Everything another install needs to receive the snapshots of one visual novel.
#[derive(Debug, PartialEq)]
pub struct SyncPairingInfo {
    pub peer: PeerConnectionInfo,
    pub vn_sync_id: String,
}

pub open spec fn secret_length_failure() -> (IoErrorKind, Seq<char>) {
    (IoErrorKind::InvalidData, "The save sync peer secret must be exactly 32 bytes"@)
}

/// Checks the bytes read for the peer secret key: exactly 32 of them.
pub fn decode_peer_secret(bytes: Vec<u8>) -> (r: Result<Vec<u8>, IoFailure>)
    ensures
        bytes@.len() == 32 ==> r == Ok::<Vec<u8>, IoFailure>(bytes),
        bytes@.len() != 32 ==> r is Err && r->Err_0.model() == secret_length_failure(),
{
    if bytes.len() == 32 {
        Ok(bytes)
    } else {
        Err(IoFailure::new(IoErrorKind::InvalidData, "The save sync peer secret must be exactly 32 bytes"))
    }
}

/// What reading the stored peer secret gave: the secret to use, or `None` when no secret
/// is stored yet and a new one must be created.
pub fn load_peer_secret(read: Result<Vec<u8>, IoFailure>) -> (r: Option<Result<Vec<u8>, IoFailure>>)
    ensures
        match r {
            Some(x) => secret_from_read(bytes_result(read)) == Some(bytes_result(x)),
            None => secret_from_read(bytes_result(read)) is None,
        },
        match read {
            Ok(bytes) => r is Some && (bytes@.len() == 32 <==> r->Some_0 is Ok)
                && (r->Some_0 matches Ok(k) ==> k@ == bytes@)
                && (r->Some_0 matches Err(e) ==> e.model() == secret_length_failure()),
            Err(e) => if e.kind == IoErrorKind::NotFound {
                r is None
            } else {
                r is Some && r->Some_0 is Err && r->Some_0->Err_0.model() == e.model()
            },
        },
{
    match read {
        Ok(bytes) => Some(decode_peer_secret(bytes)),
        Err(e) => if e.kind == IoErrorKind::NotFound { None } else { Some(Err(e)) },
    }
}

/// What happened when a newly generated secret was moved into place without replacing
/// anything there.
#[derive(Debug, PartialEq)]
pub enum SecretPersist {
    Persisted,
    /// Another secret was stored first; this is what reading it gave.
    AlreadyExists(Result<Vec<u8>, IoFailure>),
    Failed(IoFailure),
}

/// The secret in force after creating one: the new one if it was stored, else the one
/// stored first.
pub fn settle_peer_secret(generated: Vec<u8>, outcome: SecretPersist) -> (r: Result<Vec<u8>, IoFailure>)
    ensures
        bytes_result(r) == secret_after_persist(generated@, outcome),
        match outcome {
            SecretPersist::Persisted => r == Ok::<Vec<u8>, IoFailure>(generated),
            SecretPersist::AlreadyExists(Ok(bytes)) => if bytes@.len() == 32 {
                r is Ok && r->Ok_0@ == bytes@
            } else {
                r is Err && r->Err_0.model() == secret_length_failure()
            },
            SecretPersist::AlreadyExists(Err(e)) => r is Err && r->Err_0.model() == e.model(),
            SecretPersist::Failed(e) => r is Err && r->Err_0.model() == e.model(),
        },
{
    match outcome {
        SecretPersist::Persisted => Ok(generated),
        SecretPersist::AlreadyExists(Ok(bytes)) => decode_peer_secret(bytes),
        SecretPersist::AlreadyExists(Err(e)) => Err(e),
        SecretPersist::Failed(e) => Err(e),
    }
}

/// A result of bytes as plain values.
pub open spec fn bytes_result(r: Result<Vec<u8>, IoFailure>) -> Result<Seq<u8>, (IoErrorKind, Seq<char>)> {
    match r {
        Ok(b) => Ok(b@),
        Err(e) => Err(e.model()),
    }
}

/// The secret that reading the stored secret file gives: the bytes when there are exactly
/// 32 of them, `None` when there is no file yet, else the failure.
pub open spec fn secret_from_read(read: Result<Seq<u8>, (IoErrorKind, Seq<char>)>) -> Option<Result<Seq<u8>, (IoErrorKind, Seq<char>)>> {
    match read {
        Ok(b) => Some(if b.len() == 32 { Ok(b) } else { Err(secret_length_failure()) }),
        Err(e) => if e.0 == IoErrorKind::NotFound { None } else { Some(Err(e)) },
    }
}

/// The secret in force after a new one was generated and moved into place.
pub open spec fn secret_after_persist(generated: Seq<u8>, outcome: SecretPersist) -> Result<Seq<u8>, (IoErrorKind, Seq<char>)> {
    match outcome {
        SecretPersist::Persisted => Ok(generated),
        SecretPersist::AlreadyExists(Ok(b)) => if b@.len() == 32 { Ok(b@) } else { Err(secret_length_failure()) },
        SecretPersist::AlreadyExists(Err(e)) => Err(e.model()),
        SecretPersist::Failed(e) => Err(e.model()),
    }
}

/// One peer secret per installation: the secret that is stored first (the new one, or one
/// that another start stored just before) is the secret in force, and every later load
/// of the stored bytes gives that same secret back.
pub proof fn law_the_stored_secret_is_reused(generated: Seq<u8>, stored_first: Vec<u8>)
    requires
        generated.len() == 32,
        stored_first@.len() == 32,
    ensures
        secret_after_persist(generated, SecretPersist::Persisted) == Ok::<Seq<u8>, (IoErrorKind, Seq<char>)>(generated),
        secret_from_read(Ok(generated)) == Some(Ok::<Seq<u8>, (IoErrorKind, Seq<char>)>(generated)),
        secret_after_persist(generated, SecretPersist::AlreadyExists(Ok(stored_first))) == Ok::<Seq<u8>, (IoErrorKind, Seq<char>)>(stored_first@),
        secret_from_read(Ok(stored_first@)) == Some(Ok::<Seq<u8>, (IoErrorKind, Seq<char>)>(stored_first@)),
{
}

/// The check of a peer's connection info: its endpoint ID must parse (else
/// `endpoint_id_error` says why), it must give a direct address, and each address must
/// parse as a socket address (else `address_errors[i]` says why for address `i`).
pub open spec fn endpoint_check(info: PeerConnectionInfo, endpoint_id_error: Option<String>, address_errors: Seq<Option<String>>) -> Result<(), (IoErrorKind, Seq<char>)> {
    match endpoint_id_error {
        Some(e) => Err((IoErrorKind::InvalidData, "The peer endpoint id is invalid: "@ + e@)),
        None => if info.direct_addresses@.len() == 0 {
            Err((IoErrorKind::InvalidData, "The peer did not provide a direct address"@))
        } else {
            first_address_error(info.direct_addresses@, address_errors, 0)
        },
    }
}

pub open spec fn first_address_error(addresses: Seq<String>, errors: Seq<Option<String>>, i: int) -> Result<(), (IoErrorKind, Seq<char>)>
    decreases addresses.len() - i,
{
    if i < 0 || i >= addresses.len() {
        Ok(())
    } else {
        match errors[i] {
            Some(e) => Err((IoErrorKind::InvalidData, "The peer address '"@ + addresses[i]@ + "' is invalid: "@ + e@)),
            None => first_address_error(addresses, errors, i + 1),
        }
    }
}

impl PeerConnectionInfo {
    /// Validates the pairing info before it is turned into an endpoint address.
    pub fn check_endpoint_addr(&self, endpoint_id_error: &Option<String>, address_errors: &Vec<Option<String>>) -> (r: Result<(), IoFailure>)
        requires
            address_errors@.len() == self.direct_addresses@.len(),
        ensures
            r is Ok <==> endpoint_check(*self, *endpoint_id_error, address_errors@) is Ok,
            r matches Err(e) ==> endpoint_check(*self, *endpoint_id_error, address_errors@) == Err::<(), (IoErrorKind, Seq<char>)>(e.model()),
    {
        if let Some(e) = endpoint_id_error {
            let mut message = "The peer endpoint id is invalid: ".to_owned();
            message.append(e.as_str());
            return Err(IoFailure { kind: IoErrorKind::InvalidData, message });
        }
        if self.direct_addresses.len() == 0 {
            return Err(IoFailure::new(IoErrorKind::InvalidData, "The peer did not provide a direct address"));
        }
        assert(endpoint_check(*self, *endpoint_id_error, address_errors@) == first_address_error(self.direct_addresses@, address_errors@, 0));
        let mut i: usize = 0;
        while i < self.direct_addresses.len()
            invariant
                endpoint_check(*self, *endpoint_id_error, address_errors@) == first_address_error(self.direct_addresses@, address_errors@, 0),
                i <= self.direct_addresses@.len(),
                address_errors@.len() == self.direct_addresses@.len(),
                first_address_error(self.direct_addresses@, address_errors@, 0) == first_address_error(self.direct_addresses@, address_errors@, i as int),
            decreases self.direct_addresses.len() - i,
        {
            if let Some(e) = &address_errors[i] {
                let mut message = "The peer address '".to_owned();
                message.append(self.direct_addresses[i].as_str());
                message.append("' is invalid: ");
                message.append(e.as_str());
                assert(address_errors@[i as int] == Some(*e));
                assert(first_address_error(self.direct_addresses@, address_errors@, i as int)
                    == Err::<(), (IoErrorKind, Seq<char>)>((IoErrorKind::InvalidData, "The peer address '"@ + self.direct_addresses@[i as int]@ + "' is invalid: "@ + e@)));
                let f = IoFailure { kind: IoErrorKind::InvalidData, message };
                assert(f.model() == (IoErrorKind::InvalidData, "The peer address '"@ + self.direct_addresses@[i as int]@ + "' is invalid: "@ + e@));
                return Err(f);
            }
            i = i + 1;
        }
        Ok(())
    }
}

/// A pairing code as it is decoded: without surrounding white space.
pub fn pairing_code_text(pairing_code: &str) -> (r: String)
    ensures
        r@ == trimmed(pairing_code@),
{
    string_of(&trim_chars(&chars_of(pairing_code)))
}

/// A valid VN sync ID: `sync-` and then 64 lower-case hexadecimal digits.
pub open spec fn is_vn_sync_id(id: Seq<char>) -> bool {
    &&& starts_with(id, "sync-"@)
    &&& id.len() == 69
    &&& forall|i: int| 5 <= i < id.len() ==> is_lower_hex_digit(#[trigger] id[i])
}

/// Whether `id` is a valid VN sync ID.
pub fn is_valid_vn_sync_id(id: &str) -> (r: bool)
    ensures
        r == is_vn_sync_id(id@),
{
    let cs = chars_of(id);
    let prefix = chars_of("sync-");
    proof { reveal_strlit("sync-"); }
    if !starts_with_chars(&cs, &prefix) || cs.len() != 69 {
        return false;
    }
    let mut i: usize = 5;
    while i < cs.len()
        invariant
            cs@ == id@,
            5 <= i <= cs.len(),
            forall|k: int| 5 <= k < i ==> is_lower_hex_digit(#[trigger] cs@[k]),
        decreases cs.len() - i,
    {
        if !char_is_lower_hex_digit(cs[i]) {
            return false;
        }
        i = i + 1;
    }
    true
}

pub open spec fn invalid_sync_id_failure() -> (IoErrorKind, Seq<char>) {
    (IoErrorKind::InvalidData, "The pairing code contains an invalid VN sync ID"@)
}

impl SyncPairingInfo {
    /// Validates a pairing code from another install, given what decoding its JSON gave
    /// (the decoder's message on failure) and, for a decoded one, the check of its peer
    /// info (`PeerConnectionInfo::check_endpoint_addr`).
    pub fn from_pairing_code(decoded: Result<SyncPairingInfo, String>, peer_check: Result<(), IoFailure>) -> (r: Result<SyncPairingInfo, IoFailure>)
        ensures
            match decoded {
                Err(m) => r is Err && r->Err_0.model() == (IoErrorKind::InvalidData, "The pairing code is invalid: "@ + m@),
                Ok(p) => match peer_check {
                    Err(e) => r is Err && r->Err_0.model() == e.model(),
                    Ok(()) => if is_vn_sync_id(p.vn_sync_id@) {
                        r == Ok::<SyncPairingInfo, IoFailure>(p)
                    } else {
                        r is Err && r->Err_0.model() == invalid_sync_id_failure()
                    },
                },
            },
    {
        match decoded {
            Err(m) => {
                let mut message = "The pairing code is invalid: ".to_owned();
                message.append(m.as_str());
                Err(IoFailure { kind: IoErrorKind::InvalidData, message })
            },
            Ok(p) => match peer_check {
                Err(e) => Err(e),
                Ok(()) => {
                    if is_valid_vn_sync_id(p.vn_sync_id.as_str()) {
                        Ok(p)
                    } else {
                        Err(IoFailure::new(IoErrorKind::InvalidData, "The pairing code contains an invalid VN sync ID"))
                    }
                },
            },
        }
    }
}

impl PeerConnectionInfo {
    /// Validates a peer pairing code from another install, given what decoding its JSON
    /// gave and, for a decoded one, the check of its info (`check_endpoint_addr`).
    pub fn from_pairing_code(decoded: Result<PeerConnectionInfo, String>, peer_check: Result<(), IoFailure>) -> (r: Result<PeerConnectionInfo, IoFailure>)
        ensures
            match decoded {
                Err(m) => r is Err && r->Err_0.model() == (IoErrorKind::InvalidData, "The pairing code is invalid: "@ + m@),
                Ok(p) => match peer_check {
                    Err(e) => r is Err && r->Err_0.model() == e.model(),
                    Ok(()) => r == Ok::<PeerConnectionInfo, IoFailure>(p),
                },
            },
    {
        match decoded {
            Err(m) => {
                let mut message = "The pairing code is invalid: ".to_owned();
                message.append(m.as_str());
                Err(IoFailure { kind: IoErrorKind::InvalidData, message })
            },
            Ok(p) => match peer_check {
                Err(e) => Err(e),
                Ok(()) => Ok(p),
            },
        }
    }
}

} // verus!
