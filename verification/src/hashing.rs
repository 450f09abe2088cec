use vstd::prelude::*;

use crate::text::is_lower_hex_digit;

verus! {

/// The BLAKE3 digest of `data`, spelled as lower-case hexadecimal text.
pub uninterp spec fn blake3_hex(data: Seq<u8>) -> Seq<char>;

/// Calls `blake3::hash` and spells the digest with `Hash::to_hex`, which writes each of
/// the digest's 32 bytes as two digits from `0123456789abcdef`.
#[verifier::external_body]
fn blake3_hex_digest(data: &[u8]) -> (r: String)
    ensures
        r@ == blake3_hex(data@),
        r@.len() == 64,
        forall|i: int| 0 <= i < r@.len() ==> is_lower_hex_digit(#[trigger] r@[i]),
{
    blake3::hash(data).to_hex().to_string()
}

/// The canonical spelling of a content hash: 64 lower-case hexadecimal digits.
pub open spec fn is_canonical_hash(h: Seq<char>) -> bool {
    h.len() == 64 && forall|i: int| 0 <= i < h.len() ==> is_lower_hex_digit(#[trigger] h[i])
}

/// The content hash of `data`.
pub fn content_hash(data: &[u8]) -> (r: String)
    ensures
        r@ == blake3_hex(data@),
        is_canonical_hash(r@),
{
    blake3_hex_digest(data)
}

#[verifier::external_type_specification]
#[verifier::external_body]
pub struct ExHasher(blake3::Hasher);

/// The bytes that a BLAKE3 hasher has been given so far.
pub uninterp spec fn hasher_input(h: blake3::Hasher) -> Seq<u8>;

/// Calls `blake3::Hasher::new`, which starts from no input.
#[verifier::external_body]
fn new_hasher() -> (r: blake3::Hasher)
    ensures
        hasher_input(r) == Seq::<u8>::empty(),
{
    blake3::Hasher::new()
}

/// Calls `blake3::Hasher::update`, which appends `data` to the input. (It panics only
/// for a hasher that was given an input offset, which `new_hasher` never sets.)
#[verifier::external_body]
fn hasher_update(h: &mut blake3::Hasher, data: &[u8])
    ensures
        hasher_input(*final(h)) == hasher_input(*old(h)) + data@,
{
    h.update(data);
}

/// Calls `blake3::Hasher::finalize` and spells the digest with `Hash::to_hex`; the
/// documentation of `blake3::hash` states that hashing all input at once gives the same
/// digest as feeding it to a hasher.
#[verifier::external_body]
fn hasher_hex(h: &blake3::Hasher) -> (r: String)
    ensures
        r@ == blake3_hex(hasher_input(*h)),
        r@.len() == 64,
        forall|i: int| 0 <= i < r@.len() ==> is_lower_hex_digit(#[trigger] r@[i]),
{
    h.finalize().to_hex().to_string()
}

/// Hashes contents that arrive in pieces, and counts their bytes.
pub struct ContentHasher {
    hasher: blake3::Hasher,
    size_bytes: u64,
}

impl View for ContentHasher {
    type V = Seq<u8>;

    closed spec fn view(&self) -> Seq<u8> {
        hasher_input(self.hasher)
    }
}

impl ContentHasher {
    pub closed spec fn well_formed(&self) -> bool {
        self.size_bytes == hasher_input(self.hasher).len()
    }

    pub fn new() -> (r: ContentHasher)
        ensures
            r.well_formed(),
            r@ == Seq::<u8>::empty(),
    {
        ContentHasher { hasher: new_hasher(), size_bytes: 0 }
    }

    /// Adds the next piece of the contents.
    pub fn update(&mut self, chunk: &[u8])
        requires
            old(self).well_formed(),
            old(self)@.len() + chunk@.len() <= u64::MAX,
        ensures
            final(self).well_formed(),
            final(self)@ == old(self)@ + chunk@,
    {
        hasher_update(&mut self.hasher, chunk);
        self.size_bytes = self.size_bytes + chunk.len() as u64;
    }

    /// The number of bytes given so far.
    pub fn size_bytes(&self) -> (r: u64)
        requires
            self.well_formed(),
        ensures
            r == self@.len(),
    {
        self.size_bytes
    }

    /// The content hash of everything given so far.
    pub fn hex_digest(&self) -> (r: String)
        ensures
            r@ == blake3_hex(self@),
            is_canonical_hash(r@),
    {
        hasher_hex(&self.hasher)
    }
}

} // verus!
