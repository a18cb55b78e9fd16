//! Content addressing: a contract is identified by the cryptographic hash
//! of its compiled code bytes. The identifier is recomputed from the code
//! whenever code is stored, never trusted from caller input.

use vstd::prelude::*;
use blake2::Digest;

verus! {

/// The 32-byte digest of a byte sequence, a function of the bytes alone.
pub uninterp spec fn hash_of(code: Seq<u8>) -> Seq<u8>;

/// Relies on blake2's `Blake2s256` through digest's `Digest::digest`: the
/// 32-byte hash of the input bytes, a function of the input alone.
#[verifier::external_body]
fn blake2s_digest(code: &Vec<u8>) -> (r: Vec<u8>)
    ensures
        r@ == hash_of(code@),
        r@.len() == 32,
{
    blake2::Blake2s256::digest(code.as_slice()).as_slice().to_vec()
}

/// Opaque fixed-length contract identifier, the content hash of the
/// contract's compiled code. Immutable once computed.
#[derive(Debug)]
pub struct ContractId {
    bytes: Vec<u8>,
}

impl ContractId {
    /// The identifier's bytes.
    pub closed spec fn view(self) -> Seq<u8> {
        self.bytes@
    }

    pub open spec fn wf(self) -> bool {
        self.view().len() == 32
    }

    /// Derives the identifier of `code` by hashing its bytes.
    pub fn from_code(code: &Vec<u8>) -> (r: ContractId)
        ensures
            r.wf(),
            r@ == hash_of(code@),
    {
        ContractId { bytes: blake2s_digest(code) }
    }

    pub fn as_bytes(&self) -> (r: &Vec<u8>)
        ensures
            r@ == self@,
    {
        &self.bytes
    }

    /// Copy of the identifier.
    pub fn duplicate(&self) -> (r: ContractId)
        ensures
            r@ == self@,
            r.wf() == self.wf(),
    {
        ContractId { bytes: crate::kvlist::clone_bytes(&self.bytes) }
    }

    /// Rebuilds an identifier from its raw bytes, as read back from a
    /// caller (the bytes are not reinterpreted or trusted as a hash).
    pub fn from_bytes(bytes: Vec<u8>) -> (r: ContractId)
        ensures
            r@ == bytes@,
    {
        ContractId { bytes }
    }
}

} // verus!
