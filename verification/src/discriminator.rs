//! The dispatch tag: the bytes that open every payload of an instruction and
//! tell the program which entry point is meant.

use vstd::prelude::*;
use vstd::slice::{slice_subrange, slice_to_vec};
use vstd::string::StringExecFns;
use vstd::utf8::encode_utf8;
use crate::idl_types::IdlJsonInstruction;

verus! {

/// The SHA-256 digest of a byte string.
pub uninterp spec fn sha256_of(data: Seq<u8>) -> [u8; 32];

/// `solana_sdk::hash::hash`, followed by `Hash::to_bytes` on the hash it
/// gives: the 32 bytes of the SHA-256 digest of `data`. Trusted, not proved:
/// that the outcome depends on the data alone, which [`sha256_of`] names.
#[verifier::external_body]
fn sha256(data: &[u8]) -> (digest: [u8; 32])
    ensures
        digest == sha256_of(data@),
{
    solana_sdk::hash::hash(data).to_bytes()
}

/// The text that is hashed where the description fixes no tag.
pub open spec fn tag_preimage(name: Seq<char>) -> Seq<u8> {
    encode_utf8("global:"@ + name)
}

/// The tag derived from an instruction's name: the first eight bytes of the
/// digest of `"global:"` followed by the name.
pub open spec fn default_tag(name: Seq<char>) -> Seq<u8> {
    sha256_of(tag_preimage(name))@.take(8)
}

/// The tag of an instruction: the declared one verbatim, whatever its length,
/// else the derived one.
pub open spec fn dispatch_tag(ix: &IdlJsonInstruction) -> Seq<u8> {
    match ix.discriminator {
        Some(declared) => declared@,
        None => default_tag(ix.name@),
    }
}

/// Computes the derived tag of a name.
pub fn derive_tag(name: &str) -> (tag: Vec<u8>)
    ensures
        tag@ == default_tag(name@),
        tag@.len() == 8,
{
    let preimage = String::from_str("global:").concat(name);
    let digest = sha256(preimage.as_str().as_bytes());
    slice_to_vec(slice_subrange(digest.as_slice(), 0, 8))
}

/// Resolves the tag of an instruction.
pub fn resolve_tag(ix: &IdlJsonInstruction) -> (tag: Vec<u8>)
    ensures
        tag@ == dispatch_tag(ix),
{
    match &ix.discriminator {
        Some(declared) => slice_to_vec(declared.as_slice()),
        None => derive_tag(ix.name.as_str()),
    }
}

} // verus!
