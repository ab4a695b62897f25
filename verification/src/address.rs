//! The program's address: 32 bytes, written in the description as base-58
//! text.

use vstd::prelude::*;
use std::str::FromStr;
use solana_sdk::pubkey::{ParsePubkeyError, Pubkey};

verus! {

/// The error of `Pubkey::from_str`, carried through unread.
#[verifier::external_type_specification]
#[verifier::external_body]
pub struct ExParsePubkeyError(ParsePubkeyError);

/// The key that a text stands for, where it stands for one.
pub uninterp spec fn decoded_address(text: Seq<char>) -> Option<[u8; 32]>;

/// `Pubkey::from_str`, followed by `Pubkey::to_bytes` on the key it gives: the
/// 32 bytes that the base-58 text decodes to, or the parser's error where it
/// decodes to no key. Trusted, not proved: that the outcome depends on the
/// text alone, which [`decoded_address`] names.
#[verifier::external_body]
fn parse_pubkey(text: &str) -> (key: Result<[u8; 32], ParsePubkeyError>)
    ensures
        match key {
            Ok(bytes) => decoded_address(text@) == Some(bytes),
            Err(_) => decoded_address(text@) is None,
        },
{
    match Pubkey::from_str(text) {
        Ok(key) => Ok(key.to_bytes()),
        Err(e) => Err(e),
    }
}

/// The address that a program owns under a list of seeds, with the bump that
/// makes the derivation canonical, where there is one.
pub uninterp spec fn derived_address(seeds: Seq<Seq<u8>>, program_id: [u8; 32]) -> Option<
    ([u8; 32], u8),
>;

/// The seeds as sequences of bytes.
pub open spec fn seeds_of(seeds: Seq<&[u8]>) -> Seq<Seq<u8>> {
    seeds.map_values(|seed: &[u8]| seed@)
}

/// `Pubkey::try_find_program_address`, between `Pubkey::new_from_array` on
/// the program's address and `Pubkey::to_bytes` on the key found: the address
/// derived from the seeds under the program, with its bump, where the search
/// finds one. Trusted, not proved: that the outcome depends on the seeds and
/// the program's address alone, which [`derived_address`] names.
#[verifier::external_body]
pub(crate) fn find_program_address(seeds: &[&[u8]], program_id: &[u8; 32]) -> (found: Option<
    ([u8; 32], u8),
>)
    ensures
        found == derived_address(seeds_of(seeds@), *program_id),
{
    match Pubkey::try_find_program_address(seeds, &Pubkey::new_from_array(*program_id)) {
        Some((key, bump)) => Some((key.to_bytes(), bump)),
        None => None,
    }
}

/// Decodes an address; `None` where the text is no address.
pub fn decode_address(text: &str) -> (key: Option<[u8; 32]>)
    ensures
        key == decoded_address(text@),
{
    match parse_pubkey(text) {
        Ok(bytes) => Some(bytes),
        Err(_) => None,
    }
}

} // verus!
