//! Trusted boundary to the outside crates: metadata-address derivation,
//! decoding of on-chain metadata records, and parsing of delimited reference
//! data. Each wrapper's contract names the outside function it relies on;
//! everything downstream of these contracts is verified.

use vstd::prelude::*;

use crate::records::{CreatorRecord, DecodedMetadata};
use borsh::de::BorshDeserialize;

verus! {

/// The metadata address that the fixed program-derived-address scheme
/// assigns to the mint written as `mint`, in textual (base58) form; `None`
/// when `mint` is not a well-formed key.
pub uninterp spec fn metadata_address_of(mint: Seq<char>) -> Option<Seq<char>>;

/// Relies on `solana_program::pubkey::Pubkey::try_find_program_address` over
/// the metadata-program seeds (the prefix constant, the program id, the mint
/// key), and on base58 key parsing and printing: the derivation is a pure
/// function of the mint text alone, and fails exactly when the text is not a
/// well-formed key (derivation itself finds a bump seed for practical
/// purposes always; a failure there is also reported as `None`).
#[verifier::external_body]
fn derive_metadata_address(mint: &str) -> (r: Option<String>)
    ensures
        r is Some <==> metadata_address_of(mint@) is Some,
        r matches Some(a) ==> Some(a@) == metadata_address_of(mint@),
{
    let key: solana_program::pubkey::Pubkey = match mint.parse() {
        Ok(k) => k,
        Err(_) => return None,
    };
    let program = mpl_token_metadata::ID;
    let prefix = mpl_token_metadata::state::PREFIX.as_bytes();
    let seeds: &[&[u8]] = &[prefix, program.as_ref(), key.as_ref()];
    let found = solana_program::pubkey::Pubkey::try_find_program_address(seeds, &program);
    found.map(|(address, _bump)| address.to_string())
}

/// Derives the address of the on-chain metadata record of `mint`: pure and
/// deterministic, `None` exactly when `mint` is not a well-formed key.
pub fn metadata_address_for(mint: &str) -> (r: Option<String>)
    ensures
        r is Some <==> metadata_address_of(mint@) is Some,
        r matches Some(a) ==> Some(a@) == metadata_address_of(mint@),
{
    derive_metadata_address(mint)
}

/// The fields `(name, uri, creators)` encoded in the bytes of an on-chain
/// metadata account, with creator addresses in textual (base58) form; `None`
/// when the bytes do not decode as a metadata record.
pub uninterp spec fn decoded_metadata_of(data: Seq<u8>) -> Option<
    (Seq<char>, Seq<char>, Option<Seq<(Seq<char>, bool, u8)>>),
>;

/// Relies on `mpl_token_metadata::state::Metadata::deserialize` (the crate's
/// lenient borsh decoder, `meta_deser_unchecked`): the decoded record is a
/// pure function of the account bytes alone.
#[verifier::external_body]
pub(crate) fn decode_metadata(data: &[u8]) -> (r: Option<DecodedMetadata>)
    ensures
        r is Some <==> decoded_metadata_of(data@) is Some,
        r matches Some(m) ==> Some(m.deep_view()) == decoded_metadata_of(data@),
{
    let mut slice: &[u8] = data;
    let m = match mpl_token_metadata::state::Metadata::deserialize(&mut slice) {
        Ok(m) => m,
        Err(_) => return None,
    };
    let convert = |c: &mpl_token_metadata::state::Creator| CreatorRecord {
        address: c.address.to_string(),
        verified: c.verified,
        share: c.share,
    };
    let creators = m.data.creators.map(|list| list.iter().map(convert).collect());
    Some(DecodedMetadata { name: m.data.name, uri: m.data.uri, creators })
}

/// Decodes the bytes of an on-chain metadata account into the fields this
/// library reads: pure and deterministic, `None` exactly when the bytes do
/// not decode as a metadata record.
pub fn decode_metadata_record(data: &[u8]) -> (r: Option<DecodedMetadata>)
    ensures
        r is Some <==> decoded_metadata_of(data@) is Some,
        r matches Some(m) ==> Some(m.deep_view()) == decoded_metadata_of(data@),
{
    decode_metadata(data)
}

/// The records of the delimited document `input`, one sequence of fields per
/// record, the header row excluded; `None` when the document is malformed.
pub uninterp spec fn delimited_records_of(input: Seq<u8>) -> Option<Seq<Seq<Seq<char>>>>;

/// Relies on `csv::Reader`: with its defaults the reader treats the first
/// row as a header and yields the remaining records; parsing is a pure
/// function of the input bytes alone.
#[verifier::external_body]
pub(crate) fn parse_delimited(input: &[u8]) -> (r: Option<Vec<Vec<String>>>)
    ensures
        r is Some <==> delimited_records_of(input@) is Some,
        r matches Some(rows) ==> Some(rows.deep_view()) == delimited_records_of(input@),
{
    let mut reader = csv::Reader::from_reader(input);
    let mut rows: Vec<Vec<String>> = Vec::new();
    for record in reader.records() {
        match record {
            Ok(record) => rows.push(record.iter().map(|field| field.to_string()).collect()),
            Err(_) => return None,
        }
    }
    Some(rows)
}

} // verus!
