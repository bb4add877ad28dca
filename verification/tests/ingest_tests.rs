use xape_miner::chain::metadata_address_for;
use xape_miner::ingest::{ingest_companion_collection, ingest_primary_collection, FetchedMint};
use xape_miner::records::{DocumentAttribute, DocumentMeta, IngestError};

/// A well-formed base58 mint identifier: 32 ones decode to 32 zero bytes.
fn mint_a() -> String {
    "1".repeat(32)
}

/// A second well-formed mint identifier, distinct from `mint_a`.
fn mint_b() -> String {
    format!("{}2", "1".repeat(31))
}

fn le32(n: usize) -> [u8; 4] {
    (n as u32).to_le_bytes()
}

/// Builds the bytes of an on-chain metadata account in the legacy borsh
/// layout: discriminator, update authority, mint, data (name, symbol, uri,
/// fee, creators), two flags, and no edition nonce.
fn metadata_account_bytes(
    name: &str,
    uri: &str,
    creators: Option<Vec<([u8; 32], bool, u8)>>,
) -> Vec<u8> {
    let mut out: Vec<u8> = Vec::new();
    out.push(4); // metadata account discriminator
    out.extend_from_slice(&[0u8; 32]); // update authority
    out.extend_from_slice(&[0u8; 32]); // mint
    out.extend_from_slice(&le32(name.len()));
    out.extend_from_slice(name.as_bytes());
    out.extend_from_slice(&le32(0)); // symbol: empty
    out.extend_from_slice(&le32(uri.len()));
    out.extend_from_slice(uri.as_bytes());
    out.extend_from_slice(&[0, 0]); // seller fee basis points
    match creators {
        None => out.push(0),
        Some(list) => {
            out.push(1);
            out.extend_from_slice(&le32(list.len()));
            for (address, verified, share) in list {
                out.extend_from_slice(&address);
                out.push(u8::from(verified));
                out.push(share);
            }
        }
    }
    out.push(0); // primary sale happened
    out.push(1); // is mutable
    out.push(0); // edition nonce: none
    out
}

fn attribute(trait_type: &str, value: &str) -> DocumentAttribute {
    DocumentAttribute { trait_type: trait_type.to_string(), value: value.to_string() }
}

#[test]
fn primary_ingestion_normalizes_and_extracts_trait() {
    let fetches = vec![FetchedMint {
        mint_address: mint_a(),
        account_data: metadata_account_bytes(
            "My Token\0\0\0",
            "https://host/doc.json\0\0",
            None,
        ),
        document: Some(DocumentMeta {
            name: "My Token".to_string(),
            image: "https://host/image.png".to_string(),
            attributes: vec![attribute("Eyes", "blue"), attribute("Inmate number", "42")],
        }),
    }];
    let rows = ingest_primary_collection(&fetches, "Inmate number").unwrap();
    assert_eq!(rows.len(), 1);
    let row = &rows[0];
    assert_eq!(row.mint_address, mint_a());
    assert_eq!(row.metadata_address, metadata_address_for(&mint_a()).unwrap());
    // the decoder and the deriver did real work: the stored values differ
    // from the raw material they were computed from
    assert_ne!(row.metadata_address, row.mint_address);
    assert_eq!(row.display_name, "My Token");
    assert_eq!(row.document_uri, "https://host/doc.json");
    assert_eq!(row.identifying_trait, "42");
    assert_eq!(row.image_uri, "https://host/image.png");
    assert_eq!(row.sequence_order, 0);
}

#[test]
fn primary_trait_takes_the_last_matching_attribute() {
    let fetches = vec![FetchedMint {
        mint_address: mint_a(),
        account_data: metadata_account_bytes("N", "u", None),
        document: Some(DocumentMeta {
            name: "N".to_string(),
            image: String::new(),
            attributes: vec![attribute("Inmate number", "42"), attribute("Inmate number", "43")],
        }),
    }];
    let rows = ingest_primary_collection(&fetches, "Inmate number").unwrap();
    assert_eq!(rows[0].identifying_trait, "43");
}

#[test]
fn primary_without_document_gets_empty_derived_fields() {
    let fetches = vec![FetchedMint {
        mint_address: mint_a(),
        account_data: metadata_account_bytes("N\0", "u\0", None),
        document: None,
    }];
    let rows = ingest_primary_collection(&fetches, "Inmate number").unwrap();
    assert_eq!(rows[0].identifying_trait, "");
    assert_eq!(rows[0].image_uri, "");
    assert_eq!(rows[0].display_name, "N");
}

#[test]
fn primary_ingestion_rejects_malformed_mint() {
    let fetches = vec![FetchedMint {
        mint_address: "abc".to_string(),
        account_data: metadata_account_bytes("N", "u", None),
        document: None,
    }];
    let err = ingest_primary_collection(&fetches, "Inmate number").unwrap_err();
    assert_eq!(err, IngestError::Decode { index: 0 });
}

#[test]
fn primary_ingestion_rejects_undecodable_account() {
    let fetches = vec![
        FetchedMint {
            mint_address: mint_a(),
            account_data: metadata_account_bytes("N", "u", None),
            document: None,
        },
        FetchedMint {
            mint_address: mint_b(),
            account_data: vec![1, 2, 3],
            document: None,
        },
    ];
    let err = ingest_primary_collection(&fetches, "Inmate number").unwrap_err();
    assert_eq!(err, IngestError::Decode { index: 1 });
}

#[test]
fn primary_ingestion_rejects_duplicate_mint() {
    let fetch = FetchedMint {
        mint_address: mint_a(),
        account_data: metadata_account_bytes("N", "u", None),
        document: None,
    };
    let fetches = vec![fetch.clone(), fetch];
    let err = ingest_primary_collection(&fetches, "Inmate number").unwrap_err();
    assert_eq!(err, IngestError::Constraint { index: 1 });
}

#[test]
fn primary_ingestion_is_idempotent() {
    let fetches = vec![
        FetchedMint {
            mint_address: mint_a(),
            account_data: metadata_account_bytes("A\0", "ua", None),
            document: Some(DocumentMeta {
                name: "A".to_string(),
                image: "ia".to_string(),
                attributes: vec![attribute("Inmate number", "1")],
            }),
        },
        FetchedMint {
            mint_address: mint_b(),
            account_data: metadata_account_bytes("B\0", "ub", None),
            document: None,
        },
    ];
    let first = ingest_primary_collection(&fetches, "Inmate number").unwrap();
    let second = ingest_primary_collection(&fetches, "Inmate number").unwrap();
    assert_eq!(first, second);
}

#[test]
fn companion_ingestion_derives_trait_and_sequence_order() {
    let fetches = vec![
        FetchedMint {
            mint_address: mint_a(),
            account_data: metadata_account_bytes("Degen Ape #123\0\0", "ua\0", None),
            document: Some(DocumentMeta {
                name: "Degen Ape #123".to_string(),
                image: "https://host/a.png".to_string(),
                attributes: vec![],
            }),
        },
        FetchedMint {
            mint_address: mint_b(),
            account_data: metadata_account_bytes("Unrelated Name", "ub", None),
            document: None,
        },
    ];
    let rows = ingest_companion_collection(&fetches, "Degen Ape #").unwrap();
    assert_eq!(rows.len(), 2);
    assert_eq!(rows[0].display_name, "Degen Ape #123");
    assert_eq!(rows[0].identifying_trait, "123");
    assert_eq!(rows[0].image_uri, "https://host/a.png");
    assert_eq!(rows[0].sequence_order, 1);
    assert_eq!(rows[1].identifying_trait, "");
    assert_eq!(rows[1].image_uri, "");
    assert_eq!(rows[1].sequence_order, 2);
}

#[test]
fn companion_ingestion_is_idempotent() {
    let fetches = vec![FetchedMint {
        mint_address: mint_a(),
        account_data: metadata_account_bytes("Degen Ape #7\0", "u", None),
        document: None,
    }];
    let first = ingest_companion_collection(&fetches, "Degen Ape #").unwrap();
    let second = ingest_companion_collection(&fetches, "Degen Ape #").unwrap();
    assert_eq!(first, second);
    assert_eq!(first[0].identifying_trait, "7");
}

#[test]
fn metadata_address_derivation_is_deterministic_and_nontrivial() {
    let a1 = metadata_address_for(&mint_a()).unwrap();
    let a2 = metadata_address_for(&mint_a()).unwrap();
    assert_eq!(a1, a2);
    assert_ne!(a1, mint_a());
    let b = metadata_address_for(&mint_b()).unwrap();
    assert_ne!(a1, b);
}

#[test]
fn metadata_address_rejects_malformed_mint() {
    assert_eq!(metadata_address_for("abc"), None);
    assert_eq!(metadata_address_for("not base58 at all !!!"), None);
}
