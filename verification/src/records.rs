//! Data model: mirrored mint rows, auxiliary reference rows, and the
//! entanglement pairs the matcher produces, together with their ghost views.

use vstd::prelude::*;

verus! {

/// One normalized row mirrored from a token's on-chain record and its
/// off-chain document.
///
/// `display_name` and `document_uri` are stored with trailing null padding
/// already stripped; `identifying_trait` and `image_uri` are empty strings
/// when the off-chain document was unavailable. `sequence_order` is the
/// 1-based position in the input list for companion-collection rows and 0
/// for primary-collection rows.
#[derive(Clone, Debug, PartialEq, Eq)]
pub struct MintRecord {
    pub mint_address: String,
    pub metadata_address: String,
    pub display_name: String,
    pub document_uri: String,
    pub identifying_trait: String,
    pub image_uri: String,
    pub sequence_order: u64,
}

/// Mathematical view of a [`MintRecord`].
pub ghost struct MintRecordV {
    pub mint_address: Seq<char>,
    pub metadata_address: Seq<char>,
    pub display_name: Seq<char>,
    pub document_uri: Seq<char>,
    pub identifying_trait: Seq<char>,
    pub image_uri: Seq<char>,
    pub sequence_order: u64,
}

impl DeepView for MintRecord {
    type V = MintRecordV;

    open spec fn deep_view(&self) -> MintRecordV {
        MintRecordV {
            mint_address: self.mint_address@,
            metadata_address: self.metadata_address@,
            display_name: self.display_name@,
            document_uri: self.document_uri@,
            identifying_trait: self.identifying_trait@,
            image_uri: self.image_uri@,
            sequence_order: self.sequence_order,
        }
    }
}

/// One auxiliary reference row ("blank"): maps a companion mint directly to
/// the display name and numeric identifying value of its intended primary
/// counterpart. `primary_number` keeps the numeral exactly as written in the
/// reference source.
#[derive(Clone, Debug, PartialEq, Eq)]
pub struct ReferenceRow {
    pub mono_mint: String,
    pub primary_name: String,
    pub primary_number: String,
}

/// Mathematical view of a [`ReferenceRow`].
pub ghost struct ReferenceRowV {
    pub mono_mint: Seq<char>,
    pub primary_name: Seq<char>,
    pub primary_number: Seq<char>,
}

impl DeepView for ReferenceRow {
    type V = ReferenceRowV;

    open spec fn deep_view(&self) -> ReferenceRowV {
        ReferenceRowV {
            mono_mint: self.mono_mint@,
            primary_name: self.primary_name@,
            primary_number: self.primary_number@,
        }
    }
}

/// A committed 1:1 pairing between a primary-collection mint and a
/// companion-collection mint.
#[derive(Clone, Debug, PartialEq, Eq)]
pub struct Entanglement {
    pub primary_mint: String,
    pub companion_mint: String,
}

/// Mathematical view of an [`Entanglement`].
pub ghost struct EntanglementV {
    pub primary_mint: Seq<char>,
    pub companion_mint: Seq<char>,
}

impl DeepView for Entanglement {
    type V = EntanglementV;

    open spec fn deep_view(&self) -> EntanglementV {
        EntanglementV { primary_mint: self.primary_mint@, companion_mint: self.companion_mint@ }
    }
}

/// One entry of the attribute set of an off-chain document.
#[derive(Clone, Debug, PartialEq, Eq)]
pub struct DocumentAttribute {
    pub value: String,
    pub trait_type: String,
}

/// Mathematical view of a [`DocumentAttribute`].
pub ghost struct DocumentAttributeV {
    pub value: Seq<char>,
    pub trait_type: Seq<char>,
}

impl DeepView for DocumentAttribute {
    type V = DocumentAttributeV;

    open spec fn deep_view(&self) -> DocumentAttributeV {
        DocumentAttributeV { value: self.value@, trait_type: self.trait_type@ }
    }
}

/// The fields of an off-chain document that ingestion reads.
#[derive(Clone, Debug, PartialEq, Eq)]
pub struct DocumentMeta {
    pub name: String,
    pub image: String,
    pub attributes: Vec<DocumentAttribute>,
}

/// Mathematical view of a [`DocumentMeta`].
pub ghost struct DocumentMetaV {
    pub name: Seq<char>,
    pub image: Seq<char>,
    pub attributes: Seq<DocumentAttributeV>,
}

impl DeepView for DocumentMeta {
    type V = DocumentMetaV;

    open spec fn deep_view(&self) -> DocumentMetaV {
        DocumentMetaV {
            name: self.name@,
            image: self.image@,
            attributes: self.attributes.deep_view(),
        }
    }
}

/// One creator entry of an on-chain metadata record: a royalty recipient.
/// The address is kept in its textual (base58) form.
#[derive(Clone, Debug, PartialEq, Eq)]
pub struct CreatorRecord {
    pub address: String,
    pub verified: bool,
    pub share: u8,
}

impl DeepView for CreatorRecord {
    type V = (Seq<char>, bool, u8);

    open spec fn deep_view(&self) -> (Seq<char>, bool, u8) {
        (self.address@, self.verified, self.share)
    }
}

/// The fields of a decoded on-chain metadata record that this library reads.
#[derive(Clone, Debug, PartialEq, Eq)]
pub struct DecodedMetadata {
    pub name: String,
    pub uri: String,
    pub creators: Option<Vec<CreatorRecord>>,
}

impl DeepView for DecodedMetadata {
    type V = (Seq<char>, Seq<char>, Option<Seq<(Seq<char>, bool, u8)>>);

    open spec fn deep_view(&self) -> (Seq<char>, Seq<char>, Option<Seq<(Seq<char>, bool, u8)>>) {
        (self.name@, self.uri@, self.creators.deep_view())
    }
}

/// Errors of ingestion and of reference-table loading.
///
/// `Parse` reports an input document that could not be parsed at all;
/// `Decode` reports the input position whose record could not be decoded;
/// `Constraint` reports the input position whose row would violate a
/// uniqueness constraint of the store.
#[derive(Clone, Copy, Debug, PartialEq, Eq, Structural)]
pub enum IngestError {
    Parse,
    Decode { index: usize },
    Constraint { index: usize },
}

} // verus!
