//! Metadata ingestion and normalization: turns the fetched raw material of
//! each mint (account bytes plus the optional off-chain document) into the
//! normalized mint tables, and loads the auxiliary reference table from a
//! delimited document.
//!
//! The network fetches themselves happen outside the library; ingestion here
//! is a pure function of the fetched material, which is what makes re-running
//! it on identical inputs reproducible.

use vstd::prelude::*;

use crate::chain::{
    decode_metadata, decoded_metadata_of, delimited_records_of, metadata_address_for,
    metadata_address_of, parse_delimited,
};
use crate::normalize::{has_prefix, strip_null_padding, strip_nulls, strip_prefix};
use crate::records::{
    DocumentAttribute, DocumentAttributeV, DocumentMeta, DocumentMetaV, IngestError, MintRecord,
    MintRecordV, ReferenceRow, ReferenceRowV,
};

verus! {

/// The raw material fetched for one mint: the bytes of its on-chain metadata
/// account, and its off-chain document, `None` when that fetch failed (a
/// recoverable condition: the derived fields are left empty).
#[derive(Clone, Debug, PartialEq, Eq)]
pub struct FetchedMint {
    pub mint_address: String,
    pub account_data: Vec<u8>,
    pub document: Option<DocumentMeta>,
}

/// Mathematical view of a [`FetchedMint`].
pub ghost struct FetchedMintV {
    pub mint_address: Seq<char>,
    pub account_data: Seq<u8>,
    pub document: Option<DocumentMetaV>,
}

impl DeepView for FetchedMint {
    type V = FetchedMintV;

    open spec fn deep_view(&self) -> FetchedMintV {
        FetchedMintV {
            mint_address: self.mint_address@,
            account_data: self.account_data@,
            document: self.document.deep_view(),
        }
    }
}

/// The value of the last attribute whose type label equals `key`; empty when
/// no attribute matches.
pub open spec fn trait_value(attrs: Seq<DocumentAttributeV>, key: Seq<char>) -> Seq<char>
    decreases attrs.len(),
{
    if attrs.len() == 0 {
        Seq::empty()
    } else if attrs.last().trait_type == key {
        attrs.last().value
    } else {
        trait_value(attrs.drop_last(), key)
    }
}

/// The identifying trait a document yields for the primary collection: the
/// attribute labelled `key`, or empty when the document is missing.
pub open spec fn document_trait(doc: Option<DocumentMetaV>, key: Seq<char>) -> Seq<char> {
    match doc {
        Some(d) => trait_value(d.attributes, key),
        None => Seq::empty(),
    }
}

/// The display image a document yields; empty when the document is missing.
pub open spec fn document_image(doc: Option<DocumentMetaV>) -> Seq<char> {
    match doc {
        Some(d) => d.image,
        None => Seq::empty(),
    }
}

/// What remains of `s` after a prefix `p`, or empty when `p` is no prefix.
pub open spec fn prefix_remainder(s: Seq<char>, p: Seq<char>) -> Seq<char> {
    if has_prefix(s, p) {
        s.skip(p.len() as int)
    } else {
        Seq::empty()
    }
}

/// Both decoding steps of one fetched mint succeed: its identifier is a
/// well-formed key and its account bytes decode as a metadata record.
pub open spec fn fetch_decodes(f: FetchedMintV) -> bool {
    metadata_address_of(f.mint_address) is Some && decoded_metadata_of(f.account_data) is Some
}

/// The normalized row ingestion produces for one primary-collection mint.
pub open spec fn spec_primary_record(f: FetchedMintV, key: Seq<char>) -> MintRecordV
    recommends
        fetch_decodes(f),
{
    let meta = decoded_metadata_of(f.account_data)->0;
    MintRecordV {
        mint_address: f.mint_address,
        metadata_address: metadata_address_of(f.mint_address)->0,
        display_name: strip_nulls(meta.0),
        document_uri: strip_nulls(meta.1),
        identifying_trait: document_trait(f.document, key),
        image_uri: document_image(f.document),
        sequence_order: 0,
    }
}

/// The normalized row ingestion produces for one companion-collection mint
/// standing at 0-based `position` of the input list.
pub open spec fn spec_companion_record(f: FetchedMintV, prefix: Seq<char>, position: int) -> MintRecordV
    recommends
        fetch_decodes(f),
        0 <= position,
{
    let meta = decoded_metadata_of(f.account_data)->0;
    MintRecordV {
        mint_address: f.mint_address,
        metadata_address: metadata_address_of(f.mint_address)->0,
        display_name: strip_nulls(meta.0),
        document_uri: strip_nulls(meta.1),
        identifying_trait: prefix_remainder(strip_nulls(meta.0), prefix),
        image_uri: document_image(f.document),
        sequence_order: (position + 1) as u64,
    }
}

/// Some already-ingested row holds this mint address.
pub open spec fn mint_listed(rows: Seq<MintRecordV>, mint: Seq<char>) -> bool {
    exists|k: int| 0 <= k < rows.len() && rows[k].mint_address == mint
}

/// The primary-collection table built from `fs[i..]` on top of `acc`, or the
/// first ingestion error, in input order.
pub open spec fn spec_ingest_primary_from(
    fs: Seq<FetchedMintV>,
    key: Seq<char>,
    i: int,
    acc: Seq<MintRecordV>,
) -> Result<Seq<MintRecordV>, IngestError>
    decreases fs.len() - i,
{
    if i < 0 || i >= fs.len() {
        Ok(acc)
    } else if !fetch_decodes(fs[i]) {
        Err(IngestError::Decode { index: i as usize })
    } else if mint_listed(acc, fs[i].mint_address) {
        Err(IngestError::Constraint { index: i as usize })
    } else {
        spec_ingest_primary_from(fs, key, i + 1, acc.push(spec_primary_record(fs[i], key)))
    }
}

/// The primary-collection table ingestion produces, or its first error.
pub open spec fn spec_ingest_primary(fs: Seq<FetchedMintV>, key: Seq<char>) -> Result<
    Seq<MintRecordV>,
    IngestError,
> {
    spec_ingest_primary_from(fs, key, 0, Seq::empty())
}

/// The companion-collection table built from `fs[i..]` on top of `acc`, or
/// the first ingestion error, in input order.
pub open spec fn spec_ingest_companion_from(
    fs: Seq<FetchedMintV>,
    prefix: Seq<char>,
    i: int,
    acc: Seq<MintRecordV>,
) -> Result<Seq<MintRecordV>, IngestError>
    decreases fs.len() - i,
{
    if i < 0 || i >= fs.len() {
        Ok(acc)
    } else if !fetch_decodes(fs[i]) {
        Err(IngestError::Decode { index: i as usize })
    } else if mint_listed(acc, fs[i].mint_address) {
        Err(IngestError::Constraint { index: i as usize })
    } else {
        spec_ingest_companion_from(fs, prefix, i + 1, acc.push(spec_companion_record(fs[i], prefix, i)))
    }
}

/// The companion-collection table ingestion produces, or its first error.
pub open spec fn spec_ingest_companion(fs: Seq<FetchedMintV>, prefix: Seq<char>) -> Result<
    Seq<MintRecordV>,
    IngestError,
> {
    spec_ingest_companion_from(fs, prefix, 0, Seq::empty())
}

/// The store's uniqueness invariant: no two rows share a mint address.
pub open spec fn mints_distinct(rows: Seq<MintRecordV>) -> bool {
    forall|k1: int, k2: int|
        0 <= k1 < k2 < rows.len() ==> rows[k1].mint_address != rows[k2].mint_address
}

proof fn lemma_ingest_primary_from_distinct(
    fs: Seq<FetchedMintV>,
    key: Seq<char>,
    i: int,
    acc: Seq<MintRecordV>,
)
    requires
        mints_distinct(acc),
    ensures
        spec_ingest_primary_from(fs, key, i, acc) matches Ok(rows) ==> mints_distinct(rows),
    decreases fs.len() - i,
{
    if 0 <= i < fs.len() && fetch_decodes(fs[i]) && !mint_listed(acc, fs[i].mint_address) {
        let acc2 = acc.push(spec_primary_record(fs[i], key));
        assert forall|k1: int, k2: int| 0 <= k1 < k2 < acc2.len() implies acc2[k1].mint_address
            != acc2[k2].mint_address by {
            if k2 == acc.len() as int {
                assert(acc2[k1] == acc[k1]);
                assert(acc[k1].mint_address != fs[i].mint_address);
            } else {
                assert(acc2[k1] == acc[k1] && acc2[k2] == acc[k2]);
            }
        }
        lemma_ingest_primary_from_distinct(fs, key, i + 1, acc2);
    }
}

proof fn lemma_ingest_companion_from_distinct(
    fs: Seq<FetchedMintV>,
    prefix: Seq<char>,
    i: int,
    acc: Seq<MintRecordV>,
)
    requires
        mints_distinct(acc),
    ensures
        spec_ingest_companion_from(fs, prefix, i, acc) matches Ok(rows) ==> mints_distinct(rows),
    decreases fs.len() - i,
{
    if 0 <= i < fs.len() && fetch_decodes(fs[i]) && !mint_listed(acc, fs[i].mint_address) {
        let acc2 = acc.push(spec_companion_record(fs[i], prefix, i));
        assert forall|k1: int, k2: int| 0 <= k1 < k2 < acc2.len() implies acc2[k1].mint_address
            != acc2[k2].mint_address by {
            if k2 == acc.len() as int {
                assert(acc2[k1] == acc[k1]);
                assert(acc[k1].mint_address != fs[i].mint_address);
            } else {
                assert(acc2[k1] == acc[k1] && acc2[k2] == acc[k2]);
            }
        }
        lemma_ingest_companion_from_distinct(fs, prefix, i + 1, acc2);
    }
}

/// Every table that ingestion accepts satisfies the store's uniqueness
/// invariant: its mint addresses are pairwise distinct (a duplicate aborts
/// the run as a constraint violation instead).
pub proof fn lemma_ingest_mints_distinct(fs: Seq<FetchedMintV>, key: Seq<char>, prefix: Seq<char>)
    ensures
        spec_ingest_primary(fs, key) matches Ok(rows) ==> mints_distinct(rows),
        spec_ingest_companion(fs, prefix) matches Ok(rows) ==> mints_distinct(rows),
{
    lemma_ingest_primary_from_distinct(fs, key, 0, Seq::empty());
    lemma_ingest_companion_from_distinct(fs, prefix, 0, Seq::empty());
}

/// Re-running ingestion on identical fetched inputs yields an identical
/// table (or the identical error): the model of ingestion is a pure function
/// of the fetched material.
pub proof fn lemma_ingest_deterministic(
    a: Seq<FetchedMintV>,
    b: Seq<FetchedMintV>,
    key: Seq<char>,
    prefix: Seq<char>,
)
    requires
        a == b,
    ensures
        spec_ingest_primary(a, key) == spec_ingest_primary(b, key),
        spec_ingest_companion(a, prefix) == spec_ingest_companion(b, prefix),
{
}

/// The value of the last attribute labelled `key`, or empty.
fn extract_trait_value(attrs: &Vec<DocumentAttribute>, key: &String) -> (r: String)
    ensures
        r@ == trait_value(attrs.deep_view(), key@),
{
    let mut out = String::new();
    let mut i: usize = 0;
    proof {
        assert(attrs.deep_view().take(0) =~= Seq::<DocumentAttributeV>::empty());
    }
    while i < attrs.len()
        invariant
            i <= attrs.len(),
            out@ == trait_value(attrs.deep_view().take(i as int), key@),
        decreases attrs.len() - i,
    {
        proof {
            assert(attrs.deep_view().take(i as int + 1).drop_last() =~= attrs.deep_view().take(
                i as int,
            ));
            assert(attrs.deep_view().take(i as int + 1).last() == attrs.deep_view()[i as int]);
        }
        if attrs[i].trait_type == *key {
            out = attrs[i].value.clone();
        }
        i = i + 1;
    }
    proof {
        assert(attrs.deep_view().take(attrs.deep_view().len() as int) =~= attrs.deep_view());
    }
    out
}

/// Some row of `rows` holds this mint address.
fn contains_mint(rows: &Vec<MintRecord>, mint: &String) -> (r: bool)
    ensures
        r == mint_listed(rows.deep_view(), mint@),
{
    let mut i: usize = 0;
    while i < rows.len()
        invariant
            i <= rows.len(),
            forall|k: int| 0 <= k < i ==> rows.deep_view()[k].mint_address != mint@,
        decreases rows.len() - i,
    {
        if rows[i].mint_address == *mint {
            proof {
                assert(rows.deep_view()[i as int].mint_address == mint@);
            }
            return true;
        }
        i = i + 1;
    }
    false
}

/// Ingests the primary collection: derives each mint's metadata address,
/// decodes its account bytes, extracts the identifying trait labelled
/// `trait_key` from its document, strips null padding from name and uri, and
/// builds the table in input order. Aborts with `Decode` at the first mint
/// that fails a decoding step and with `Constraint` at the first duplicate
/// mint address; the document fetch having failed (`document == None`) is
/// recoverable and leaves the derived fields empty.
pub fn ingest_primary_collection(fetches: &Vec<FetchedMint>, trait_key: &str) -> (r: Result<
    Vec<MintRecord>,
    IngestError,
>)
    ensures
        ({
            let model = spec_ingest_primary(fetches.deep_view(), trait_key@);
            match r {
                Ok(rows) => model == Ok::<Seq<MintRecordV>, IngestError>(rows.deep_view()),
                Err(e) => model == Err::<Seq<MintRecordV>, IngestError>(e),
            }
        }),
{
    let ghost fv = fetches.deep_view();
    let key_owned: String = trait_key.to_owned();
    let mut out: Vec<MintRecord> = Vec::new();
    let mut i: usize = 0;
    proof {
        assert(out.deep_view() =~= Seq::<MintRecordV>::empty());
    }
    while i < fetches.len()
        invariant
            i <= fetches.len(),
            fv == fetches.deep_view(),
            key_owned@ == trait_key@,
            spec_ingest_primary(fv, trait_key@) == spec_ingest_primary_from(
                fv,
                trait_key@,
                i as int,
                out.deep_view(),
            ),
        decreases fetches.len() - i,
    {
        let f = &fetches[i];
        proof {
            assert(fv[i as int] == fetches@[i as int].deep_view());
        }
        let address = match metadata_address_for(f.mint_address.as_str()) {
            Some(a) => a,
            None => {
                return Err(IngestError::Decode { index: i });
            },
        };
        let meta = match decode_metadata(f.account_data.as_slice()) {
            Some(m) => m,
            None => {
                return Err(IngestError::Decode { index: i });
            },
        };
        if contains_mint(&out, &f.mint_address) {
            return Err(IngestError::Constraint { index: i });
        }
        let record = MintRecord {
            mint_address: f.mint_address.clone(),
            metadata_address: address,
            display_name: strip_null_padding(meta.name.as_str()),
            document_uri: strip_null_padding(meta.uri.as_str()),
            identifying_trait: match &f.document {
                Some(d) => extract_trait_value(&d.attributes, &key_owned),
                None => String::new(),
            },
            image_uri: match &f.document {
                Some(d) => d.image.clone(),
                None => String::new(),
            },
            sequence_order: 0,
        };
        proof {
            assert(record.deep_view() == spec_primary_record(fv[i as int], trait_key@));
        }
        let ghost old_dv = out.deep_view();
        out.push(record);
        proof {
            assert(out.deep_view() =~= old_dv.push(record.deep_view()));
        }
        i = i + 1;
    }
    Ok(out)
}

/// Ingests the companion collection: like the primary ingestion, but the
/// identifying trait is derived by stripping `name_prefix` from the
/// normalized display name, and each row records its 1-based position in the
/// input list as `sequence_order` (the mint-order tiebreak signal).
pub fn ingest_companion_collection(fetches: &Vec<FetchedMint>, name_prefix: &str) -> (r: Result<
    Vec<MintRecord>,
    IngestError,
>)
    ensures
        ({
            let model = spec_ingest_companion(fetches.deep_view(), name_prefix@);
            match r {
                Ok(rows) => model == Ok::<Seq<MintRecordV>, IngestError>(rows.deep_view()),
                Err(e) => model == Err::<Seq<MintRecordV>, IngestError>(e),
            }
        }),
{
    let ghost fv = fetches.deep_view();
    let mut out: Vec<MintRecord> = Vec::new();
    let mut i: usize = 0;
    proof {
        assert(out.deep_view() =~= Seq::<MintRecordV>::empty());
    }
    while i < fetches.len()
        invariant
            i <= fetches.len(),
            fv == fetches.deep_view(),
            spec_ingest_companion(fv, name_prefix@) == spec_ingest_companion_from(
                fv,
                name_prefix@,
                i as int,
                out.deep_view(),
            ),
        decreases fetches.len() - i,
    {
        let f = &fetches[i];
        proof {
            assert(fv[i as int] == fetches@[i as int].deep_view());
        }
        let address = match metadata_address_for(f.mint_address.as_str()) {
            Some(a) => a,
            None => {
                return Err(IngestError::Decode { index: i });
            },
        };
        let meta = match decode_metadata(f.account_data.as_slice()) {
            Some(m) => m,
            None => {
                return Err(IngestError::Decode { index: i });
            },
        };
        if contains_mint(&out, &f.mint_address) {
            return Err(IngestError::Constraint { index: i });
        }
        let display_name = strip_null_padding(meta.name.as_str());
        let identifying_trait = match strip_prefix(display_name.as_str(), name_prefix) {
            Some(t) => t,
            None => String::new(),
        };
        let record = MintRecord {
            mint_address: f.mint_address.clone(),
            metadata_address: address,
            display_name,
            document_uri: strip_null_padding(meta.uri.as_str()),
            identifying_trait,
            image_uri: match &f.document {
                Some(d) => d.image.clone(),
                None => String::new(),
            },
            sequence_order: (i + 1) as u64,
        };
        proof {
            assert(record.deep_view() == spec_companion_record(fv[i as int], name_prefix@, i as int));
        }
        let ghost old_dv = out.deep_view();
        out.push(record);
        proof {
            assert(out.deep_view() =~= old_dv.push(record.deep_view()));
        }
        i = i + 1;
    }
    Ok(out)
}

/// Some already-loaded reference row collides with one of the three unique
/// columns.
pub open spec fn reference_listed(
    rows: Seq<ReferenceRowV>,
    mint: Seq<char>,
    name: Seq<char>,
    number: Seq<char>,
) -> bool {
    exists|k: int|
        0 <= k < rows.len() && (rows[k].mono_mint == mint || rows[k].primary_name == name
            || rows[k].primary_number == number)
}

/// The reference table built from `rows[i..]` on top of `acc`, or the first
/// loading error, in input order.
pub open spec fn spec_reference_rows_from(
    rows: Seq<Seq<Seq<char>>>,
    prefix: Seq<char>,
    name_col: int,
    mint_col: int,
    i: int,
    acc: Seq<ReferenceRowV>,
) -> Result<Seq<ReferenceRowV>, IngestError>
    decreases rows.len() - i,
{
    if i < 0 || i >= rows.len() {
        Ok(acc)
    } else if rows[i].len() <= name_col || rows[i].len() <= mint_col {
        Err(IngestError::Decode { index: i as usize })
    } else {
        let name = rows[i][name_col];
        let mint = rows[i][mint_col];
        let number = prefix_remainder(name, prefix);
        if reference_listed(acc, mint, name, number) {
            Err(IngestError::Constraint { index: i as usize })
        } else {
            spec_reference_rows_from(
                rows,
                prefix,
                name_col,
                mint_col,
                i + 1,
                acc.push(ReferenceRowV { mono_mint: mint, primary_name: name, primary_number: number }),
            )
        }
    }
}

/// The reference table loaded from already-parsed records, or its first error.
pub open spec fn spec_reference_rows(
    rows: Seq<Seq<Seq<char>>>,
    prefix: Seq<char>,
    name_col: int,
    mint_col: int,
) -> Result<Seq<ReferenceRowV>, IngestError> {
    spec_reference_rows_from(rows, prefix, name_col, mint_col, 0, Seq::empty())
}

/// The reference table loaded from a delimited document, or its first error.
pub open spec fn spec_load_reference_rows(
    input: Seq<u8>,
    prefix: Seq<char>,
    name_col: int,
    mint_col: int,
) -> Result<Seq<ReferenceRowV>, IngestError> {
    match delimited_records_of(input) {
        None => Err(IngestError::Parse),
        Some(rows) => spec_reference_rows(rows, prefix, name_col, mint_col),
    }
}

/// The reference table's uniqueness invariant: no two rows share a companion
/// mint, a primary name, or a primary number.
pub open spec fn references_distinct(rows: Seq<ReferenceRowV>) -> bool {
    forall|k1: int, k2: int|
        0 <= k1 < k2 < rows.len() ==> rows[k1].mono_mint != rows[k2].mono_mint
            && rows[k1].primary_name != rows[k2].primary_name && rows[k1].primary_number
            != rows[k2].primary_number
}

proof fn lemma_reference_rows_from_distinct(
    rows: Seq<Seq<Seq<char>>>,
    prefix: Seq<char>,
    name_col: int,
    mint_col: int,
    i: int,
    acc: Seq<ReferenceRowV>,
)
    requires
        references_distinct(acc),
    ensures
        spec_reference_rows_from(rows, prefix, name_col, mint_col, i, acc) matches Ok(table)
            ==> references_distinct(table),
    decreases rows.len() - i,
{
    if 0 <= i < rows.len() && rows[i].len() > name_col && rows[i].len() > mint_col {
        let name = rows[i][name_col];
        let mint = rows[i][mint_col];
        let number = prefix_remainder(name, prefix);
        if !reference_listed(acc, mint, name, number) {
            let acc2 = acc.push(
                ReferenceRowV { mono_mint: mint, primary_name: name, primary_number: number },
            );
            assert forall|k1: int, k2: int| 0 <= k1 < k2 < acc2.len() implies acc2[k1].mono_mint
                != acc2[k2].mono_mint && acc2[k1].primary_name != acc2[k2].primary_name
                && acc2[k1].primary_number != acc2[k2].primary_number by {
                if k2 == acc.len() as int {
                    assert(acc2[k1] == acc[k1]);
                    assert(!(acc[k1].mono_mint == mint || acc[k1].primary_name == name
                        || acc[k1].primary_number == number));
                } else {
                    assert(acc2[k1] == acc[k1] && acc2[k2] == acc[k2]);
                }
            }
            lemma_reference_rows_from_distinct(rows, prefix, name_col, mint_col, i + 1, acc2);
        }
    }
}

/// Every reference table that loading accepts satisfies its uniqueness
/// invariant: companion mints, primary names and primary numbers are each
/// pairwise distinct (a collision aborts the load as a constraint violation
/// instead).
pub proof fn lemma_reference_rows_distinct(
    rows: Seq<Seq<Seq<char>>>,
    prefix: Seq<char>,
    name_col: int,
    mint_col: int,
)
    ensures
        spec_reference_rows(rows, prefix, name_col, mint_col) matches Ok(table)
            ==> references_distinct(table),
{
    lemma_reference_rows_from_distinct(rows, prefix, name_col, mint_col, 0, Seq::empty());
}

/// Some loaded reference row collides with the given unique column values.
fn contains_reference(rows: &Vec<ReferenceRow>, mint: &String, name: &String, number: &String) -> (r:
    bool)
    ensures
        r == reference_listed(rows.deep_view(), mint@, name@, number@),
{
    let mut i: usize = 0;
    while i < rows.len()
        invariant
            i <= rows.len(),
            forall|k: int|
                0 <= k < i ==> !(rows.deep_view()[k].mono_mint == mint@
                    || rows.deep_view()[k].primary_name == name@
                    || rows.deep_view()[k].primary_number == number@),
        decreases rows.len() - i,
    {
        if rows[i].mono_mint == *mint || rows[i].primary_name == *name || rows[i].primary_number
            == *number {
            proof {
                assert(rows.deep_view()[i as int] == rows@[i as int].deep_view());
            }
            return true;
        }
        i = i + 1;
    }
    false
}

/// Builds the reference table from already-parsed delimited records: the
/// primary name stands in column `name_column`, the companion mint in column
/// `mint_column`, and the numeric identifying value is derived by stripping
/// `name_prefix` from the name (empty when the prefix is absent). Aborts with
/// `Decode` at the first record too short for the columns and with
/// `Constraint` at the first collision on any of the three unique columns.
pub fn reference_rows_from_records(
    records: &Vec<Vec<String>>,
    name_prefix: &str,
    name_column: usize,
    mint_column: usize,
) -> (r: Result<Vec<ReferenceRow>, IngestError>)
    ensures
        ({
            let model = spec_reference_rows(
                records.deep_view(),
                name_prefix@,
                name_column as int,
                mint_column as int,
            );
            match r {
                Ok(rows) => model == Ok::<Seq<ReferenceRowV>, IngestError>(rows.deep_view()),
                Err(e) => model == Err::<Seq<ReferenceRowV>, IngestError>(e),
            }
        }),
{
    let ghost rv = records.deep_view();
    let mut out: Vec<ReferenceRow> = Vec::new();
    let mut i: usize = 0;
    proof {
        assert(out.deep_view() =~= Seq::<ReferenceRowV>::empty());
    }
    while i < records.len()
        invariant
            i <= records.len(),
            rv == records.deep_view(),
            spec_reference_rows(rv, name_prefix@, name_column as int, mint_column as int)
                == spec_reference_rows_from(
                rv,
                name_prefix@,
                name_column as int,
                mint_column as int,
                i as int,
                out.deep_view(),
            ),
        decreases records.len() - i,
    {
        let record = &records[i];
        proof {
            assert(rv[i as int] == records@[i as int].deep_view());
        }
        if name_column >= record.len() || mint_column >= record.len() {
            return Err(IngestError::Decode { index: i });
        }
        let name = record[name_column].clone();
        let mint = record[mint_column].clone();
        proof {
            assert(rv[i as int][name_column as int] == record@[name_column as int]@);
            assert(rv[i as int][mint_column as int] == record@[mint_column as int]@);
        }
        let number = match strip_prefix(name.as_str(), name_prefix) {
            Some(t) => t,
            None => String::new(),
        };
        if contains_reference(&out, &mint, &name, &number) {
            return Err(IngestError::Constraint { index: i });
        }
        let row = ReferenceRow { mono_mint: mint, primary_name: name, primary_number: number };
        let ghost old_dv = out.deep_view();
        out.push(row);
        proof {
            assert(out.deep_view() =~= old_dv.push(row.deep_view()));
        }
        i = i + 1;
    }
    Ok(out)
}

/// Loads the reference table from the bytes of a delimited document: parses
/// the document (its header row excluded), then builds the table as
/// [`reference_rows_from_records`] does; a document that cannot be parsed at
/// all is the `Parse` error.
pub fn load_reference_rows(
    input: &[u8],
    name_prefix: &str,
    name_column: usize,
    mint_column: usize,
) -> (r: Result<Vec<ReferenceRow>, IngestError>)
    ensures
        ({
            let model = spec_load_reference_rows(
                input@,
                name_prefix@,
                name_column as int,
                mint_column as int,
            );
            match r {
                Ok(rows) => model == Ok::<Seq<ReferenceRowV>, IngestError>(rows.deep_view()),
                Err(e) => model == Err::<Seq<ReferenceRowV>, IngestError>(e),
            }
        }),
{
    match parse_delimited(input) {
        None => Err(IngestError::Parse),
        Some(records) => reference_rows_from_records(
            &records,
            name_prefix,
            name_column,
            mint_column,
        ),
    }
}

} // verus!
