use xape_miner::matcher::plan_entanglements;
use xape_miner::records::{Entanglement, MintRecord, ReferenceRow};

fn record(mint: &str, name: &str, identifying_trait: &str, sequence_order: u64) -> MintRecord {
    MintRecord {
        mint_address: mint.to_string(),
        metadata_address: format!("meta-{mint}"),
        display_name: name.to_string(),
        document_uri: String::new(),
        identifying_trait: identifying_trait.to_string(),
        image_uri: String::new(),
        sequence_order,
    }
}

fn pair(primary: &str, companion: &str) -> Entanglement {
    Entanglement { primary_mint: primary.to_string(), companion_mint: companion.to_string() }
}

fn assert_bijective(pairs: &[Entanglement]) {
    for (k1, e1) in pairs.iter().enumerate() {
        for e2 in pairs.iter().skip(k1 + 1) {
            assert_ne!(e1.primary_mint, e2.primary_mint);
            assert_ne!(e1.companion_mint, e2.companion_mint);
        }
    }
}

#[test]
fn end_to_end_scenario_pairs_all_three() {
    // primaries A, B, C with traits "1", "", "3"; companions X, Y, Z with
    // traits "3", "1", "2" and sequence orders 1, 2, 3
    let primaries = vec![record("A", "pa", "1", 0), record("B", "pb", "", 0), record("C", "pc", "3", 0)];
    let companions = vec![
        record("X", "cx", "3", 1),
        record("Y", "cy", "1", 2),
        record("Z", "cz", "2", 3),
    ];
    let references: Vec<ReferenceRow> = vec![];
    let pairs = plan_entanglements(&primaries, &companions, &references, "ExiledApe ", "/518");
    assert_eq!(pairs, vec![pair("A", "Y"), pair("C", "X"), pair("B", "Z")]);
    assert_bijective(&pairs);
}

#[test]
fn two_primaries_never_share_a_companion() {
    // both primaries carry trait "7" but only one companion does: exactly
    // one of them is paired, the other stays unmatched
    let primaries = vec![record("P1", "a", "7", 0), record("P2", "b", "7", 0)];
    let companions = vec![record("C1", "c", "7", 1)];
    let references: Vec<ReferenceRow> = vec![];
    let pairs = plan_entanglements(&primaries, &companions, &references, "", "");
    assert_eq!(pairs.len(), 1);
    assert_eq!(pairs[0].companion_mint, "C1");
    assert!(pairs[0].primary_mint == "P1" || pairs[0].primary_mint == "P2");
    assert_bijective(&pairs);
}

#[test]
fn duplicate_trait_tiebreak_takes_lowest_companion_mint() {
    let primaries = vec![record("P", "a", "7", 0)];
    let companions = vec![record("ZZZ", "c1", "7", 1), record("BBB", "c2", "7", 2)];
    let references: Vec<ReferenceRow> = vec![];
    let pairs = plan_entanglements(&primaries, &companions, &references, "", "");
    assert_eq!(pairs, vec![pair("P", "BBB")]);
}

#[test]
fn empty_trait_primary_is_deferred_to_the_fallback() {
    let primaries = vec![record("P", "a", "", 0)];
    let companions = vec![record("C", "c", "", 1)];
    let references: Vec<ReferenceRow> = vec![];
    let pairs = plan_entanglements(&primaries, &companions, &references, "", "");
    // no exact-trait pairing on an empty trait; the ordering fallback pairs them
    assert_eq!(pairs, vec![pair("P", "C")]);
}

#[test]
fn reference_rows_resolve_through_the_naming_template() {
    let primaries = vec![record("PA", "ExiledApe 7/518", "", 0)];
    let companions: Vec<MintRecord> = vec![];
    let references = vec![ReferenceRow {
        mono_mint: "MX".to_string(),
        primary_name: "Exiled Ape #7".to_string(),
        primary_number: "7".to_string(),
    }];
    let pairs = plan_entanglements(&primaries, &companions, &references, "ExiledApe ", "/518");
    assert_eq!(pairs, vec![pair("PA", "MX")]);
}

#[test]
fn reference_row_with_consumed_companion_is_skipped() {
    let primaries = vec![record("A", "a", "1", 0), record("B", "ExiledApe 7/518", "", 0)];
    let companions = vec![record("MX", "x", "1", 1)];
    let references = vec![ReferenceRow {
        mono_mint: "MX".to_string(),
        primary_name: "Exiled Ape #7".to_string(),
        primary_number: "7".to_string(),
    }];
    let pairs = plan_entanglements(&primaries, &companions, &references, "ExiledApe ", "/518");
    // the exact-trait tier consumed MX; the reference row must not reuse it,
    // and no companion is left for B
    assert_eq!(pairs, vec![pair("A", "MX")]);
    assert_bijective(&pairs);
}

#[test]
fn reference_row_without_matching_primary_is_skipped() {
    let primaries = vec![record("A", "Some Other Name", "", 0)];
    let companions: Vec<MintRecord> = vec![];
    let references = vec![ReferenceRow {
        mono_mint: "MX".to_string(),
        primary_name: "Exiled Ape #9".to_string(),
        primary_number: "9".to_string(),
    }];
    let pairs = plan_entanglements(&primaries, &companions, &references, "ExiledApe ", "/518");
    assert_eq!(pairs, vec![]);
}

#[test]
fn ghost_fallback_follows_sequence_order_not_table_order() {
    let primaries = vec![record("P1", "a", "", 0), record("P2", "b", "", 0)];
    let companions = vec![record("C-late", "x", "", 5), record("C-early", "y", "", 2)];
    let references: Vec<ReferenceRow> = vec![];
    let pairs = plan_entanglements(&primaries, &companions, &references, "", "");
    assert_eq!(pairs, vec![pair("P1", "C-early"), pair("P2", "C-late")]);
}

#[test]
fn matcher_is_deterministic_on_identical_tables() {
    let primaries = vec![record("A", "pa", "1", 0), record("B", "pb", "", 0), record("C", "pc", "3", 0)];
    let companions = vec![
        record("X", "cx", "3", 1),
        record("Y", "cy", "1", 2),
        record("Z", "cz", "2", 3),
    ];
    let references = vec![ReferenceRow {
        mono_mint: "MX".to_string(),
        primary_name: "Exiled Ape #7".to_string(),
        primary_number: "7".to_string(),
    }];
    let first = plan_entanglements(&primaries, &companions, &references, "ExiledApe ", "/518");
    let second = plan_entanglements(&primaries, &companions, &references, "ExiledApe ", "/518");
    assert_eq!(first, second);
}

#[test]
fn duplicate_companion_mints_cannot_break_the_bijection() {
    // even degenerate inputs (the same companion mint listed twice) yield a
    // table with no duplicate on either side
    let primaries = vec![record("P1", "a", "7", 0), record("P2", "b", "7", 0)];
    let companions = vec![record("C", "c1", "7", 1), record("C", "c2", "7", 2)];
    let references: Vec<ReferenceRow> = vec![];
    let pairs = plan_entanglements(&primaries, &companions, &references, "", "");
    assert_bijective(&pairs);
    assert_eq!(pairs.len(), 1);
}
