use xape_miner::default_rpc_url;
use xape_miner::normalize::{strip_null_padding, strip_prefix, str_lex_lt};

#[test]
fn strips_trailing_null_padding() {
    assert_eq!(strip_null_padding("My Token\0\0\0"), "My Token");
    assert_eq!(strip_null_padding("https://host/doc.json\0\0"), "https://host/doc.json");
}

#[test]
fn stripping_keeps_clean_strings() {
    assert_eq!(strip_null_padding("My Token"), "My Token");
    assert_eq!(strip_null_padding(""), "");
}

#[test]
fn stripping_is_idempotent() {
    let once = strip_null_padding("padded\0\0\0\0");
    let twice = strip_null_padding(&once);
    assert_eq!(once, twice);
    assert_eq!(once, "padded");
}

#[test]
fn strips_all_null_string_to_empty() {
    assert_eq!(strip_null_padding("\0\0\0"), "");
}

#[test]
fn keeps_interior_nulls() {
    assert_eq!(strip_null_padding("a\0b\0\0"), "a\0b");
}

#[test]
fn strip_prefix_removes_present_prefix() {
    assert_eq!(strip_prefix("Degen Ape #123", "Degen Ape #"), Some("123".to_string()));
    assert_eq!(strip_prefix("Degen Ape #", "Degen Ape #"), Some("".to_string()));
}

#[test]
fn strip_prefix_rejects_absent_prefix() {
    assert_eq!(strip_prefix("Other Name #123", "Degen Ape #"), None);
    assert_eq!(strip_prefix("Degen", "Degen Ape #"), None);
}

#[test]
fn lexicographic_order_on_mint_addresses() {
    assert!(str_lex_lt("AAA", "AAB"));
    assert!(!str_lex_lt("AAB", "AAA"));
    assert!(!str_lex_lt("AAA", "AAA"));
    assert!(str_lex_lt("AA", "AAA"));
    assert!(str_lex_lt("A", "B"));
}

#[test]
fn default_rpc_url_names_the_public_endpoint() {
    assert_eq!(default_rpc_url(), "https://api.mainnet-beta.solana.com");
}
