use near_workspaces::types::NearToken;

use near_workspaces_tools::context::{ContractSpec, SandboxContext, TokenSpec};
use near_workspaces_tools::decimal::{decimal_string, parse_u128};
use near_workspaces_tools::outcome::{check_expected_failure, check_success, CallOutcome};
use near_workspaces_tools::registry::{lookup, register};
use near_workspaces_tools::text::{any_contains, chars_of, contains};
use near_workspaces_tools::u128_impl::ten_pow;
use near_workspaces_tools::{
    fast_forward_step, StorageBalanceBounds, TimestampExtension, U128Extensions,
};

#[test]
fn to_decimals_scales_by_power_of_ten() {
    assert_eq!(5u128.to_decimals(6), 5_000_000);
    assert_eq!(1u128.to_decimals(24), 1_000_000_000_000_000_000_000_000);
    assert_eq!(7u128.to_decimals(0), 7);
    assert_eq!(0u128.to_decimals(38), 0);
    assert_eq!(3u128.to_decimals(38), 300_000_000_000_000_000_000_000_000_000_000_000_000);
}

#[test]
fn strip_decimals_rounds_down() {
    assert_eq!(5_000_000u128.strip_decimals(6), 5);
    assert_eq!(5_999_999u128.strip_decimals(6), 5);
    assert_eq!(999_999u128.strip_decimals(6), 0);
    assert_eq!(42u128.strip_decimals(0), 42);
    assert_eq!(u128::MAX.strip_decimals(38), 3);
}

#[test]
fn strip_undoes_to_decimals() {
    for d in [0u8, 1, 6, 18, 24] {
        for x in [0u128, 1, 17, 10_000_000, 123_456_789] {
            assert_eq!(x.to_decimals(d).strip_decimals(d), x);
        }
    }
}

#[test]
fn strip_then_to_decimals_stays_within_one_unit() {
    let x: u128 = 12_345_678_901;
    let back = x.strip_decimals(6).to_decimals(6);
    assert!(back <= x);
    assert!(x - back < 1_000_000);
    assert_eq!(back, 12_345_000_000);
}

#[test]
fn ten_pow_values() {
    assert_eq!(ten_pow(0), 1);
    assert_eq!(ten_pow(3), 1000);
    assert_eq!(ten_pow(38), 100_000_000_000_000_000_000_000_000_000_000_000_000);
}

#[test]
fn timestamp_conversions() {
    assert_eq!(2u64.sec_to_ms(), 2_000);
    assert_eq!(0u64.sec_to_ms(), 0);
    assert_eq!(1_700_000_000_123_456_789u64.ns_to_sec(), 1_700_000_000);
    assert_eq!(999_999_999u64.ns_to_sec(), 0);
    let s: u64 = 1_700_000_000;
    assert_eq!((s.sec_to_ms() * 1_000_000).ns_to_sec(), s);
}

#[test]
fn fast_forward_step_until_reached() {
    assert_eq!(fast_forward_step(100, 40), Some(60));
    assert_eq!(fast_forward_step(100, 100), None);
    assert_eq!(fast_forward_step(100, 150), None);
    let mut now = 10u64;
    while let Some(step) = fast_forward_step(25, now) {
        now += step;
    }
    assert_eq!(now, 25);
}

#[test]
fn parse_u128_accepts_decimal_text() {
    assert_eq!(parse_u128("0"), Some(0));
    assert_eq!(parse_u128("1250000000000000000000"), Some(1_250_000_000_000_000_000_000));
    assert_eq!(parse_u128("+42"), Some(42));
    assert_eq!(parse_u128("007"), Some(7));
    assert_eq!(
        parse_u128("340282366920938463463374607431768211455"),
        Some(u128::MAX)
    );
}

#[test]
fn parse_u128_refuses_other_text() {
    assert_eq!(parse_u128(""), None);
    assert_eq!(parse_u128("+"), None);
    assert_eq!(parse_u128("-1"), None);
    assert_eq!(parse_u128("12a"), None);
    assert_eq!(parse_u128(" 12"), None);
    assert_eq!(parse_u128("1_000"), None);
    assert_eq!(parse_u128("++1"), None);
    assert_eq!(parse_u128("١٢"), None);
    assert_eq!(parse_u128("340282366920938463463374607431768211456"), None);
    assert_eq!(parse_u128("99999999999999999999999999999999999999999x"), None);
}

#[test]
fn parse_u128_agrees_with_std() {
    for s in ["0", "+0", "18", "+", "", "-0", "00", "9a", "340282366920938463463374607431768211456"] {
        assert_eq!(parse_u128(s), s.parse::<u128>().ok(), "text {s:?}");
    }
}

#[test]
fn decimal_string_writes_digits() {
    assert_eq!(decimal_string(0), "0");
    assert_eq!(decimal_string(7), "7");
    assert_eq!(decimal_string(10), "10");
    assert_eq!(decimal_string(10_000_000_000_000), "10000000000000");
    assert_eq!(
        decimal_string(u128::MAX),
        "340282366920938463463374607431768211455"
    );
}

#[test]
fn decimal_text_roundtrip() {
    for n in [0u128, 1, 9, 10, 99, 1_000_000, u128::MAX - 1, u128::MAX] {
        assert_eq!(parse_u128(&decimal_string(n)), Some(n));
        assert_eq!(decimal_string(n), n.to_string());
    }
}

#[test]
fn min_yocto_reads_the_minimum() {
    let bounds = StorageBalanceBounds {
        min: "1250000000000000000000".to_string(),
        max: Some("1250000000000000000000".to_string()),
    };
    assert_eq!(bounds.min_yocto(), 1_250_000_000_000_000_000_000);
    let no_max = StorageBalanceBounds { min: "0".to_string(), max: None };
    assert_eq!(no_max.min_yocto(), 0);
}

#[test]
fn contains_finds_runs_of_characters() {
    assert!(contains("Smart contract panicked: not enough balance", "not enough"));
    assert!(contains("abc", ""));
    assert!(contains("", ""));
    assert!(contains("abc", "abc"));
    assert!(!contains("abc", "abcd"));
    assert!(!contains("abc", "ac"));
    assert!(contains("größe", "öß"));
    assert!(!contains("", "a"));
    assert!(contains("aaab", "aab"));
}

#[test]
fn chars_of_lists_characters() {
    assert_eq!(chars_of("añb"), vec!['a', 'ñ', 'b']);
    assert_eq!(chars_of(""), Vec::<char>::new());
}

#[test]
fn any_contains_matches_parts_of_texts() {
    let errors = vec!["first".to_string(), "E08: insufficient balance".to_string()];
    assert!(any_contains(&errors, "insufficient"));
    assert!(!any_contains(&errors, "overflow"));
    assert!(!any_contains(&Vec::new(), ""));
}

fn executed(failures: &[&str]) -> CallOutcome {
    CallOutcome::Executed {
        receipt_failures: failures.iter().map(|s| s.to_string()).collect(),
    }
}

#[test]
fn expected_failure_found_in_receipt() {
    let r = check_expected_failure(&executed(&["ok", "Smart contract panicked: E01"]), "E01", false);
    assert!(r.passed);
    assert!(!r.print_begin);
    assert!(!r.show_outcomes);
    assert!(!r.print_end);
}

#[test]
fn expected_failure_missing() {
    let r = check_expected_failure(&executed(&[]), "E01", false);
    assert!(!r.passed);
    assert!(r.print_begin);
    assert!(r.show_outcomes);
    let r = check_expected_failure(&executed(&["E02"]), "E01", true);
    assert!(!r.passed);
    assert!(r.print_begin);
    assert!(r.print_end);
}

#[test]
fn expected_failure_in_failed_and_unhandled_calls() {
    let failed = CallOutcome::Failed { message: "Action #0: E07 paused".to_string() };
    let r = check_expected_failure(&failed, "E07", true);
    assert!(r.passed);
    assert!(r.print_begin);
    assert!(r.print_end);
    let r = check_expected_failure(&failed, "E08", false);
    assert!(!r.passed);
    assert!(r.show_outcomes);
    let unhandled = CallOutcome::Unhandled { message: "rpc: timeout".to_string() };
    let r = check_expected_failure(&unhandled, "timeout", false);
    assert!(r.passed);
    let r = check_expected_failure(&unhandled, "E01", false);
    assert!(!r.passed);
    assert!(!r.show_outcomes);
}

#[test]
fn empty_expectation_matches_any_failure() {
    assert!(check_expected_failure(&executed(&["x"]), "", false).passed);
    assert!(!check_expected_failure(&executed(&[]), "", false).passed);
    let failed = CallOutcome::Failed { message: String::new() };
    assert!(check_expected_failure(&failed, "", false).passed);
}

#[test]
fn success_check() {
    let r = check_success(&executed(&[]), false);
    assert!(r.passed);
    assert!(!r.print_begin);
    assert!(!r.show_outcomes);
    let r = check_success(&executed(&["boom"]), false);
    assert!(!r.passed);
    assert!(r.print_begin);
    assert!(r.show_outcomes);
    let r = check_success(&CallOutcome::Failed { message: "x".to_string() }, false);
    assert!(!r.passed);
    assert!(r.print_begin);
    assert!(!r.show_outcomes);
    let r = check_success(&CallOutcome::Unhandled { message: "x".to_string() }, true);
    assert!(!r.passed);
    assert!(r.print_end);
}

#[test]
fn success_and_expected_failure_exclude_each_other() {
    for outcome in [executed(&[]), executed(&["a"]), CallOutcome::Failed { message: "a".to_string() }] {
        for expect in ["", "a", "b"] {
            let s = check_success(&outcome, false).passed;
            let f = check_expected_failure(&outcome, expect, false).passed;
            assert!(!(s && f));
        }
    }
}

#[test]
fn registry_last_registration_wins() {
    let mut entries: Vec<(String, u32)> = Vec::new();
    register(&mut entries, "main".to_string(), 1);
    register(&mut entries, "usdc".to_string(), 2);
    register(&mut entries, "main".to_string(), 3);
    assert_eq!(entries.len(), 2);
    assert_eq!(lookup(&entries, "main"), Some(&3));
    assert_eq!(lookup(&entries, "usdc"), Some(&2));
    assert_eq!(lookup(&entries, "wrap"), None);
}

#[test]
fn contract_spec_new_copies_its_parts() {
    let wasm = [0u8, 97, 115, 109];
    let spec = ContractSpec::new("main", NearToken::from_near(100), &wasm);
    assert_eq!(spec.prefix, "main");
    assert_eq!(spec.balance, NearToken::from_near(100));
    assert_eq!(spec.wasm, wasm.to_vec());
}

#[test]
fn builder_collects_contracts_and_tokens_in_order() {
    let b = SandboxContext::builder()
        .add_contract("main", NearToken::from_near(50), &[1, 2, 3])
        .add_spec(ContractSpec::new("other", NearToken::from_near(5), &[4]))
        .add_token_with_wasm("usdc", 6, &[9, 9]);
    let (specs, tokens) = b.into_specs();
    assert_eq!(specs.len(), 2);
    assert_eq!(specs[0].prefix, "main");
    assert_eq!(specs[0].balance, NearToken::from_near(50));
    assert_eq!(specs[0].wasm, vec![1, 2, 3]);
    assert_eq!(specs[1].prefix, "other");
    assert_eq!(tokens.len(), 1);
    assert_eq!(tokens[0].name, "usdc");
    assert_eq!(tokens[0].decimals, 6);
    assert_eq!(tokens[0].wasm, vec![9, 9]);
}

#[test]
fn empty_builder() {
    let (specs, tokens) = SandboxContext::builder().into_specs();
    assert!(specs.is_empty());
    assert!(tokens.is_empty());
}

#[test]
fn token_spec_init_values() {
    let spec = TokenSpec { name: "usdc".to_string(), decimals: 6, wasm: Vec::new() };
    assert_eq!(spec.total_supply(), "10000000000000");
    let m = spec.metadata();
    assert_eq!(m.spec, "ft-1.0.0");
    assert_eq!(m.name, "Token usdc");
    assert_eq!(m.symbol, "USDC");
    assert_eq!(m.decimals, 6);
    assert!(m.icon.is_none());
    assert!(m.reference.is_none());
    assert!(m.reference_hash.is_none());

    let wrap = TokenSpec { name: "wrap".to_string(), decimals: 24, wasm: Vec::new() };
    assert_eq!(wrap.total_supply(), "10000000000000000000000000000000");
    assert_eq!(wrap.metadata().symbol, "WRAP");
}

#[test]
fn token_spec_largest_supply() {
    let spec = TokenSpec { name: "big".to_string(), decimals: 31, wasm: Vec::new() };
    assert_eq!(spec.total_supply(), format!("1{}", "0".repeat(38)));
}

#[test]
fn metadata_with_symbol_keeps_the_symbol() {
    let spec = TokenSpec { name: "wNEAR".to_string(), decimals: 24, wasm: Vec::new() };
    let m = spec.metadata_with_symbol("WN".to_string());
    assert_eq!(m.symbol, "WN");
    assert_eq!(m.name, "Token wNEAR");
    assert_eq!(spec.metadata().symbol, "WNEAR");
}

#[test]
fn log_check_accepts_part_of_a_line() {
    let logs = vec![
        "EVENT_JSON:{\"standard\":\"nep141\",\"event\":\"ft_transfer\"}".to_string(),
        "Transfer 5 from alice to bob".to_string(),
    ];
    assert!(any_contains(&logs, "Transfer 5"));
    assert!(any_contains(&logs, "Transfer 5 from alice to bob"));
    assert!(!any_contains(&logs, "Transfer 6"));
}
