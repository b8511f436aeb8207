use slot_cli::paymaster::budget::{parse_reason, try_unit_and_amount, unit_and_amount, BudgetCmd, BudgetReason, BudgetSubcommand, FeeUnit, IncreaseBudgetArgs, DecreaseBudgetArgs};
use slot_cli::paymaster::create::CreateArgs;
use slot_cli::paymaster::dune::{build_dune_query, dune_start_time, format_dune_address, format_dune_time, join_strings, query_addresses, unique_addresses, DuneArgs};
use slot_cli::paymaster::info::{budget_unit_label, has_outstanding_balance, lifetime_transactions, BudgetFeeUnit};
use slot_cli::paymaster::policy::{removal_confirmed, reported_policy_args, ReportedPolicy};
use slot_cli::paymaster::stats::StatsArgs;
use slot_cli::paymaster::transactions::{elapsed_since, format_relative_time, format_table_line, parse_filter, parse_order, relative_time_label, relative_time_text, transactions_table_lines, TransactionDisplay, TransactionFilter, TransactionOrder};
use slot_cli::paymaster::update::{applying_line, existing_policy_ids, removal_needed, updated_line, UpdateArgs, UpdateStep};
use slot_cli::paymaster::utils::{parse_duration, since_rfc3339, DurationError};
use slot_cli::paymaster::{policies_table, PolicyArgs};

#[test]
fn durations_in_seconds() {
    assert_eq!(parse_duration("24hr").unwrap(), 86400);
    assert_eq!(parse_duration("2MIN").unwrap(), 120);
    assert_eq!(parse_duration("30s").unwrap(), 30);
    assert_eq!(parse_duration("1week").unwrap(), 604800);
    assert_eq!(parse_duration("7d").unwrap(), 604800);
}

#[test]
fn duration_errors() {
    assert_eq!(parse_duration("10").unwrap_err().message(), "Invalid duration format: 10");
    assert_eq!(parse_duration("xh").unwrap_err().message(), "Invalid number in duration: ");
    assert_eq!(parse_duration("1.5h").unwrap_err().message(), "Invalid number in duration: 1.5");
    assert_eq!(parse_duration("3y").unwrap_err().message(), "Invalid time unit: y. Supported units: s, m, h, d, w");
    assert_eq!(parse_duration("2w").unwrap_err().message(), "Maximum duration is 1 week");
    assert_eq!(parse_duration("8d").unwrap_err().message(), "Duration exceeds maximum of 1 week");
    assert_eq!(parse_duration("0m").unwrap_err().message(), "Duration must be greater than 0");
    assert!(matches!(parse_duration("0m"), Err(DurationError::Zero)));
}

#[test]
fn huge_durations_are_flagged() {
    assert_eq!(parse_duration("99999999999999999999s").unwrap_err().message(), "Invalid number in duration: 99999999999999999999");
    assert!(matches!(parse_duration("18446744073709551615d"), Err(DurationError::ExceedsWeek)));
    assert!(matches!(parse_duration("5124095576030432h"), Err(DurationError::ExceedsWeek)));
    assert_eq!(parse_duration("18446744073709551615w").unwrap_err().message(), "Maximum duration is 1 week");
    assert_eq!(parse_duration("5m").unwrap(), 300);
}

#[test]
fn stats_durations_use_long_units() {
    let s = StatsArgs { last: "24hr".to_string() };
    assert_eq!(s.parse_duration(&s.last).unwrap(), 86400);
    assert_eq!(s.parse_duration("1day").unwrap(), 86400);
    assert_eq!(s.parse_duration("5h").unwrap_err().message(), "Invalid time unit: h. Supported units: min, hr, day, week");
    assert_eq!(s.parse_duration("2weeks").unwrap_err().message(), "Maximum duration is 1 week");
    assert!(matches!(s.parse_duration("307445734561825861min"), Err(DurationError::ExceedsWeek)));
}

#[test]
fn period_start_is_written_in_rfc3339() {
    assert_eq!(since_rfc3339(Some(100), 40).unwrap(), "1970-01-01T00:01:00+00:00");
    assert_eq!(since_rfc3339(Some(10), 40).unwrap_err(), "Invalid time calculation");
    assert_eq!(since_rfc3339(None, 1).unwrap_err(), "Invalid time calculation");
}

#[test]
fn budget_units_and_amounts() {
    assert_eq!(unit_and_amount("usd", 5).unwrap(), (FeeUnit::Credit, 500));
    assert_eq!(unit_and_amount("Strk", 5).unwrap(), (FeeUnit::Strk, 5));
    assert_eq!(unit_and_amount("eth", 5).unwrap_err(), "Invalid unit: eth. Supported units: USD, STRK");
    assert!(try_unit_and_amount("USD", u64::MAX).is_none());
    assert_eq!(try_unit_and_amount("STRK", u64::MAX).unwrap().unwrap(), (FeeUnit::Strk, -1));
}

#[test]
fn budget_reasons() {
    assert_eq!(parse_reason(&None).unwrap(), None);
    assert_eq!(parse_reason(&Some("refund".to_string())).unwrap(), Some(BudgetReason::Refund));
    assert_eq!(
        parse_reason(&Some("gift".to_string())).unwrap_err(),
        "Invalid reason: gift. Supported reasons: ADVANCE, SETTLEMENT, REFUND, PROMOTION, CORRECTION"
    );
}

#[test]
fn budget_requests_check_the_unit_first() {
    let cmd = BudgetCmd { command: BudgetSubcommand::Increase(IncreaseBudgetArgs {
        amount: 3, unit: "usd".to_string(), admin: true, reason: Some("Promotion".to_string()),
    }) };
    let q = cmd.request("pm").unwrap();
    assert_eq!(q.paymaster_name, "pm");
    assert!(q.increase);
    assert_eq!(q.amount, 300);
    assert_eq!(q.unit, FeeUnit::Credit);
    assert_eq!(q.reason, Some(BudgetReason::Promotion));
    let cmd = BudgetCmd { command: BudgetSubcommand::Decrease(DecreaseBudgetArgs {
        amount: 3, unit: "gbp".to_string(), admin: false, reason: Some("bad".to_string()),
    }) };
    assert_eq!(cmd.request("pm").unwrap_err(), "Invalid unit: gbp. Supported units: USD, STRK");
}

#[test]
fn paymaster_creation_units() {
    let a = CreateArgs { team: "t".to_string(), budget: 10, unit: "credit".to_string() };
    let q = a.request("pm").unwrap();
    assert_eq!((q.name.as_str(), q.team_name.as_str(), q.budget, q.unit), ("pm", "t", 10, FeeUnit::Credit));
    let a = CreateArgs { team: "t".to_string(), budget: 10, unit: "usd".to_string() };
    assert_eq!(a.request("pm").unwrap_err(), "Invalid unit: usd");
}

fn policy(c: &str, e: &str, tc: Option<&str>, te: Option<&str>) -> PolicyArgs {
    PolicyArgs {
        contract: c.to_string(),
        entrypoint: e.to_string(),
        trigger_contract: tc.map(|s| s.to_string()),
        trigger_entrypoint: te.map(|s| s.to_string()),
    }
}

#[test]
fn policy_table_without_triggers() {
    let t = policies_table(&vec![policy("0x1", "mint", None, None)]);
    assert_eq!(t.header, vec!["Contract Address", "Entry Point"]);
    assert_eq!(t.rows, vec![vec!["0x1".to_string(), "mint".to_string()]]);
}

#[test]
fn policy_table_with_triggers() {
    let t = policies_table(&vec![policy("0x1", "mint", None, None), policy("0x2", "burn", Some("0x3"), None)]);
    assert_eq!(t.header, vec!["Contract Address", "Entry Point", "Trigger Contract", "Trigger Entry Point"]);
    assert_eq!(t.rows[0], vec!["0x1", "mint", "-", "-"]);
    assert_eq!(t.rows[1], vec!["0x2", "burn", "0x3", "-"]);
}

#[test]
fn reported_policies_have_no_triggers() {
    let p = reported_policy_args(&vec![ReportedPolicy { contract_address: "0x1".to_string(), entry_point: "go".to_string() }]);
    assert_eq!(p.len(), 1);
    assert_eq!(p[0].contract, "0x1");
    assert!(p[0].trigger_contract.is_none());
}

#[test]
fn removal_needs_a_yes() {
    assert!(removal_confirmed("y\n"));
    assert!(removal_confirmed("  Y "));
    assert!(!removal_confirmed("yes"));
    assert!(!removal_confirmed(""));
}

#[test]
fn transaction_options() {
    assert_eq!(parse_filter(&Some("reverted".to_string())).unwrap(), Some(TransactionFilter::Reverted));
    assert_eq!(parse_filter(&None).unwrap(), None);
    assert_eq!(parse_filter(&Some("x".to_string())).unwrap_err(), "Invalid filter: x. Use SUCCESSFUL, REVERTED, or ALL");
    assert_eq!(parse_order(&None).unwrap(), TransactionOrder::ExecutedAtDesc);
    assert_eq!(parse_order(&Some("fees_asc".to_string())).unwrap(), TransactionOrder::FeesAsc);
    assert_eq!(
        parse_order(&Some("newest".to_string())).unwrap_err(),
        "Invalid order_by: newest. Use FEES_ASC, FEES_DESC, EXECUTED_AT_ASC, or EXECUTED_AT_DESC"
    );
}

#[test]
fn relative_times() {
    assert_eq!(relative_time_label(-1), "in the future");
    assert_eq!(relative_time_label(0), "0s ago");
    assert_eq!(relative_time_label(59), "59s ago");
    assert_eq!(relative_time_label(60), "1m ago");
    assert_eq!(relative_time_label(3599), "59m ago");
    assert_eq!(relative_time_label(3600), "1h ago");
    assert_eq!(relative_time_label(86399), "23h ago");
    assert_eq!(relative_time_label(86400), "1d ago");
    assert_eq!(relative_time_label(604799), "6d ago");
    assert_eq!(relative_time_label(1209600), "2w ago");
    assert_eq!(relative_time_text("not a date", None), "not a date");
    assert_eq!(relative_time_text("x", Some(120)), "2m ago");
}

#[test]
fn relative_time_of_texts() {
    assert_eq!(format_relative_time("yesterday-ish"), "yesterday-ish");
    let old = format_relative_time("2001-01-01T00:00:00Z");
    assert!(old.ends_with("w ago"), "{old}");
    assert_ne!(old, "2001-01-01T00:00:00Z");
}

#[test]
fn transaction_table() {
    assert!(transactions_table_lines(&vec![]).is_empty());
    let t = TransactionDisplay {
        transaction_hash: "0xabc".to_string(),
        executed_at: "5m ago".to_string(),
        status: "Success".to_string(),
        usd_fee: "$0.0100".to_string(),
    };
    let lines = transactions_table_lines(&vec![t]);
    assert_eq!(lines.len(), 3);
    assert_eq!(lines[0], format!("{:<66} {:<12} {:<12} {:<12}", "Transaction Hash", "Executed", "Status", "USD Fee"));
    assert_eq!(lines[1], "─".repeat(110));
    assert_eq!(lines[2], format!("{:<66} {:<12} {:<12} {:<12}", "0xabc", "5m ago", "Success", "$0.0100"));
    assert_eq!(format_table_line("a", "b", "c", "d").len(), 66 + 1 + 12 + 1 + 12 + 1 + 12);
}

#[test]
fn dune_addresses_are_padded_and_unique() {
    assert_eq!(format_dune_address("0x0x12"), format!("    0x{:0>64}", "12"));
    assert_eq!(format_dune_address("abc"), format!("    0x{:0>64}", "abc"));
    let a = query_addresses(&vec!["0x1".to_string(), "0x01".to_string(), "2".to_string(), "1".to_string()]);
    assert_eq!(a.len(), 2);
    assert!(a.contains(&format!("    0x{:0>64}", "1")));
    assert!(a.contains(&format!("    0x{:0>64}", "2")));
    let u = unique_addresses(&vec!["x".to_string(), "y".to_string(), "x".to_string()]);
    assert_eq!(u, vec!["x", "y"]);
}

#[test]
fn dune_query_is_filled() {
    let template = "SELECT * FROM t WHERE a IN ({contract_addresses}) AND t.block_time >= TIMESTAMP '{start_time}' {end_time_constraint}";
    let q = build_dune_query(template, &vec!["    0x1".to_string(), "    0x2".to_string()], "2024-01-02 03:04:05", true);
    assert_eq!(q, "SELECT * FROM t WHERE a IN (    0x1,\n    0x2) AND t.block_time >= TIMESTAMP '2024-01-02 03:04:05' AND t.block_time <= TIMESTAMP '{{end_time}}'");
    let q = build_dune_query("{end_time_constraint}|{start_time}", &vec![], "s", false);
    assert_eq!(q, "|s");
    assert_eq!(join_strings(&vec!["a".to_string(), "b".to_string()], ", "), "a, b");
    assert_eq!(format_dune_time("2024-01-02T03:04:05Z"), "2024-01-02 03:04:05");
    let d = DuneArgs { fast: true, exact: true, last: None, dune_params: false };
    assert_eq!(d.template_file(), "exact.sql");
}

#[test]
fn paymaster_info_parts() {
    assert_eq!(budget_unit_label(BudgetFeeUnit::Credit), "USD");
    assert_eq!(budget_unit_label(BudgetFeeUnit::Other), "UNKNOWN");
    let t = lifetime_transactions(10, 5, 2, 1);
    assert_eq!((t.total, t.successful, t.reverted), (18, 15, 3));
    assert!(has_outstanding_balance(0, 1));
    assert!(!has_outstanding_balance(0, 0));
}

#[test]
fn existing_policy_ids_skip_absent_nodes() {
    let ids = existing_policy_ids(&vec![Some(Some("a".to_string())), None, Some(None), Some(Some("b".to_string()))]);
    assert_eq!(ids, vec!["a", "b"]);
}

use slot_cli::paymaster::budget::{budget_unit_of, reason_of};
use slot_cli::paymaster::create::creation_unit_of;
use slot_cli::paymaster::transactions::{filter_of, order_of};

#[test]
fn upper_cased_names() {
    assert_eq!(budget_unit_of("USD"), Some(FeeUnit::Credit));
    assert_eq!(budget_unit_of("usd"), None);
    assert_eq!(reason_of("ADVANCE"), Some(BudgetReason::Advance));
    assert_eq!(reason_of("Advance"), None);
    assert_eq!(creation_unit_of("STRK"), Some(FeeUnit::Strk));
    assert_eq!(filter_of("ALL"), Some(TransactionFilter::All));
    assert_eq!(order_of("FEES_DESC"), Some(TransactionOrder::FeesDesc));
    assert_eq!(order_of("fees_desc"), None);
}

#[test]
fn budget_requests_that_overflow_are_flagged() {
    let cmd = BudgetCmd { command: BudgetSubcommand::Increase(IncreaseBudgetArgs {
        amount: u64::MAX / 10, unit: "UsD".to_string(), admin: false, reason: None,
    }) };
    assert!(cmd.try_request("pm").is_none());
    let cmd = BudgetCmd { command: BudgetSubcommand::Increase(IncreaseBudgetArgs {
        amount: 7, unit: "strk".to_string(), admin: false, reason: None,
    }) };
    let q = cmd.try_request("pm").unwrap().unwrap();
    assert_eq!((q.amount, q.unit, q.reason), (7, FeeUnit::Strk, None));
}

#[test]
fn look_back_from_now() {
    let t = slot_cli::paymaster::utils::look_back_start(60).unwrap();
    assert!(t.ends_with("+00:00") && t.len() == 25, "{t}");
}

#[test]
fn stats_periods_agree_with_the_shared_parser() {
    let s = StatsArgs { last: "24hr".to_string() };
    for p in ["24hr", "3MIN", "1day", "2days", "1week", "90minutes", "7hours"] {
        let stats = s.parse_duration(p).unwrap();
        assert_eq!(parse_duration(p).unwrap(), stats, "{p}");
        assert!(stats > 0 && stats <= 604800);
    }
}

#[test]
fn dune_start_time_prefers_placeholder_then_look_back_then_creation() {
    assert_eq!(dune_start_time(true, Some(Err("bad".to_string())), None), Ok(Some("{{start_time}}".to_string())));
    assert_eq!(
        dune_start_time(false, Some(Ok("2024-01-02T03:04:05+00:00".to_string())), Some("2023-01-01T00:00:00Z".to_string())),
        Ok(Some("2024-01-02 03:04:05+00:00".to_string()))
    );
    assert_eq!(dune_start_time(false, Some(Err("bad period".to_string())), None), Err("bad period".to_string()));
    assert_eq!(dune_start_time(false, None, Some("2023-01-01T00:00:00Z".to_string())), Ok(Some("2023-01-01 00:00:00".to_string())));
    assert_eq!(dune_start_time(false, None, None), Ok(None));
}

fn outcome(s: &str) -> Result<u64, String> {
    parse_duration(s).map_err(|e| e.message())
}

#[test]
fn periods_ignore_letter_case_and_spelling() {
    for (a, b) in [("1HR", "1hr"), ("24Hours", "24hours"), ("2MINUTES", "2m"), ("3D", "3days"), ("1W", "1week")] {
        assert_eq!(outcome(a), outcome(b), "{a} {b}");
        assert_eq!(outcome(&a.to_uppercase()), outcome(&a.to_lowercase()), "{a}");
    }
    assert_eq!(outcome("1HR"), Ok(3600));
    for spelling in ["h", "hr", "hrs", "hour", "hours", "H", "HRS", "Hour"] {
        assert_eq!(outcome(&format!("5{spelling}")), Ok(18000), "{spelling}");
    }
    assert_eq!(outcome("60s"), outcome("1m"));
    assert_eq!(outcome("24h"), outcome("1d"));
    assert_eq!(outcome("7d"), outcome("1w"));
    assert_eq!(parse_duration("2XY").unwrap_err().message(), "Invalid time unit: xy. Supported units: s, m, h, d, w");
}

#[test]
fn elapsed_time_is_taken_from_the_clock_reading() {
    let at: u128 = 1_704_067_200 + 90;
    assert_eq!(elapsed_since("2024-01-01T00:00:00Z", true, at * 1_000_000_000 + 700_000_000), Some(90));
    assert_eq!(elapsed_since("2024-01-01T00:01:00Z", true, at * 1_000_000_000), Some(30));
    assert_eq!(elapsed_since("2024-01-01T00:05:00Z", true, at * 1_000_000_000 + 500_000_000), Some(-209));
    assert_eq!(elapsed_since("not a date", true, at * 1_000_000_000), None);
    assert_eq!(elapsed_since("2024-01-01T00:00:00Z", false, 5), None);
    assert_eq!(elapsed_since("2024-01-01T00:00:00Z", true, 9_000_000_000_000u128 * 1_000_000_000), None);
}

#[test]
fn policy_update_steps() {
    let mut a = UpdateArgs { paymaster_id: "pm".to_string(), preset: "dopewars".to_string(), chain_id: "SN_MAIN".to_string(), replace: false };
    assert_eq!(a.first_step(0), UpdateStep::NoPolicies);
    assert_eq!(a.first_step(3), UpdateStep::Apply);
    a.replace = true;
    assert_eq!(a.first_step(0), UpdateStep::NoPolicies);
    assert_eq!(a.first_step(3), UpdateStep::RemoveExisting);
    assert!(!removal_needed(&vec![]));
    assert!(removal_needed(&vec!["p1".to_string()]));
    assert_eq!(applying_line(3), "Applying 3 paymaster policies from preset...");
    assert_eq!(updated_line(Some(12)), "Successfully updated paymaster with 12 policies from preset");
    assert_eq!(updated_line(None), "Successfully updated paymaster with 0 policies from preset");
}
