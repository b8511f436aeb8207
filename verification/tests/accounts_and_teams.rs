use slot_cli::auth::info::{format_usd, no_teams_line, team_credits};
use slot_cli::auth::login::{callback_outcome, callback_uri_text, login_url_text, manual_input_step, AuthResult};
use slot_cli::auth::session::{parse_policy_method, policy_from_parts, PolicyParseError};
use slot_cli::auth::transfer::{TransferArgs, TransferBalances};
use slot_cli::paymaster::info::BudgetFeeUnit;
use slot_cli::paymasters::list::{format_budget, paymaster_row, PaymasterLine};
use slot_cli::rpc::logs::{clamp_limit, log_row_cells, RpcLogLine};
use slot_cli::rpc::tokens::{key_row_cells, ApiKeyLine};
use slot_cli::rpc::whitelist::AddArgs;
use slot_cli::teams::balance::{balance_title, format_strk};
use slot_cli::teams::delete::deletion_report;
use slot_cli::teams::invoices::{incubator_stage_text, invoice_table_title};
use slot_cli::teams::list::team_listing;
use slot_cli::teams::members::error_lines;

#[test]
fn usd_has_two_decimals() {
    assert_eq!(format_usd(102), "$1.02");
    assert_eq!(format_usd(0), "$0.00");
    assert_eq!(format_usd(-5), "$-0.05");
    assert_eq!(format_usd(123456), "$1234.56");
    assert_eq!(format_usd(i64::MIN), "$-92233720368547758.08");
}

#[test]
fn usd_matches_float_formatting_on_ordinary_amounts() {
    for c in [-100001i64, -7, 0, 1, 99, 100, 105, 12345, 987654321] {
        assert_eq!(format_usd(c), format!("${:.2}", c as f64 / 100f64));
    }
}

#[test]
fn strk_has_six_decimals() {
    assert_eq!(format_strk(1_500_000), "1.500000");
    assert_eq!(format_strk(-1), "-0.000001");
    assert_eq!(format_strk(0), "0.000000");
    for v in [-3_000_001i64, 42, 1_000_000_000] {
        assert_eq!(format_strk(v), format!("{:.6}", v as f64 / 1e6));
    }
}

#[test]
fn team_credits_drop_the_fraction() {
    assert_eq!(team_credits(2_999_999), 2);
    assert_eq!(team_credits(-2_999_999), -2);
    assert_eq!(team_credits(i64::MIN), -9223372036854);
}

#[test]
fn login_addresses() {
    let cb = callback_uri_text(8080);
    assert_eq!(cb, "http://localhost:8080/callback");
    assert_eq!(login_url_text("https://x.cartridge.gg", &cb), "https://x.cartridge.gg/slot?callback_uri=http://localhost:8080/callback");
}

#[test]
fn callback_outcomes() {
    let (r, url) = callback_outcome(Some("abc".to_string()), "https://k");
    assert_eq!(r, AuthResult::Success("abc".to_string()));
    assert_eq!(url, "https://k/success");
    let (r, url) = callback_outcome(None, "https://k");
    assert_eq!(r, AuthResult::Failure("User denied consent".to_string()));
    assert_eq!(url, "https://k/failure");
}

#[test]
fn manual_code_entry() {
    assert_eq!(manual_input_step(Ok("  code-1 \n".to_string())), Some(AuthResult::Success("code-1".to_string())));
    assert_eq!(manual_input_step(Ok("\n".to_string())), None);
    assert_eq!(manual_input_step(Err("broken pipe".to_string())), Some(AuthResult::Failure("broken pipe".to_string())));
}

#[test]
fn session_policies() {
    let p = parse_policy_method("0x10,transfer").unwrap();
    let mut expected = vec![0u8; 32];
    expected[31] = 16;
    assert_eq!(p.target, expected);
    assert_eq!(p.method, "transfer");
    let p = parse_policy_method("17,approve").unwrap();
    expected[31] = 17;
    assert_eq!(p.target, expected);
    assert!(matches!(parse_policy_method("0x1"), Err(PolicyParseError::MissingMethod)));
    assert_eq!(parse_policy_method("0x1,a,b").unwrap_err().message(), "Condition failed: `parts.next().is_none()`");
    let big = "115792089237316195423570985008687907853269984665640564039457584007913129639939";
    assert_eq!(parse_policy_method(&format!("00{big},m")).unwrap_err().message(), "failed to create Felt from string: invalid dec string");
    assert_eq!(parse_policy_method(&format!("-{big},m")).unwrap_err().message(), "failed to create Felt from string: invalid dec string");
    assert!(parse_policy_method("115792089237316195423570985008687907853269984665640564039457584007913129639935,m").is_ok());
    assert!(!slot_cli::auth::session::felt_target_overflows(&format!("0x{big}")));
    match parse_policy_method("zz,a") {
        Err(PolicyParseError::InvalidTarget(m)) => assert!(m.starts_with("failed to create Felt from string"), "{m}"),
        other => panic!("unexpected {other:?}"),
    }
    let parts = vec!["1".chars().collect::<Vec<char>>(), "m".chars().collect()];
    assert_eq!(policy_from_parts(Ok(vec![1]), &parts).unwrap().method, "m");
    assert!(matches!(policy_from_parts(Err("bad".to_string()), &parts), Err(PolicyParseError::InvalidTarget(_))));
}

#[test]
fn transfer_report() {
    let t = TransferArgs { team: "team-a".to_string(), amount: 5 };
    let lines = t.report(&TransferBalances { account_before: 10, account_after: 5, team_before: -1, team_after: 4 });
    assert_eq!(lines, vec!["Transferred $5 to team-a", "User balance: $10 -> $5", "Team balance: $-1 -> $4"]);
}

#[test]
fn paymaster_budgets_in_listing() {
    assert_eq!(format_budget(BudgetFeeUnit::Credit, 123_456_789), "$1.23 USD");
    assert_eq!(format_budget(BudgetFeeUnit::Strk, 5_999_999), "5 STRK");
    assert_eq!(format_budget(BudgetFeeUnit::Other, -5_999_999), "-5 UNKNOWN");
    let row = paymaster_row(&PaymasterLine { name: "pm".to_string(), team: "t".to_string(), unit: BudgetFeeUnit::Strk, budget: 0, active: true });
    assert_eq!(row, vec!["pm", "t", "0 STRK", "true"]);
}

#[test]
fn rpc_log_limits() {
    assert_eq!(clamp_limit(10), (10, None));
    assert_eq!(clamp_limit(51), (50, Some("Warning: Limit exceeds maximum of 50. Using 50 instead.")));
    assert_eq!(clamp_limit(0), (1, Some("Warning: Limit must be at least 1. Using 1 instead.")));
}

#[test]
fn rpc_rows() {
    let l = RpcLogLine {
        timestamp: "t".to_string(), network: "Mainnet".to_string(), method: None,
        response_status: "200".to_string(), duration_ms: "3".to_string(), response_size_bytes: "10".to_string(),
        cost_credits: "1".to_string(), api_key_id: Some("k".to_string()), cors_domain_id: None, client_ip: "1.2.3.4".to_string(),
    };
    assert_eq!(log_row_cells(&l), vec!["t", "Mainnet", "-", "200", "3", "10", "1", "k", "-", "1.2.3.4"]);
    let k = ApiKeyLine { id: "1".to_string(), name: "n".to_string(), key_prefix: "p".to_string(), active: false, created_at: "c".to_string(), last_used_at: None };
    assert_eq!(key_row_cells(&k), vec!["1", "n", "p", "✗", "c", "-"]);
    let q = AddArgs { origin: "https://a.b".to_string(), team: "t".to_string() }.request();
    assert_eq!((q.team_name.as_str(), q.domain.as_str(), q.rate_limit_per_minute), ("t", "https://a.b", Some(60)));
}

#[test]
fn team_texts() {
    assert_eq!(balance_title("core"), "Balance for team `core`");
    assert_eq!(deletion_report("core", true), "Team 'core' deleted successfully");
    assert_eq!(deletion_report("core", false), "Failed to delete team 'core'");
    assert_eq!(invoice_table_title("core", "2024-05", "2024-05"), "Invoices for team `core` (Current Month)");
    assert_eq!(invoice_table_title("core", "2024-04", "2024-05"), "Invoices for team `core`");
    assert_eq!(incubator_stage_text(&None), "None");
    assert_eq!(team_listing(&vec![Some("a".to_string()), None, Some("b".to_string())]), vec!["  a", "  b"]);
    assert_eq!(error_lines(&vec!["boom".to_string()]), vec!["Error: boom"]);
}

use slot_cli::auth::info::{account_credits_text, team_credits_text, team_deployment_lines, TeamDeployment};
use slot_cli::rpc::logs::{log_start_text, LogsArgs};

#[test]
fn account_report_lines() {
    assert_eq!(account_credits_text(250), "Credits: 250 ($2.50)");
    assert_eq!(team_credits_text(1_234_000_000), "  Credits: 1234 ($12.34)");
    let deps = vec![
        TeamDeployment { status: "active".to_string(), project: "p".to_string(), service_id: "katana".to_string() },
        TeamDeployment { status: "deleted".to_string(), project: "q".to_string(), service_id: "torii".to_string() },
    ];
    assert_eq!(team_deployment_lines(&deps), vec!["    Deployment: p/katana"]);
    assert_eq!(team_deployment_lines(&vec![]), vec!["    No deployments yet"]);
}

#[test]
fn rpc_log_time_bounds() {
    let mut args = LogsArgs { team: "t".to_string(), limit: 10, after: None, since: None };
    assert_eq!(args.timestamp_bound(), Ok(None));
    args.since = Some("5x".to_string());
    assert_eq!(args.timestamp_bound().unwrap_err(), "Invalid time unit: x. Supported units: s, m, h, d, w");
    args.since = Some("5m".to_string());
    let t = args.timestamp_bound().unwrap().unwrap();
    assert!(t.ends_with('Z') && t.contains('.'), "{t}");
    args.since = Some("99999999999999999w".to_string());
    assert_eq!(args.timestamp_bound().unwrap_err(), "Maximum duration is 1 week");
    args.since = Some("99999999999999999d".to_string());
    assert_eq!(args.timestamp_bound().unwrap_err(), "Duration exceeds maximum of 1 week");
    assert_eq!(log_start_text(60_000_000_000, 60).unwrap(), "1970-01-01T00:00:00.000Z");
    assert_eq!(log_start_text(1_500_999_999, 1).unwrap(), "1970-01-01T00:00:00.500Z");
    assert_eq!(log_start_text(-1, 0).unwrap(), "1969-12-31T23:59:59.999Z");
    assert_eq!(log_start_text(i128::MIN, 5).unwrap_err(), "Time calculation overflow");
}

use slot_cli::rpc::logs::pagination_hint;

#[test]
fn rpc_pagination_hint() {
    assert_eq!(pagination_hint(true, &Some("c1".to_string())).unwrap(), "\nMore logs available. Use --after c1 to see next page");
    assert!(pagination_hint(false, &Some("c1".to_string())).is_none());
    assert!(pagination_hint(true, &None).is_none());
}

#[test]
fn accounts_without_teams_say_so() {
    assert_eq!(no_teams_line(0), Some("  No teams yet".to_string()));
    assert_eq!(no_teams_line(2), None);
}
