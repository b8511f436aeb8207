use slot_cli::deployments::lines_of;
use slot_cli::merkle_drops::create::split_call_args;
use slot_cli::merkle_drops::snapshot::format_token_id;
use slot_cli::paymaster::info::BudgetFeeUnit;
use slot_cli::paymaster::transactions::format_table_line;
use slot_cli::paymasters::list::format_budget;
use slot_cli::text::{i64_to_string, str_contains, str_starts_with, u64_to_string};

#[test]
fn lines_split_as_str_lines_does() {
    for s in ["", "a", "a\n", "a\r\nb", "a\n\nb\n", "foo\r\nbar\n\nbaz\r", "\r\n", "x\ry\n", "\n\n"] {
        let expected: Vec<String> = s.lines().map(|l| l.to_string()).collect();
        assert_eq!(lines_of(s), expected, "{s:?}");
    }
}

#[test]
fn call_args_split_as_str_split_does() {
    for s in ["a,b", " a , b ", "", ",", "x,\u{3000}y\u{3000}"] {
        let expected: Vec<String> = s.split(',').map(|p| p.trim().to_string()).collect();
        assert_eq!(split_call_args(s), expected, "{s:?}");
    }
}

#[test]
fn numbers_are_written_as_format_does() {
    for n in [0u64, 7, 10, 99, 1000, u64::MAX] {
        assert_eq!(u64_to_string(n), n.to_string());
    }
    for i in [0i64, -1, 42, i64::MIN, i64::MAX] {
        assert_eq!(i64_to_string(i), i.to_string());
        assert_eq!(format_token_id(i), format!("0x{:x}", i));
    }
}

#[test]
fn table_lines_pad_as_format_does() {
    let hash = "0x".to_string() + &"f".repeat(70);
    assert_eq!(
        format_table_line(&hash, "3d ago", "Reverted", "$12.3456"),
        format!("{:<66} {:<12} {:<12} {:<12}", hash, "3d ago", "Reverted", "$12.3456")
    );
    assert_eq!(format_table_line("é", "", "", ""), format!("{:<66} {:<12} {:<12} {:<12}", "é", "", "", ""));
}

#[test]
fn listed_budgets_match_float_formatting() {
    for budget in [0i64, 1_000_000, 123_456_789, -987_654_321, 5_000_000_000_000, i64::MAX, i64::MIN] {
        let whole = budget / 1_000_000;
        assert_eq!(format_budget(BudgetFeeUnit::Credit, budget), format!("${:.2} USD", whole as f64 * 0.01));
        assert_eq!(format_budget(BudgetFeeUnit::Strk, budget), format!("{} STRK", whole));
    }
}

#[test]
fn searching_text() {
    assert!(str_contains("hello world", "o w"));
    assert!(!str_contains("hello", "hello!"));
    assert!(str_starts_with("0xabc", "0x"));
    assert!(!str_starts_with("x", "0x"));
}
