use slot_cli::json::JsonValue;
use slot_cli::merkle_drops::create::{
    claims_from_data, convert_to_claims, data_entries, is_missing_mutation_error, pairs_to_entries,
    split_call_args, validate_merkle_data, EntryFault, MerkleDataError,
};
use slot_cli::merkle_drops::process::{
    reward_token_count, try_calculate_rewards, try_total_tokens_distributed, ProcessArgs, ProcessError,
    RewardsConfig, SnapshotData,
};
use slot_cli::merkle_drops::snapshot::{
    format_token_id, is_evm_token_not_found_error, is_sn_token_not_found_error, should_report_progress,
    sort_ids, text_less, token_range, HolderIndex, NetworkType, OwnerQuery,
};

fn args() -> ProcessArgs {
    ProcessArgs {
        name: "drop".to_string(),
        description: "a drop".to_string(),
        claim_contract: "0xclaim".to_string(),
        entrypoint: "claim".to_string(),
        snapshots: vec!["a.json".to_string()],
        rewards_config: "rewards.json".to_string(),
        output: "out.json".to_string(),
    }
}

fn snap(network: &str, contract: &str, holders: &[(&str, &[&str])]) -> SnapshotData {
    SnapshotData {
        network: network.to_string(),
        contract_address: contract.to_string(),
        snapshot: holders
            .iter()
            .map(|(h, ids)| (h.to_string(), ids.iter().map(|i| i.to_string()).collect()))
            .collect(),
    }
}

fn config(entries: &[(&str, &[u64])]) -> RewardsConfig {
    RewardsConfig { contracts: entries.iter().map(|(c, r)| (c.to_string(), r.to_vec())).collect() }
}

fn reward_of(rows: &[(String, Vec<i64>)], holder: &str) -> Option<Vec<i64>> {
    rows.iter().find(|(h, _)| h == holder).map(|(_, v)| v.clone())
}

#[test]
fn rewards_are_tokens_held_times_amount_summed_over_snapshots() {
    let cfg = config(&[("0xa", &[10, 1]), ("0xb", &[5, 2])]);
    let snaps = vec![
        snap("Starknet", "0xa", &[("alice", &["0x1", "0x2"]), ("bob", &["0x3"])]),
        snap("Starknet", "0xb", &[("alice", &["0x9"]), ("carol", &[])]),
    ];
    let rows = try_calculate_rewards(&snaps, &cfg).unwrap();
    assert_eq!(rows.len(), 2);
    assert_eq!(reward_of(&rows, "alice"), Some(vec![25, 4]));
    assert_eq!(reward_of(&rows, "bob"), Some(vec![10, 1]));
    assert_eq!(reward_of(&rows, "carol"), None);
}

#[test]
fn unconfigured_contracts_earn_nothing() {
    let cfg = config(&[("0xa", &[3])]);
    let snaps = vec![snap("Starknet", "0xz", &[("alice", &["0x1"])])];
    let rows = try_calculate_rewards(&snaps, &cfg).unwrap();
    assert!(rows.is_empty());
}

#[test]
fn reward_order_of_snapshots_does_not_matter() {
    let cfg = config(&[("0xa", &[2]), ("0xb", &[7])]);
    let s1 = snap("Starknet", "0xa", &[("alice", &["0x1"]), ("bob", &["0x2", "0x3"])]);
    let s2 = snap("Starknet", "0xb", &[("bob", &["0x4"]), ("dan", &["0x5"])]);
    let r1 = try_calculate_rewards(&vec![s1, s2], &cfg).unwrap();
    let s1 = snap("Starknet", "0xa", &[("alice", &["0x1"]), ("bob", &["0x2", "0x3"])]);
    let s2 = snap("Starknet", "0xb", &[("bob", &["0x4"]), ("dan", &["0x5"])]);
    let r2 = try_calculate_rewards(&vec![s2, s1], &cfg).unwrap();
    for h in ["alice", "bob", "dan"] {
        assert_eq!(reward_of(&r1, h), reward_of(&r2, h));
    }
    assert_eq!(reward_of(&r1, "bob"), Some(vec![11]));
}

#[test]
fn rewards_that_overflow_are_reported() {
    let cfg = config(&[("0xa", &[u64::MAX])]);
    let snaps = vec![snap("Starknet", "0xa", &[("alice", &["0x1", "0x2"])])];
    assert!(try_calculate_rewards(&snaps, &cfg).is_none());
}

#[test]
fn token_count_mismatch_is_an_error() {
    let cfg = config(&[("0xa", &[1, 2]), ("0xb", &[1])]);
    match reward_token_count(&cfg) {
        Err(e) => {
            assert!(matches!(e, ProcessError::TokenCountMismatch { found: 1, expected_count: 2, .. }));
            assert_eq!(e.message(), "All contracts must have the same number of reward tokens. Contract 0xb has 1 tokens, expected 2");
        }
        Ok(_) => panic!("expected a mismatch"),
    }
    assert_eq!(reward_token_count(&config(&[])).unwrap(), 1);
    assert_eq!(reward_token_count(&config(&[("0xa", &[4, 5, 6])])).unwrap(), 3);
}

#[test]
fn network_consistency() {
    let a = args();
    let e = a.validate_network_consistency(&vec![]).unwrap_err();
    assert_eq!(e.message(), "No snapshots provided");
    let snaps = vec![snap("Starknet", "0xa", &[]), snap("Ethereum", "0xb", &[])];
    let e = a.validate_network_consistency(&snaps).unwrap_err();
    assert_eq!(e.message(), "Network mismatch: snapshot for contract 0xb is on network 'Ethereum', expected 'Starknet'");
    let snaps = vec![snap("Starknet", "0xa", &[]), snap("Starknet", "0xb", &[])];
    assert!(a.validate_network_consistency(&snaps).is_ok());
}

#[test]
fn process_reports_no_holders() {
    let cfg = config(&[("0xa", &[1])]);
    let snaps = vec![snap("Starknet", "0xa", &[("alice", &[])])];
    let r = args().try_process(&cfg, &snaps).unwrap();
    let e = r.unwrap_err();
    assert_eq!(e.message(), "No holders found with rewards");
}

#[test]
fn process_builds_the_drop() {
    let cfg = config(&[("0xa", &[1, 100])]);
    let snaps = vec![snap("Starknet", "0xa", &[("alice", &["0x1", "0x2", "0x3"])])];
    let d = args().try_process(&cfg, &snaps).unwrap().unwrap();
    assert_eq!(d.name, "drop");
    assert_eq!(d.network, "Starknet");
    assert_eq!(d.claim_contract, "0xclaim");
    assert_eq!(d.snapshot, vec![("alice".to_string(), vec![3, 300])]);
}

#[test]
fn totals_per_token() {
    let rows = vec![("a".to_string(), vec![1, 2]), ("b".to_string(), vec![10, 20])];
    assert_eq!(try_total_tokens_distributed(&rows, 2), Some(vec![11, 22]));
    let rows = vec![("a".to_string(), vec![i64::MAX]), ("b".to_string(), vec![i64::MAX]), ("c".to_string(), vec![2])];
    assert_eq!(try_total_tokens_distributed(&rows, 1), None);
}

#[test]
fn token_ids_are_written_in_hex() {
    assert_eq!(format_token_id(255), "0xff");
    assert_eq!(format_token_id(0), "0x0");
    assert_eq!(format_token_id(-1), "0xffffffffffffffff");
}

#[test]
fn ids_are_sorted() {
    assert_eq!(sort_ids(&vec![5, -1, 3, 3, 0]), vec![-1, 0, 3, 3, 5]);
    assert_eq!(sort_ids(&vec![]), Vec::<i64>::new());
}

#[test]
fn text_order_is_lexicographic() {
    let c = |s: &str| s.chars().collect::<Vec<char>>();
    assert!(text_less(&c("0xa"), &c("0xb")));
    assert!(text_less(&c("0x1"), &c("0x10")));
    assert!(!text_less(&c("b"), &c("ab")));
    assert!(!text_less(&c("x"), &c("x")));
}

#[test]
fn snapshot_rows_are_sorted_and_grouped() {
    let mut index = HolderIndex::new();
    let w = index.take_query(NetworkType::Starknet, 7, OwnerQuery::Owner("0xb".to_string()));
    assert!(w.is_none());
    index.take_query(NetworkType::Starknet, 2, OwnerQuery::Owner("0xa".to_string()));
    index.take_query(NetworkType::Starknet, 3, OwnerQuery::Owner("0xb".to_string()));
    index.take_query(NetworkType::Starknet, 16, OwnerQuery::NoOwner);
    assert_eq!(index.len(), 2);
    let rows = index.snapshot_rows();
    assert_eq!(rows, vec![
        ("0xa".to_string(), vec!["0x2".to_string()]),
        ("0xb".to_string(), vec!["0x3".to_string(), "0x7".to_string()]),
    ]);
}

#[test]
fn snapshot_rows_do_not_depend_on_arrival_order() {
    let answers = [(1u64, "0xc"), (2, "0xa"), (3, "0xc"), (4, "0xb"), (5, "0xa")];
    let mut forward = HolderIndex::new();
    for (id, o) in answers.iter() {
        forward.record(o.to_string(), *id);
    }
    let mut backward = HolderIndex::new();
    for (id, o) in answers.iter().rev() {
        backward.record(o.to_string(), *id);
    }
    assert_eq!(forward.snapshot_rows(), backward.snapshot_rows());
}

#[test]
fn failed_queries_warn_unless_the_token_is_missing() {
    let mut index = HolderIndex::new();
    let w = index.take_query(NetworkType::Ethereum, 9, OwnerQuery::Failed {
        detail: "execution reverted: ERC721: owner query for NONEXISTENT token".to_string(),
        shown: "reverted".to_string(),
    });
    assert!(w.is_none());
    let w = index.take_query(NetworkType::Starknet, 9, OwnerQuery::Failed {
        detail: "timeout".to_string(),
        shown: "request timed out".to_string(),
    });
    assert_eq!(w, Some("Warning: Error querying token 9: request timed out".to_string()));
    assert_eq!(index.len(), 0);
}

#[test]
fn not_found_texts() {
    assert!(is_evm_token_not_found_error("ERC721: invalid token ID"));
    assert!(is_evm_token_not_found_error("Token Does Not Exist"));
    assert!(!is_evm_token_not_found_error("connection refused"));
    assert!(is_sn_token_not_found_error("ContractError { revert_error: \"ERC721: invalid token ID\" }"));
    assert!(!is_sn_token_not_found_error("invalid token"));
}

#[test]
fn progress_is_reported_at_milestones() {
    assert!(should_report_progress(1, 50));
    assert!(should_report_progress(100, 500));
    assert!(should_report_progress(37, 37));
    assert!(!should_report_progress(37, 38));
}

#[test]
fn token_ranges_are_inclusive() {
    assert_eq!(token_range(3, 6), vec![3, 4, 5, 6]);
    assert_eq!(token_range(5, 5), vec![5]);
    assert!(token_range(6, 5).is_empty());
    assert_eq!(token_range(u64::MAX - 1, u64::MAX), vec![u64::MAX - 1, u64::MAX]);
}

#[test]
fn network_names() {
    assert_eq!(NetworkType::Starknet.to_string(), "Starknet");
    assert_eq!(NetworkType::Base.to_string(), "Base");
    assert!(NetworkType::Arbitrum.is_evm());
    assert!(!NetworkType::Starknet.is_evm());
}

fn s(t: &str) -> JsonValue {
    JsonValue::String(t.to_string())
}

fn arr(v: Vec<JsonValue>) -> JsonValue {
    JsonValue::Array(v)
}

#[test]
fn merkle_data_errors_name_the_first_bad_entry() {
    let good = arr(vec![s("0x1"), arr(vec![JsonValue::PosInt(1)])]);
    let data = vec![good, JsonValue::Null];
    let e = validate_merkle_data(&data).unwrap_err();
    assert_eq!(e, MerkleDataError { index: 1, fault: EntryFault::NotArray });
    assert_eq!(e.message(), "Entry 1 must be an array");
    let e = validate_merkle_data(&vec![arr(vec![s("0x1")])]).unwrap_err();
    assert_eq!(e.message(), "Entry 0 must have exactly 2 elements: [address, token_ids]");
    let e = validate_merkle_data(&vec![arr(vec![JsonValue::Bool(true), arr(vec![])])]).unwrap_err();
    assert_eq!(e.message(), "Entry 0 first element must be a string address");
    let e = validate_merkle_data(&vec![arr(vec![s("0x1"), s("0x2")])]).unwrap_err();
    assert_eq!(e.message(), "Entry 0 second element must be an array");
    assert!(validate_merkle_data(&vec![]).is_ok());
}

#[test]
fn claims_take_integer_ids_and_zero_for_others() {
    let data = vec![arr(vec![s("0xabc"), arr(vec![JsonValue::PosInt(5), JsonValue::NegInt(-2), JsonValue::Float, s("7"), JsonValue::PosInt(u64::MAX)])])];
    let claims = convert_to_claims(&data);
    assert_eq!(claims.len(), 1);
    assert_eq!(claims[0].address, "0xabc");
    assert_eq!(claims[0].token_ids, vec![5, -2, 0, 0, 0]);
    let c = claims_from_data(&data).unwrap();
    assert_eq!(c[0].token_ids, vec![5, -2, 0, 0, 0]);
    assert!(claims_from_data(&vec![JsonValue::Null]).is_err());
}

#[test]
fn data_files_must_hold_an_array() {
    assert_eq!(data_entries(JsonValue::Null).unwrap_err(), "Data file must contain a JSON array");
    assert_eq!(data_entries(arr(vec![JsonValue::Null])).unwrap().len(), 1);
}

#[test]
fn json_pairs_become_entries() {
    let e = pairs_to_entries(vec![(s("0x1"), arr(vec![])), (s("0x2"), JsonValue::Null)]);
    assert_eq!(e.len(), 2);
    assert!(validate_merkle_data(&e).is_err());
    match &e[1] {
        JsonValue::Array(items) => assert!(matches!(items[1], JsonValue::Null)),
        _ => panic!("expected an array"),
    }
}

#[test]
fn call_args_are_split_and_trimmed() {
    assert_eq!(split_call_args(" a, b ,c"), vec!["a", "b", "c"]);
    assert_eq!(split_call_args("x"), vec!["x"]);
    assert_eq!(split_call_args("a,,b"), vec!["a", "", "b"]);
}

#[test]
fn missing_mutation_is_recognized() {
    assert!(is_missing_mutation_error("Unknown field \"createMerkleDrop\""));
    assert!(!is_missing_mutation_error("network error"));
    assert!(is_missing_mutation_error("no field named createMerkledrop"));
    assert!(is_missing_mutation_error("Cannot query field \"createMerkleDrop\" on type \"Mutation\""));
    assert!(is_missing_mutation_error("createmerkledrop"));
    assert!(!is_missing_mutation_error("merkle drop already exists"));
}

use slot_cli::merkle_drops::create::{names_missing_mutation, CreateFromParamsArgs};
use slot_cli::merkle_drops::snapshot::{evm_text_says_missing, starknet_text_says_missing};

#[test]
fn lower_cased_error_texts() {
    assert!(evm_text_says_missing("nonexistent token"));
    assert!(!evm_text_says_missing("NONEXISTENT TOKEN"));
    assert!(starknet_text_says_missing("x invalid token id y"));
    assert!(names_missing_mutation("unknown field"));
    assert!(!names_missing_mutation("Unknown field"));
    assert!(names_missing_mutation("no field named createmerkledrop"));
    assert!(!names_missing_mutation("createMerkledrop"));
}

#[test]
fn params_make_the_drop_configuration() {
    let p = CreateFromParamsArgs {
        key: "k".to_string(),
        description: None,
        network: "SN_MAIN".to_string(),
        contract: "0x1".to_string(),
        entrypoint: "claim".to_string(),
        args: Some("a, b".to_string()),
        data_file: "d.json".to_string(),
    };
    let c = p.config();
    assert_eq!(c.network, "SN_MAIN");
    assert_eq!(c.args, Some(vec!["a".to_string(), "b".to_string()]));
    assert!(c.description.is_none());
}

#[test]
fn any_order_of_three_snapshots_and_of_holders_gives_the_same_rewards() {
    let cfg = config(&[("0xa", &[2, 1]), ("0xb", &[7, 0]), ("0xc", &[1, 3])]);
    let a = || snap("Starknet", "0xa", &[("alice", &["0x1"]), ("bob", &["0x2", "0x3"])]);
    let b = || snap("Starknet", "0xb", &[("bob", &["0x4"]), ("dan", &["0x5"])]);
    let c = || snap("Starknet", "0xc", &[("dan", &["0x6", "0x7"]), ("alice", &["0x8"])]);
    let base = try_calculate_rewards(&vec![a(), b(), c()], &cfg).unwrap();
    let orders = vec![vec![c(), a(), b()], vec![b(), c(), a()], vec![c(), b(), a()]];
    for snaps in orders {
        let rows = try_calculate_rewards(&snaps, &cfg).unwrap();
        assert_eq!(rows.len(), base.len());
        for h in ["alice", "bob", "dan"] {
            assert_eq!(reward_of(&rows, h), reward_of(&base, h));
        }
    }
    assert_eq!(reward_of(&base, "alice"), Some(vec![3, 4]));
    assert_eq!(reward_of(&base, "dan"), Some(vec![9, 6]));
    let swapped = vec![
        snap("Starknet", "0xa", &[("bob", &["0x2", "0x3"]), ("alice", &["0x1"])]),
        b(),
        snap("Starknet", "0xc", &[("alice", &["0x8"]), ("dan", &["0x6", "0x7"])]),
    ];
    let rows = try_calculate_rewards(&swapped, &cfg).unwrap();
    for h in ["alice", "bob", "dan"] {
        assert_eq!(reward_of(&rows, h), reward_of(&base, h));
    }
}

#[test]
fn unconfigured_snapshots_anywhere_change_nothing() {
    let cfg = config(&[("0xa", &[4])]);
    let kept = || snap("Starknet", "0xa", &[("alice", &["0x1"]), ("bob", &["0x2"])]);
    let other = || snap("Starknet", "0xz", &[("alice", &["0x9", "0x10"]), ("carol", &["0x3"])]);
    let only = try_calculate_rewards(&vec![kept()], &cfg).unwrap();
    for snaps in [vec![other(), kept()], vec![kept(), other()], vec![other(), kept(), other()]] {
        let rows = try_calculate_rewards(&snaps, &cfg).unwrap();
        assert_eq!(rows.len(), only.len());
        for h in ["alice", "bob", "carol"] {
            assert_eq!(reward_of(&rows, h), reward_of(&only, h));
        }
    }
    assert_eq!(reward_of(&only, "alice"), Some(vec![4]));
    assert_eq!(reward_of(&only, "carol"), None);
}
