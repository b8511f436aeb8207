use slot_cli::deployments::logs::LogsArgs;
use slot_cli::deployments::services::Service;

#[test]
fn test_logs_args_structure() {
    let args = LogsArgs {
        project: "test-project".to_string(),
        service: Service::from_str("katana", true).unwrap(),
        limit: 100,
        follow: false,
        since: None,
        region: None,
        replica: None,
        container: None,
    };
    assert_eq!(args.project, "test-project");
    assert_eq!(args.service.to_string(), "katana");
    assert_eq!(args.limit, 100);
    assert!(!args.follow);
    assert_eq!(args.region, None);
    assert_eq!(args.replica, None);
    assert_eq!(args.container, None);

    let args = LogsArgs {
        project: "test-project".to_string(),
        service: Service::from_str("katana", true).unwrap(),
        limit: 50,
        follow: true,
        since: None,
        region: Some("us-east4".to_string()),
        replica: Some("torii-0".to_string()),
        container: Some("litestream".to_string()),
    };
    assert_eq!(args.project, "test-project");
    assert_eq!(args.service.to_string(), "katana");
    assert_eq!(args.limit, 50);
    assert!(args.follow);
    assert_eq!(args.region, Some("us-east4".to_string()));
    assert_eq!(args.replica, Some("torii-0".to_string()));
    assert_eq!(args.container, Some("litestream".to_string()));
}

use slot_cli::deployments::accounts::{account_report, accounts_report, AccountsArgs};
use slot_cli::deployments::delete::{DeleteArgs, Service as DeletedService};
use slot_cli::deployments::describe::{branch_text, is_deprecated};
use slot_cli::deployments::list::deployment_listing;
use slot_cli::deployments::logs::{first_follow_query, LogFollower, FOLLOW_FIRST_PAGE, FOLLOW_PAGE};
use slot_cli::deployments::services::KatanaAccountCommands;
use slot_cli::deployments::services::katana::KatanaAccountArgs;
use slot_cli::deployments::update::observability_lines;
use slot_cli::deployments::{config_display, config_file_warnings, cost_confirmation_prompt, lines_of, service_url_text, show_config_line, ConfigLine, Tier};
use slot_cli::json::JsonValue;

#[test]
fn services_read_their_names() {
    assert_eq!(Service::from_str("Torii", true).unwrap(), Service::Torii);
    assert!(Service::from_str("Torii", false).is_err());
    assert_eq!(Service::from_str("foo", true).unwrap_err(), "invalid variant: foo");
    for s in [Service::Katana, Service::Torii, Service::Saya] {
        assert_eq!(Service::from_str(&s.to_string(), false).unwrap(), s);
    }
}

#[test]
fn service_addresses() {
    assert_eq!(service_url_text("proj", "katana"), "https://api.cartridge.gg/x/proj/katana");
}

#[test]
fn paid_tiers_ask_first() {
    assert_eq!(cost_confirmation_prompt(Tier::Basic, false), None);
    assert_eq!(cost_confirmation_prompt(Tier::Epic, true), None);
    assert_eq!(
        cost_confirmation_prompt(Tier::Epic, false).unwrap(),
        "You are creating an of kind `Epic`, which will cost you around $15 per month (billed daily). Do you want to proceed?"
    );
    assert_eq!(Tier::Legendary.monthly_price(), "35");
}

#[test]
fn configuration_lines() {
    assert_eq!(lines_of("a\r\nb\n\nc"), vec!["a", "b", "", "c"]);
    assert_eq!(lines_of("x\n"), vec!["x"]);
    assert!(lines_of("").is_empty());
    assert_eq!(lines_of("x\r"), vec!["x\r"]);
    match show_config_line(" name = \"slot\" = x ") {
        Some(ConfigLine::KeyValue(k, v)) => {
            assert_eq!(k, "name");
            assert_eq!(v, "slot = x");
        }
        other => panic!("unexpected {other:?}"),
    }
    assert!(show_config_line("   ").is_none());
    let shown = config_display("[server]\nport = 8080\n\n# comment\n");
    assert_eq!(shown.len(), 3);
    assert!(matches!(&shown[0], ConfigLine::Header(h) if h == "[server]"));
    assert!(matches!(&shown[1], ConfigLine::KeyValue(k, v) if k == "port" && v == "8080"));
    assert!(matches!(&shown[2], ConfigLine::Other(l) if l == "# comment"));
    let shown = config_display("rpc = 1\n[server]\nport = 8080\n\n[sql]\npage_size = 3\n");
    assert_eq!(shown.len(), 6);
    assert!(matches!(&shown[0], ConfigLine::KeyValue(k, v) if k == "rpc" && v == "1"));
    assert!(matches!(&shown[1], ConfigLine::Header(h) if h == "[server]"));
    assert!(matches!(&shown[2], ConfigLine::KeyValue(k, _) if k == "port"));
    assert!(matches!(&shown[3], ConfigLine::Separator));
    assert!(matches!(&shown[4], ConfigLine::Header(h) if h == "[sql]"));
    assert!(matches!(&shown[5], ConfigLine::KeyValue(k, v) if k == "page_size" && v == "3"));
}

#[test]
fn configuration_warnings() {
    let w = config_file_warnings("db_dir = \"x\"\n[sql]\npage_size = 3\n[indexing]\nevents_chunk_size = 1\n");
    assert_eq!(w, vec![
        "⚠️  Warning: 'db_dir' option found in config file but is ignored. Slot is managing and persisting the database.",
        "⚠️  Warning: 'events_chunk_size' option found in config file but is ignored and overridden in slot.",
        "⚠️  Warning: '[sql]' section found in config file but is ignored and overridden in slot. Database configuration is managed by slot.",
        "⚠️  Warning: 'page_size' option found in config file but is ignored and overridden in slot.",
    ]);
    assert!(config_file_warnings("not = = toml").is_empty());
    assert!(config_file_warnings("rpc = 1\n").is_empty());
}

#[test]
fn followed_logs_are_printed_once() {
    let mut f = LogFollower::new("t0".to_string());
    assert_eq!(f.take_poll("a".to_string(), "t1".to_string()), Some("a".to_string()));
    assert_eq!(f.since(), "t1");
    assert_eq!(f.take_poll("a".to_string(), "t2".to_string()), None);
    assert_eq!(f.take_poll("b".to_string(), "t3".to_string()), Some("b".to_string()));
    assert_eq!(f.take_poll("a".to_string(), "t4".to_string()), None);
    assert_eq!(f.since(), "t4");
}

#[test]
fn deletion_prompt() {
    let d = DeleteArgs { project: "p".to_string(), service: DeletedService::Torii, force: false };
    assert_eq!(d.confirmation_prompt().unwrap(), "Please confirm to delete p Torii");
    let d = DeleteArgs { project: "p".to_string(), service: DeletedService::Torii, force: true };
    assert!(d.confirmation_prompt().is_none());
}

#[test]
fn description_parts() {
    assert_eq!(branch_text(&None), "Default");
    assert_eq!(branch_text(&Some("main".to_string())), "main");
    assert!(is_deprecated(Some(true)));
    assert!(!is_deprecated(None));
    assert_eq!(deployment_listing("p", "katana"), vec!["Project: p", "Service: katana", "---"]);
    assert!(observability_lines(&None).is_empty());
    assert_eq!(observability_lines(&Some("s3cr3t".to_string()))[0], "\nObservability Secret: s3cr3t");
}

fn obj(members: Vec<(&str, JsonValue)>) -> JsonValue {
    JsonValue::Object(members.into_iter().map(|(k, v)| (k.to_string(), v)).collect())
}

#[test]
fn katana_accounts() {
    let a = AccountsArgs { project: "p".to_string(), accounts_commands: KatanaAccountCommands::Katana(KatanaAccountArgs {}) };
    assert_eq!(a.rpc_url(), "https://api.cartridge.gg/x/p/katana");
    let acct = obj(vec![("address", JsonValue::String("0x1".to_string())), ("publicKey", JsonValue::String("0x2".to_string()))]);
    assert_eq!(account_report(&acct), vec!["| Account Address |  0x1", "| Public key      |  0x2", ""]);
    let acct2 = obj(vec![("privateKey", JsonValue::String("0x3".to_string()))]);
    let resp = obj(vec![("result", JsonValue::Array(vec![acct, acct2]))]);
    let lines = accounts_report(&resp);
    assert_eq!(lines.len(), 7);
    assert_eq!(lines[4], "| Private key     |  0x3");
    assert_eq!(lines[3], "| Account Address |  ");
    assert!(accounts_report(&obj(vec![])).is_empty());
}

#[test]
fn tiers_read_their_names() {
    assert_eq!(Tier::from_str("basic", true).unwrap(), Tier::Basic);
    assert_eq!(Tier::from_str("EPIC", true).unwrap(), Tier::Epic);
    assert!(Tier::from_str("EPIC", false).is_err());
    assert_eq!(Tier::from_str("insane", true).unwrap_err(), "invalid variant: insane");
    assert_eq!(Tier::Pro.to_string(), "Pro");
}

use slot_cli::deployments::create::CreateArgs as CreateDeploymentArgs;
use slot_cli::deployments::describe::DescribeArgs;
use slot_cli::deployments::services::CreateServiceCommands;
use slot_cli::deployments::services::torii::ToriiCreateArgs;

#[test]
fn deployment_lines() {
    let c = CreateDeploymentArgs {
        project: "game".to_string(),
        team: None,
        tier: Tier::Basic,
        regions: None,
        output_service_config: None,
        create_commands: CreateServiceCommands::Torii(ToriiCreateArgs { config: "torii.toml".to_string(), replicas: Some(1), version: None, replication: false }),
        force: false,
    };
    assert_eq!(c.deploying_line(), "Deploying https://api.cartridge.gg/x/game/torii ...");
    assert_eq!(c.logs_hint(), "\nStream logs with `slot deployments logs game torii -f`");
    let d = DescribeArgs { project: "game".to_string(), service: Service::Katana };
    assert_eq!(d.url_line("game"), "Url: https://api.cartridge.gg/x/game/katana");
}

#[test]
fn follow_asks_for_one_line_then_pages_of_twenty_five() {
    assert_eq!(first_follow_query(&None), (None, 1));
    assert_eq!(first_follow_query(&Some("t".to_string())), (Some("t".to_string()), FOLLOW_FIRST_PAGE));
    let mut f = LogFollower::new("t0".to_string());
    assert_eq!(f.next_query(), ("t0".to_string(), 25));
    f.take_poll("a".to_string(), "t1".to_string());
    assert_eq!(f.next_query(), ("t1".to_string(), FOLLOW_PAGE));
}
