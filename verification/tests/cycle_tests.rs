use honeysnare::config::ChainConfig;
use honeysnare::orchestrator::{
    logs_request, presence_request, run_cycle, ChainStatus, CodeAnswer, LogsAnswer,
};
use honeysnare::record::RawLogEntry;
use honeysnare::store::LogStore;

fn config(chain: &str, address: Option<&str>, enabled: bool) -> ChainConfig {
    ChainConfig {
        chain: chain.to_string(),
        rpc_url_env: "X_RPC_URL".to_string(),
        honeypot_address: address.map(|s| s.to_string()),
        enabled,
    }
}

fn good_raw(tx: &str) -> RawLogEntry {
    RawLogEntry {
        tx_hash: Some(tx.to_string()),
        topics: Some(vec![Some("0xsig".to_string()), Some("0xbad".to_string())]),
        data: Some("0x01".to_string()),
    }
}

#[test]
fn inert_chain_gets_no_requests() {
    let disabled = config("optimism", Some("0x1"), false);
    let unconfigured = config("base", None, true);
    assert!(presence_request(&disabled).is_none());
    assert!(presence_request(&unconfigured).is_none());
    assert!(logs_request(&disabled, &CodeAnswer::Code("0x6001".to_string())).is_none());
    assert!(logs_request(&unconfigured, &CodeAnswer::Code("0x6001".to_string())).is_none());
}

#[test]
fn undeployed_code_gets_no_logs_request() {
    let c = config("arbitrum", Some("0xf693"), true);
    assert!(presence_request(&c).is_some());
    assert!(logs_request(&c, &CodeAnswer::Code("0x".to_string())).is_none());
    assert!(logs_request(&c, &CodeAnswer::Code("0x0".to_string())).is_none());
    assert!(logs_request(&c, &CodeAnswer::Code(String::new())).is_none());
    assert!(logs_request(&c, &CodeAnswer::Transport("timeout".to_string())).is_none());
    assert!(logs_request(&c, &CodeAnswer::NotAsked).is_none());
    assert!(logs_request(&c, &CodeAnswer::Code("0x6001".to_string())).is_some());
}

#[test]
fn request_bodies_are_the_exact_json_rpc_texts() {
    let c = config("arbitrum", Some("0xf693"), true);
    assert_eq!(
        presence_request(&c).unwrap(),
        "{\"jsonrpc\":\"2.0\",\"method\":\"eth_getCode\",\
         \"params\":[\"0xf693\",\"latest\"],\"id\":1}"
    );
    assert_eq!(
        logs_request(&c, &CodeAnswer::Code("0x6001".to_string())).unwrap(),
        "{\"jsonrpc\":\"2.0\",\"method\":\"eth_getLogs\",\
         \"params\":[{\"address\":\"0xf693\",\"fromBlock\":\"0x0\",\
         \"toBlock\":\"latest\"}],\"id\":1}"
    );
}

#[test]
fn inert_chains_store_nothing_in_a_cycle() {
    let configs = vec![config("optimism", Some("0x1"), false), config("base", None, true)];
    let codes = vec![CodeAnswer::NotAsked, CodeAnswer::NotAsked];
    let logss = vec![LogsAnswer::NotAsked, LogsAnswer::NotAsked];
    let mut store = LogStore::new(1_000_000);
    let reports = run_cycle(&configs, &codes, &logss, 1700000000, &mut store);
    assert_eq!(reports.len(), 2);
    assert!(reports.iter().all(|r| r.status == ChainStatus::Inert && r.appended == 0));
    assert_eq!(store.current.len(), 0);
    assert_eq!(store.archives.len(), 0);
}

#[test]
fn one_failing_chain_does_not_stop_the_others() {
    let configs = vec![
        config("arbitrum", Some("0xa"), true),
        config("blast", Some("0xb"), true),
        config("base", Some("0xc"), true),
    ];
    let codes = vec![
        CodeAnswer::Code("0x6001".to_string()),
        CodeAnswer::Code("0x6001".to_string()),
        CodeAnswer::Code("0x6001".to_string()),
    ];
    let logss = vec![
        LogsAnswer::Entries(vec![good_raw("0x1")]),
        LogsAnswer::Transport("connection reset".to_string()),
        LogsAnswer::Entries(vec![good_raw("0x2"), good_raw("0x3")]),
    ];
    let mut store = LogStore::new(1_000_000);
    let reports = run_cycle(&configs, &codes, &logss, 1700000000, &mut store);
    assert_eq!(reports[0].status, ChainStatus::Stored);
    assert_eq!(reports[0].appended, 1);
    assert_eq!(reports[1].status, ChainStatus::FetchFailed);
    assert_eq!(reports[1].appended, 0);
    assert_eq!(reports[2].status, ChainStatus::Stored);
    assert_eq!(reports[2].appended, 2);
    let text = String::from_utf8(store.current.clone()).unwrap();
    assert_eq!(text.lines().count(), 3);
    assert!(text.contains("\"tx_hash\":\"0x1\""));
    assert!(text.contains("\"tx_hash\":\"0x2\""));
    assert!(text.contains("\"tx_hash\":\"0x3\""));
}

#[test]
fn failed_presence_check_is_isolated_too() {
    let configs = vec![config("arbitrum", Some("0xa"), true), config("base", Some("0xc"), true)];
    let codes = vec![
        CodeAnswer::Transport("dns failure".to_string()),
        CodeAnswer::Code("0x6001".to_string()),
    ];
    let logss = vec![LogsAnswer::NotAsked, LogsAnswer::Entries(vec![good_raw("0x9")])];
    let mut store = LogStore::new(1_000_000);
    let reports = run_cycle(&configs, &codes, &logss, 5, &mut store);
    assert_eq!(reports[0].status, ChainStatus::CheckFailed);
    assert_eq!(reports[0].appended, 0);
    assert_eq!(reports[1].status, ChainStatus::Stored);
    assert_eq!(reports[1].appended, 1);
}

#[test]
fn undeployed_chain_stores_nothing() {
    let configs = vec![config("arbitrum", Some("0xa"), true)];
    let codes = vec![CodeAnswer::Code("0x".to_string())];
    let logss = vec![LogsAnswer::NotAsked];
    let mut store = LogStore::new(1_000_000);
    let reports = run_cycle(&configs, &codes, &logss, 5, &mut store);
    assert_eq!(reports[0].status, ChainStatus::NotDeployed);
    assert_eq!(reports[0].appended, 0);
    assert_eq!(store.current.len(), 0);
}
