use honeysnare::config::{load_chain_configs, rpc_url_error_message, verify_environment};
use honeysnare::rpc::code_indicates_deployment;

#[test]
fn loads_the_five_chain_targets() {
    let configs = load_chain_configs().unwrap();
    assert_eq!(configs.len(), 5);
    assert_eq!(configs[0].chain, "arbitrum");
    assert_eq!(configs[0].rpc_url_env, "ARB_RPC_URL");
    assert_eq!(
        configs[0].honeypot_address.as_deref(),
        Some("0xf693DAC3dF95a731FA169C3aFAE6e0C3c416AF47")
    );
    assert!(configs[0].enabled);
    let rest: Vec<_> = configs[1..].iter().map(|c| c.chain.as_str()).collect();
    assert_eq!(rest, vec!["optimism", "base", "blast", "solana"]);
    assert!(configs[1..].iter().all(|c| !c.enabled && c.honeypot_address.is_none()));
    assert_eq!(configs[1].rpc_url_env, "OP_RPC_URL");
    assert_eq!(configs[2].rpc_url_env, "BASE_RPC_URL");
    assert_eq!(configs[3].rpc_url_env, "BLAST_RPC_URL");
    assert_eq!(configs[4].rpc_url_env, "SOL_RPC_URL");
}

#[test]
fn environment_ok_when_every_enabled_chain_is_covered() {
    let configs = load_chain_configs().unwrap();
    // Only the first chain is enabled; the others may stay unset.
    let present = vec![true, false, false, false, false];
    assert!(verify_environment(&configs, &present).is_ok());
}

#[test]
fn environment_error_lists_every_missing_variable() {
    let mut configs = load_chain_configs().unwrap();
    configs[1].enabled = true;
    configs[2].enabled = true;
    let present = vec![false, false, true, false, false];
    let err = verify_environment(&configs, &present).unwrap_err();
    assert_eq!(
        err,
        "Missing required environment variables: ARB_RPC_URL (arbitrum RPC URL), \
         OP_RPC_URL (optimism RPC URL). Please set these in GitHub Actions secrets."
    );
}

#[test]
fn single_chain_error_message() {
    assert_eq!(
        rpc_url_error_message("arbitrum", "ARB_RPC_URL"),
        "Missing RPC URL for arbitrum. Ensure ARB_RPC_URL is set in GitHub Actions secrets"
    );
}

#[test]
fn deployment_sentinels_are_rejected() {
    assert!(!code_indicates_deployment("0x"));
    assert!(!code_indicates_deployment("0x0"));
    assert!(!code_indicates_deployment(""));
    assert!(code_indicates_deployment("0x6001600055"));
}
