//! Chain target configuration and startup environment checking.
//!
//! Reading the process environment is the caller's business; the
//! functions here work on the configuration list and on the caller's
//! answer to "is this variable set", and build the exact error text
//! the monitor reports at startup.
use vstd::prelude::*;
use vstd::string::StringExecFns;

verus! {

/// Mathematical value of a [`ChainConfig`].
pub ghost struct ChainConfigV {
    pub chain: Seq<char>,
    pub rpc_url_env: Seq<char>,
    pub honeypot_address: Option<Seq<char>>,
    pub enabled: bool,
}

/// Identifies one monitored chain: its name, the environment variable
/// holding its RPC endpoint, the honeypot contract address (if any),
/// and whether polling is enabled. Immutable once loaded.
pub struct ChainConfig {
    pub chain: String,
    pub rpc_url_env: String,
    pub honeypot_address: Option<String>,
    pub enabled: bool,
}

impl View for ChainConfig {
    type V = ChainConfigV;

    open spec fn view(&self) -> ChainConfigV {
        ChainConfigV {
            chain: self.chain@,
            rpc_url_env: self.rpc_url_env@,
            honeypot_address: self.honeypot_address.deep_view(),
            enabled: self.enabled,
        }
    }
}

impl DeepView for ChainConfig {
    type V = ChainConfigV;

    open spec fn deep_view(&self) -> ChainConfigV {
        self.view()
    }
}

/// A chain target that the orchestrator must skip without any RPC
/// call: polling disabled, or no contract address configured yet.
pub open spec fn cfg_inert(c: ChainConfigV) -> bool {
    !c.enabled || c.honeypot_address is None
}

/// The fixed chain target list the monitor starts from.
pub fn load_chain_configs() -> (r: Result<Vec<ChainConfig>, String>)
    ensures
        r is Ok,
        ({
            let cs = r->Ok_0.deep_view();
            &&& cs.len() == 5
            &&& cs[0] == (ChainConfigV {
                chain: "arbitrum"@,
                rpc_url_env: "ARB_RPC_URL"@,
                honeypot_address: Some("0xf693DAC3dF95a731FA169C3aFAE6e0C3c416AF47"@),
                enabled: true,
            })
            &&& cs[1] == (ChainConfigV {
                chain: "optimism"@,
                rpc_url_env: "OP_RPC_URL"@,
                honeypot_address: None,
                enabled: false,
            })
            &&& cs[2] == (ChainConfigV {
                chain: "base"@,
                rpc_url_env: "BASE_RPC_URL"@,
                honeypot_address: None,
                enabled: false,
            })
            &&& cs[3] == (ChainConfigV {
                chain: "blast"@,
                rpc_url_env: "BLAST_RPC_URL"@,
                honeypot_address: None,
                enabled: false,
            })
            &&& cs[4] == (ChainConfigV {
                chain: "solana"@,
                rpc_url_env: "SOL_RPC_URL"@,
                honeypot_address: None,
                enabled: false,
            })
        }),
{
    let mut configs: Vec<ChainConfig> = Vec::new();
    configs.push(ChainConfig {
        chain: "arbitrum".to_owned(),
        rpc_url_env: "ARB_RPC_URL".to_owned(),
        honeypot_address: Some("0xf693DAC3dF95a731FA169C3aFAE6e0C3c416AF47".to_owned()),
        enabled: true,
    });
    configs.push(ChainConfig {
        chain: "optimism".to_owned(),
        rpc_url_env: "OP_RPC_URL".to_owned(),
        honeypot_address: None,
        enabled: false,
    });
    configs.push(ChainConfig {
        chain: "base".to_owned(),
        rpc_url_env: "BASE_RPC_URL".to_owned(),
        honeypot_address: None,
        enabled: false,
    });
    configs.push(ChainConfig {
        chain: "blast".to_owned(),
        rpc_url_env: "BLAST_RPC_URL".to_owned(),
        honeypot_address: None,
        enabled: false,
    });
    configs.push(ChainConfig {
        chain: "solana".to_owned(),
        rpc_url_env: "SOL_RPC_URL".to_owned(),
        honeypot_address: None,
        enabled: false,
    });
    assert(configs.deep_view() =~= seq![
        configs@[0]@,
        configs@[1]@,
        configs@[2]@,
        configs@[3]@,
        configs@[4]@,
    ]);
    Ok(configs)
}

/// The error text for one chain whose RPC endpoint variable is unset.
pub fn rpc_url_error_message(chain: &str, env_var: &str) -> (r: String)
    ensures
        r@ == "Missing RPC URL for "@ + chain@ + ". Ensure "@ + env_var@
            + " is set in GitHub Actions secrets"@,
{
    let mut msg = String::new();
    msg.append("Missing RPC URL for ");
    msg.append(chain);
    msg.append(". Ensure ");
    msg.append(env_var);
    msg.append(" is set in GitHub Actions secrets");
    msg
}

/// "VAR (chain RPC URL)", the per-chain piece of the startup error.
pub open spec fn spec_missing_piece(c: ChainConfigV) -> Seq<char> {
    c.rpc_url_env + " ("@ + c.chain + " RPC URL)"@
}

/// The pieces for every enabled chain whose endpoint variable is
/// unset, in configuration order. `present[i]` says whether chain
/// `i`'s variable is set.
pub open spec fn spec_missing_pieces(cs: Seq<ChainConfigV>, present: Seq<bool>) -> Seq<Seq<char>>
    decreases cs.len(),
{
    if cs.len() == 0 {
        Seq::empty()
    } else {
        spec_missing_pieces(cs.drop_last(), present.take(cs.len() - 1))
            + if cs.last().enabled && !present[cs.len() - 1] {
                seq![spec_missing_piece(cs.last())]
            } else {
                Seq::empty()
            }
    }
}

/// The pieces joined with ", ".
pub open spec fn spec_join(pieces: Seq<Seq<char>>) -> Seq<char>
    decreases pieces.len(),
{
    if pieces.len() == 0 {
        Seq::empty()
    } else if pieces.len() == 1 {
        pieces[0]
    } else {
        spec_join(pieces.drop_last()) + ", "@ + pieces.last()
    }
}

proof fn lemma_no_pieces_iff_all_present(cs: Seq<ChainConfigV>, present: Seq<bool>)
    requires
        present.len() == cs.len(),
    ensures
        spec_missing_pieces(cs, present).len() == 0 <==> (forall|i: int|
            0 <= i < cs.len() && cs[i].enabled ==> present[i]),
    decreases cs.len(),
{
    if cs.len() > 0 {
        let n = cs.len() as int;
        let cs2 = cs.drop_last();
        let ps2 = present.take(n - 1);
        lemma_no_pieces_iff_all_present(cs2, ps2);
        assert(forall|i: int| 0 <= i < n - 1 ==> cs2[i] == cs[i]);
        assert(forall|i: int| 0 <= i < n - 1 ==> ps2[i] == present[i]);
        assert(cs.last() == cs[n - 1]);
        if forall|i: int| 0 <= i < n && cs[i].enabled ==> present[i] {
            assert(forall|i: int| 0 <= i < n - 1 && cs2[i].enabled ==> ps2[i]);
            assert(spec_missing_pieces(cs, present).len() == 0);
        } else {
            let j = choose|i: int| 0 <= i < n && cs[i].enabled && !present[i];
            if j < n - 1 {
                assert(cs2[j].enabled && !ps2[j]);
                assert(spec_missing_pieces(cs2, ps2).len() != 0);
            }
            assert(spec_missing_pieces(cs, present).len() != 0);
        }
    }
}

/// Checks that every enabled chain's endpoint variable is set.
/// `present[i]` is the caller's answer for `configs[i].rpc_url_env`.
/// Returns the full list of offending chains in one message, never
/// just the first.
pub fn verify_environment(configs: &Vec<ChainConfig>, present: &Vec<bool>) -> (r: Result<
    (),
    String,
>)
    requires
        present@.len() == configs@.len(),
    ensures
        r is Ok <==> (forall|i: int|
            0 <= i < configs@.len() && configs@[i]@.enabled ==> present@[i]),
        r matches Err(m) ==> m@ == "Missing required environment variables: "@
            + spec_join(spec_missing_pieces(configs.deep_view(), present@))
            + ". Please set these in GitHub Actions secrets."@,
{
    let ghost cs = configs.deep_view();
    let mut pieces: Vec<String> = Vec::new();
    let mut i: usize = 0;
    while i < configs.len()
        invariant
            present@.len() == configs@.len(),
            cs == configs.deep_view(),
            i <= configs@.len(),
            pieces.deep_view() == spec_missing_pieces(cs.take(i as int), present@.take(i as int)),
        decreases configs@.len() - i,
    {
        let c = &configs[i];
        if c.enabled && !present[i] {
            let mut piece = c.rpc_url_env.clone();
            piece.append(" (");
            piece.append(c.chain.as_str());
            piece.append(" RPC URL)");
            assert(piece@ == spec_missing_piece(cs[i as int]));
            pieces.push(piece);
        }
        proof {
            assert(cs.take(i + 1).drop_last() =~= cs.take(i as int));
            assert(present@.take(i + 1).take(i as int) =~= present@.take(i as int));
            assert(pieces.deep_view() =~= spec_missing_pieces(
                cs.take(i + 1),
                present@.take(i + 1),
            ));
        }
        i = i + 1;
    }
    proof {
        assert(cs.take(cs.len() as int) =~= cs);
        assert(present@.take(cs.len() as int) =~= present@);
        lemma_no_pieces_iff_all_present(cs, present@);
    }
    if pieces.len() == 0 {
        Ok(())
    } else {
        let mut msg = String::new();
        msg.append("Missing required environment variables: ");
        let ghost head = msg@;
        let ghost pv = pieces.deep_view();
        let mut j: usize = 0;
        while j < pieces.len()
            invariant
                pv == pieces.deep_view(),
                j <= pv.len(),
                pv.len() > 0,
                j == 0 ==> msg@ == head,
                j > 0 ==> msg@ == head + spec_join(pv.take(j as int)),
            decreases pv.len() - j,
        {
            if j > 0 {
                msg.append(", ");
            }
            msg.append(pieces[j].as_str());
            proof {
                assert(pv.take(j + 1).drop_last() =~= pv.take(j as int));
                if j > 0 {
                    assert(spec_join(pv.take(j + 1)) == spec_join(pv.take(j as int)) + ", "@
                        + pv[j as int]);
                }
            }
            j = j + 1;
        }
        proof {
            assert(pv.take(pv.len() as int) =~= pv);
        }
        msg.append(". Please set these in GitHub Actions secrets.");
        Err(msg)
    }
}

} // verus!
