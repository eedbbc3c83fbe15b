//! One poll cycle over the configured chain targets.
//!
//! The cycle is a pure decision pipeline: for each target the
//! library says which request to send (if any), judges the answer
//! the caller brings back, decodes, and appends to the store. Each
//! chain's outcome is a function of that chain's own configuration
//! and answers alone, so one failing chain never touches another.
use crate::config::{cfg_inert, ChainConfig, ChainConfigV};
use crate::decode::{decode, spec_decode};
use crate::record::{LogEntry, LogEntryV, RawLogEntry, RawLogEntryV};
use crate::rpc::{
    code_indicates_deployment,
    get_code_request,
    get_logs_request,
    spec_deployed,
    spec_get_code_body,
    spec_get_logs_body,
};
use crate::store::{spec_lines, LogStore};
use vstd::prelude::*;

verus! {

/// The caller's answer to a planned `eth_getCode` request:
/// never sent, failed in transport, or a code string.
pub enum CodeAnswer {
    NotAsked,
    Transport(String),
    Code(String),
}

impl View for CodeAnswer {
    type V = Option<Result<Seq<char>, Seq<char>>>;

    open spec fn view(&self) -> Option<Result<Seq<char>, Seq<char>>> {
        match self {
            CodeAnswer::NotAsked => None,
            CodeAnswer::Transport(m) => Some(Err(m@)),
            CodeAnswer::Code(c) => Some(Ok(c@)),
        }
    }
}

impl DeepView for CodeAnswer {
    type V = Option<Result<Seq<char>, Seq<char>>>;

    open spec fn deep_view(&self) -> Option<Result<Seq<char>, Seq<char>>> {
        self.view()
    }
}

/// The caller's answer to a planned `eth_getLogs` request:
/// never sent, failed in transport, or the raw entries of the
/// response's `result` array (a `null` `result` is a valid empty
/// batch; a response without a usable `result` is a transport
/// failure).
pub enum LogsAnswer {
    NotAsked,
    Transport(String),
    Entries(Vec<RawLogEntry>),
}

impl View for LogsAnswer {
    type V = Option<Result<Seq<RawLogEntryV>, Seq<char>>>;

    open spec fn view(&self) -> Option<Result<Seq<RawLogEntryV>, Seq<char>>> {
        match self {
            LogsAnswer::NotAsked => None,
            LogsAnswer::Transport(m) => Some(Err(m@)),
            LogsAnswer::Entries(es) => Some(Ok(es.deep_view())),
        }
    }
}

impl DeepView for LogsAnswer {
    type V = Option<Result<Seq<RawLogEntryV>, Seq<char>>>;

    open spec fn deep_view(&self) -> Option<Result<Seq<RawLogEntryV>, Seq<char>>> {
        self.view()
    }
}

/// Where one chain's cycle ended.
#[derive(PartialEq, Eq, Structural, Clone, Copy, Debug)]
pub enum ChainStatus {
    /// Disabled or no contract address configured: skipped, no RPC.
    Inert,
    /// Presence check answered, but no code is deployed: skipped.
    NotDeployed,
    /// The presence check itself failed.
    CheckFailed,
    /// The log fetch failed.
    FetchFailed,
    /// Logs fetched, decoded and appended.
    Stored,
}

/// One chain's outcome: its status and how many records it stored.
#[derive(PartialEq, Eq, Structural, Clone, Copy, Debug)]
pub struct ChainReport {
    pub status: ChainStatus,
    pub appended: usize,
}

/// The presence request a chain gets: none at all for an inert one.
pub open spec fn spec_code_request(c: ChainConfigV) -> Option<Seq<char>> {
    if cfg_inert(c) {
        None
    } else {
        Some(spec_get_code_body(c.honeypot_address->Some_0))
    }
}

/// The fetch request a chain gets: only when it is not inert and
/// its presence check answered with deployed code.
pub open spec fn spec_logs_request(
    c: ChainConfigV,
    code: Option<Result<Seq<char>, Seq<char>>>,
) -> Option<Seq<char>> {
    if !cfg_inert(c) && (code matches Some(Ok(k)) && spec_deployed(k)) {
        Some(spec_get_logs_body(c.honeypot_address->Some_0))
    } else {
        None
    }
}

/// The status one chain's cycle ends in, given its answers.
pub open spec fn spec_status(
    c: ChainConfigV,
    code: Option<Result<Seq<char>, Seq<char>>>,
    logs: Option<Result<Seq<RawLogEntryV>, Seq<char>>>,
) -> ChainStatus {
    if cfg_inert(c) {
        ChainStatus::Inert
    } else {
        match code {
            Some(Ok(k)) => if !spec_deployed(k) {
                ChainStatus::NotDeployed
            } else {
                match logs {
                    Some(Ok(_)) => ChainStatus::Stored,
                    _ => ChainStatus::FetchFailed,
                }
            },
            _ => ChainStatus::CheckFailed,
        }
    }
}

/// The records one chain's cycle stores: the decoded batch when it
/// reached `Stored`, nothing otherwise.
pub open spec fn spec_chain_records(
    c: ChainConfigV,
    code: Option<Result<Seq<char>, Seq<char>>>,
    logs: Option<Result<Seq<RawLogEntryV>, Seq<char>>>,
    now: int,
) -> Seq<LogEntryV> {
    if spec_status(c, code, logs) == ChainStatus::Stored {
        spec_decode(logs->Some_0->Ok_0, c.chain, now)
    } else {
        Seq::empty()
    }
}

/// The bytes a whole cycle adds to the store, chain by chain.
pub open spec fn spec_cycle_lines(
    cs: Seq<ChainConfigV>,
    codes: Seq<Option<Result<Seq<char>, Seq<char>>>>,
    logss: Seq<Option<Result<Seq<RawLogEntryV>, Seq<char>>>>,
    now: int,
) -> Seq<u8>
    decreases cs.len(),
{
    if cs.len() == 0 {
        Seq::empty()
    } else {
        spec_cycle_lines(
            cs.drop_last(),
            codes.take(cs.len() - 1),
            logss.take(cs.len() - 1),
            now,
        ) + spec_lines(
            spec_chain_records(cs.last(), codes[cs.len() - 1], logss[cs.len() - 1], now),
        )
    }
}

/// Plans the presence check, [`spec_code_request`] exactly: an inert
/// chain gets no request at all.
pub fn presence_request(config: &ChainConfig) -> (r: Option<String>)
    ensures
        r.deep_view() == spec_code_request(config@),
{
    if !config.enabled {
        return None;
    }
    match &config.honeypot_address {
        Some(addr) => Some(get_code_request(addr.as_str())),
        None => None,
    }
}

/// Plans the log fetch, [`spec_logs_request`] exactly: only a chain
/// whose presence check answered with deployed code gets one.
pub fn logs_request(config: &ChainConfig, code: &CodeAnswer) -> (r: Option<String>)
    ensures
        r.deep_view() == spec_logs_request(config@, code@),
{
    if !config.enabled {
        return None;
    }
    let addr = match &config.honeypot_address {
        Some(a) => a,
        None => {
            return None;
        },
    };
    match code {
        CodeAnswer::Code(k) => if code_indicates_deployment(k.as_str()) {
            Some(get_logs_request(addr.as_str()))
        } else {
            None
        },
        _ => None,
    }
}

/// Finishes one chain's cycle: judges its answers, decodes the
/// fetched batch at the given ingestion time, appends every decoded
/// record to the store in response order, and reports the status and
/// the count. The store only ever grows by exactly those records'
/// lines.
pub fn process_chain(
    config: &ChainConfig,
    code: &CodeAnswer,
    logs: &LogsAnswer,
    now: i64,
    store: &mut LogStore,
) -> (r: ChainReport)
    requires
        old(store).wf(),
        config@.chain.len() > 0,
    ensures
        final(store).wf(),
        final(store).threshold == old(store).threshold,
        r.status == spec_status(config@, code@, logs@),
        r.appended == spec_chain_records(config@, code@, logs@, now as int).len(),
        final(store).all_content() == old(store).all_content() + spec_lines(
            spec_chain_records(config@, code@, logs@, now as int),
        ),
{
    let ghost records = spec_chain_records(config@, code@, logs@, now as int);
    let status: ChainStatus;
    let mut recs: Vec<LogEntry> = Vec::new();
    if !config.enabled || config.honeypot_address.is_none() {
        status = ChainStatus::Inert;
    } else {
        match code {
            CodeAnswer::Code(k) => {
                if !code_indicates_deployment(k.as_str()) {
                    status = ChainStatus::NotDeployed;
                } else {
                    match logs {
                        LogsAnswer::Entries(entries) => {
                            recs = decode(entries, config.chain.as_str(), now);
                            status = ChainStatus::Stored;
                        },
                        _ => {
                            status = ChainStatus::FetchFailed;
                        },
                    }
                }
            },
            _ => {
                status = ChainStatus::CheckFailed;
            },
        }
    }
    proof {
        assert(status == spec_status(config@, code@, logs@));
        assert(recs.deep_view() =~= records);
    }
    let ghost entry_content = store.all_content();
    let mut j: usize = 0;
    while j < recs.len()
        invariant
            store.wf(),
            store.threshold == old(store).threshold,
            j <= recs@.len(),
            records == recs.deep_view(),
            store.all_content() == entry_content + spec_lines(records.take(j as int)),
        decreases recs@.len() - j,
    {
        store.append(&recs[j]);
        proof {
            assert(records.take(j + 1).drop_last() =~= records.take(j as int));
            assert(records.take(j + 1).last() == records[j as int]);
            assert(store.all_content() =~= entry_content + spec_lines(records.take(j + 1)));
        }
        j = j + 1;
    }
    proof {
        assert(records.take(records.len() as int) =~= records);
        assert(store.all_content() =~= entry_content + spec_lines(records));
    }
    ChainReport { status, appended: recs.len() }
}

/// Runs one full poll cycle: every chain is processed in order with
/// its own answers, and every chain is processed whatever happened
/// to the chains before it — a transport failure on one never stops
/// the others. The store grows by exactly the cycle's decoded lines.
pub fn run_cycle(
    configs: &Vec<ChainConfig>,
    codes: &Vec<CodeAnswer>,
    logss: &Vec<LogsAnswer>,
    now: i64,
    store: &mut LogStore,
) -> (reports: Vec<ChainReport>)
    requires
        old(store).wf(),
        codes@.len() == configs@.len(),
        logss@.len() == configs@.len(),
        forall|i: int| 0 <= i < configs@.len() ==> (#[trigger] configs@[i]@).chain.len() > 0,
    ensures
        final(store).wf(),
        final(store).threshold == old(store).threshold,
        reports@.len() == configs@.len(),
        forall|i: int|
            0 <= i < configs@.len() ==> #[trigger] reports@[i] == (ChainReport {
                status: spec_status(configs@[i]@, codes@[i]@, logss@[i]@),
                appended: spec_chain_records(
                    configs@[i]@,
                    codes@[i]@,
                    logss@[i]@,
                    now as int,
                ).len() as usize,
            }),
        final(store).all_content() == old(store).all_content() + spec_cycle_lines(
            configs.deep_view(),
            codes.deep_view(),
            logss.deep_view(),
            now as int,
        ),
{
    let ghost cs = configs.deep_view();
    let ghost cv = codes.deep_view();
    let ghost lv = logss.deep_view();
    let ghost entry_content = store.all_content();
    let mut reports: Vec<ChainReport> = Vec::new();
    let mut i: usize = 0;
    while i < configs.len()
        invariant
            store.wf(),
            store.threshold == old(store).threshold,
            cs == configs.deep_view(),
            cv == codes.deep_view(),
            lv == logss.deep_view(),
            cv.len() == cs.len(),
            lv.len() == cs.len(),
            forall|k: int| 0 <= k < configs@.len() ==> (#[trigger] configs@[k]@).chain.len() > 0,
            i <= cs.len(),
            reports@.len() == i,
            forall|k: int|
                0 <= k < i ==> #[trigger] reports@[k] == (ChainReport {
                    status: spec_status(cs[k], cv[k], lv[k]),
                    appended: spec_chain_records(cs[k], cv[k], lv[k], now as int).len() as usize,
                }),
            store.all_content() == entry_content + spec_cycle_lines(
                cs.take(i as int),
                cv.take(i as int),
                lv.take(i as int),
                now as int,
            ),
        decreases cs.len() - i,
    {
        let r = process_chain(&configs[i], &codes[i], &logss[i], now, store);
        reports.push(r);
        proof {
            assert(cs.take(i + 1).drop_last() =~= cs.take(i as int));
            assert(cv.take(i + 1).take(i as int) =~= cv.take(i as int));
            assert(lv.take(i + 1).take(i as int) =~= lv.take(i as int));
            assert(cs.take(i + 1).last() == cs[i as int]);
            assert(store.all_content() =~= entry_content + spec_cycle_lines(
                cs.take(i + 1),
                cv.take(i + 1),
                lv.take(i + 1),
                now as int,
            ));
        }
        i = i + 1;
    }
    proof {
        assert(cs.take(cs.len() as int) =~= cs);
        assert(cv.take(cs.len() as int) =~= cv);
        assert(lv.take(cs.len() as int) =~= lv);
    }
    reports
}

/// An inert chain (disabled or no configured address) triggers no
/// presence request, no log fetch and no appended records; and a
/// chain whose presence check answers with undeployed code triggers
/// no log fetch and no appended records either.
pub proof fn lemma_no_contract_no_fetch(
    c: ChainConfigV,
    code: Option<Result<Seq<char>, Seq<char>>>,
    logs: Option<Result<Seq<RawLogEntryV>, Seq<char>>>,
    now: int,
)
    ensures
        cfg_inert(c) ==> {
            &&& spec_code_request(c) is None
            &&& spec_logs_request(c, code) is None
            &&& spec_status(c, code, logs) == ChainStatus::Inert
            &&& spec_chain_records(c, code, logs, now).len() == 0
        },
        (code matches Some(Ok(k)) && !spec_deployed(k)) ==> {
            &&& spec_logs_request(c, code) is None
            &&& spec_chain_records(c, code, logs, now).len() == 0
        },
{
}

/// Failure isolation: one chain's outcome in a cycle is a function
/// of that chain's own configuration and answers alone. Whatever
/// errors the answers for every other chain carry, the reports and
/// stored records of this chain are the same.
pub proof fn lemma_failure_isolation(
    c1: ChainConfigV,
    code1: Option<Result<Seq<char>, Seq<char>>>,
    logs1: Option<Result<Seq<RawLogEntryV>, Seq<char>>>,
    c2: ChainConfigV,
    code2: Option<Result<Seq<char>, Seq<char>>>,
    logs2: Option<Result<Seq<RawLogEntryV>, Seq<char>>>,
    now: int,
)
    requires
        c1 == c2,
        code1 == code2,
        logs1 == logs2,
    ensures
        spec_status(c1, code1, logs1) == spec_status(c2, code2, logs2),
        spec_chain_records(c1, code1, logs1, now) == spec_chain_records(c2, code2, logs2, now),
{
}

} // verus!
