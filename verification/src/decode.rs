//! Decoding raw log entries into event records.
//!
//! Each raw entry is decoded on its own: a malformed one (no
//! transaction hash, no topic list, no data payload) is dropped and
//! the rest of the batch goes on. The decoder keeps the input order
//! and never invents or reorders records.
use crate::clock::utc_now_unix;
use crate::record::{LogEntry, LogEntryV, RawLogEntry, RawLogEntryV};
use vstd::prelude::*;

verus! {

/// A raw entry the decoder accepts: a non-empty transaction hash, a
/// topic list present, and a non-empty data payload. An empty
/// payload would leave the record's amount field empty, which no
/// stored record may have, so such an entry is dropped as malformed.
pub open spec fn decodable(r: RawLogEntryV) -> bool {
    &&& r.tx_hash matches Some(h) && h.len() > 0
    &&& r.topics is Some
    &&& r.data matches Some(d) && d.len() > 0
}

/// The actor: the second topic when it is there and is a non-empty
/// string, otherwise the explicit "unknown" sentinel — the field is
/// never left blank.
pub open spec fn spec_attacker(topics: Seq<Option<Seq<char>>>) -> Seq<char> {
    if topics.len() > 1 && (topics[1] matches Some(a) && a.len() > 0) {
        topics[1]->Some_0
    } else {
        "unknown"@
    }
}

/// What one raw entry decodes to: `None` for a dropped entry, else
/// the record with the fixed "interaction" action, the raw data
/// payload as the amount, and the ingestion-time timestamp.
pub open spec fn spec_parse(r: RawLogEntryV, chain: Seq<char>, now: int) -> Option<LogEntryV> {
    if decodable(r) {
        Some(LogEntryV {
            chain,
            attacker: spec_attacker(r.topics->Some_0),
            action: "interaction"@,
            amount: r.data->Some_0,
            timestamp: now,
            tx_hash: r.tx_hash->Some_0,
        })
    } else {
        None
    }
}

/// What a whole batch decodes to, in input order, dropped entries
/// skipped.
pub open spec fn spec_decode(rs: Seq<RawLogEntryV>, chain: Seq<char>, now: int) -> Seq<LogEntryV>
    decreases rs.len(),
{
    if rs.len() == 0 {
        Seq::empty()
    } else {
        spec_decode(rs.drop_last(), chain, now) + match spec_parse(rs.last(), chain, now) {
            Some(e) => seq![e],
            None => Seq::empty(),
        }
    }
}

/// Decodes one raw log entry, [`spec_parse`] exactly. The chain
/// name is a chain identifier and so never empty; with that, every
/// field of a returned record is non-empty.
pub fn parse_log(raw: &RawLogEntry, chain: &str, now: i64) -> (r: Option<LogEntry>)
    requires
        chain@.len() > 0,
    ensures
        r.deep_view() == spec_parse(raw@, chain@, now as int),
{
    let h = match &raw.tx_hash {
        Some(h) => h,
        None => {
            return None;
        },
    };
    if h.as_str().is_empty() {
        return None;
    }
    let topics = match &raw.topics {
        Some(t) => t,
        None => {
            return None;
        },
    };
    let data = match &raw.data {
        Some(d) => d,
        None => {
            return None;
        },
    };
    if data.as_str().is_empty() {
        return None;
    }
    let attacker: String = if topics.len() > 1 {
        match &topics[1] {
            Some(a) => if a.as_str().is_empty() {
                "unknown".to_owned()
            } else {
                a.clone()
            },
            None => "unknown".to_owned(),
        }
    } else {
        "unknown".to_owned()
    };
    proof {
        assert(raw@.topics->Some_0 == topics.deep_view());
        if topics@.len() > 1 {
            assert(topics.deep_view()[1] == topics@[1].deep_view());
        }
        assert(attacker@ == spec_attacker(raw@.topics->Some_0));
    }
    Some(LogEntry {
        chain: chain.to_owned(),
        attacker,
        action: "interaction".to_owned(),
        amount: data.clone(),
        timestamp: now,
        tx_hash: h.clone(),
    })
}

/// Decodes a whole batch, [`spec_decode`] exactly: order kept,
/// malformed entries dropped, the rest untouched.
pub fn decode(raw: &Vec<RawLogEntry>, chain: &str, now: i64) -> (r: Vec<LogEntry>)
    requires
        chain@.len() > 0,
    ensures
        r.deep_view() == spec_decode(raw.deep_view(), chain@, now as int),
{
    let ghost rv = raw.deep_view();
    let mut out: Vec<LogEntry> = Vec::new();
    let mut i: usize = 0;
    while i < raw.len()
        invariant
            rv == raw.deep_view(),
            chain@.len() > 0,
            i <= rv.len(),
            out.deep_view() == spec_decode(rv.take(i as int), chain@, now as int),
        decreases rv.len() - i,
    {
        match parse_log(&raw[i], chain, now) {
            Some(e) => {
                out.push(e);
            },
            None => {},
        }
        proof {
            assert(rv.take(i + 1).drop_last() =~= rv.take(i as int));
            assert(rv.take(i + 1).last() == rv[i as int]);
            assert(out.deep_view() =~= spec_decode(rv.take(i + 1), chain@, now as int));
        }
        i = i + 1;
    }
    proof {
        assert(rv.take(rv.len() as int) =~= rv);
    }
    out
}

/// Decodes a batch with the ingestion timestamp read from the wall
/// clock, as records are stamped at decode time, not block time.
/// Whatever instant the clock returns, the result is the exact
/// decoding of the batch at that instant.
pub fn decode_now(raw: &Vec<RawLogEntry>, chain: &str) -> (r: Vec<LogEntry>)
    requires
        chain@.len() > 0,
    ensures
        exists|t: int| r.deep_view() == spec_decode(raw.deep_view(), chain@, t),
{
    let now = utc_now_unix();
    let r = decode(raw, chain, now);
    proof {
        assert(r.deep_view() == spec_decode(raw.deep_view(), chain@, now as int));
    }
    r
}

/// Every field of a stored record is populated: the chain name, the
/// actor (a topic or the "unknown" sentinel), the fixed action, the
/// data payload and the transaction hash are all non-empty.
pub open spec fn entry_fields_nonempty(e: LogEntryV) -> bool {
    &&& e.chain.len() > 0
    &&& e.attacker.len() > 0
    &&& e.action.len() > 0
    &&& e.amount.len() > 0
    &&& e.tx_hash.len() > 0
}

/// Every decoding keeps at most one record per input entry, keeps
/// the input order — the output is the accepted entries, in order,
/// each mapped to its record — never yields a record with an empty
/// transaction hash, and (the chain name being non-empty) populates
/// every field of every record.
pub proof fn lemma_decode_shape(rs: Seq<RawLogEntryV>, chain: Seq<char>, now: int)
    requires
        chain.len() > 0,
    ensures
        spec_decode(rs, chain, now).len() <= rs.len(),
        spec_decode(rs, chain, now) == rs.filter(|r: RawLogEntryV| decodable(r)).map_values(
            |r: RawLogEntryV| spec_parse(r, chain, now)->Some_0,
        ),
        forall|j: int|
            0 <= j < spec_decode(rs, chain, now).len() ==> #[trigger] spec_decode(
                rs,
                chain,
                now,
            )[j].tx_hash.len() > 0,
        forall|j: int|
            0 <= j < spec_decode(rs, chain, now).len() ==> entry_fields_nonempty(
                #[trigger] spec_decode(rs, chain, now)[j],
            ),
    decreases rs.len(),
{
    reveal(Seq::filter);
    reveal_strlit("unknown");
    reveal_strlit("interaction");
    if rs.len() > 0 {
        lemma_decode_shape(rs.drop_last(), chain, now);
        assert(rs.filter(|r: RawLogEntryV| decodable(r)) == if decodable(rs.last()) {
            rs.drop_last().filter(|r: RawLogEntryV| decodable(r)).push(rs.last())
        } else {
            rs.drop_last().filter(|r: RawLogEntryV| decodable(r))
        });
        if decodable(rs.last()) {
            assert(rs.drop_last().filter(|r: RawLogEntryV| decodable(r)).push(
                rs.last(),
            ).map_values(|r: RawLogEntryV| spec_parse(r, chain, now)->Some_0) =~= rs.drop_last()
                .filter(|r: RawLogEntryV| decodable(r)).map_values(
                |r: RawLogEntryV| spec_parse(r, chain, now)->Some_0,
            ).push(spec_parse(rs.last(), chain, now)->Some_0));
        }
        assert(spec_decode(rs, chain, now) =~= rs.filter(|r: RawLogEntryV| decodable(r))
            .map_values(|r: RawLogEntryV| spec_parse(r, chain, now)->Some_0));
    } else {
        assert(spec_decode(rs, chain, now) =~= rs.filter(|r: RawLogEntryV| decodable(r))
            .map_values(|r: RawLogEntryV| spec_parse(r, chain, now)->Some_0));
    }
}

} // verus!
