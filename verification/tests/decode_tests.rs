use honeysnare::decode::{decode, decode_now, parse_log};
use honeysnare::record::RawLogEntry;

fn raw(tx: Option<&str>, topics: Option<Vec<Option<&str>>>, data: Option<&str>) -> RawLogEntry {
    RawLogEntry {
        tx_hash: tx.map(|s| s.to_string()),
        topics: topics.map(|ts| ts.into_iter().map(|t| t.map(|s| s.to_string())).collect()),
        data: data.map(|s| s.to_string()),
    }
}

#[test]
fn decodes_actor_action_and_amount_from_topics_and_data() {
    // A raw log with topics [eventSig, 0xabc...] and data 0x00.
    let r = raw(
        Some("0xfeed"),
        Some(vec![Some("0xeventsig"), Some("0xabc123")]),
        Some("0x00"),
    );
    let e = parse_log(&r, "arbitrum", 1700000000).unwrap();
    assert_eq!(e.chain, "arbitrum");
    assert_eq!(e.attacker, "0xabc123");
    assert_eq!(e.action, "interaction");
    assert_eq!(e.amount, "0x00");
    assert_eq!(e.timestamp, 1700000000);
    assert_eq!(e.tx_hash, "0xfeed");
}

#[test]
fn missing_second_topic_yields_unknown_actor() {
    let r = raw(Some("0xfeed"), Some(vec![Some("0xeventsig")]), Some("0x01"));
    let e = parse_log(&r, "base", 7).unwrap();
    assert_eq!(e.attacker, "unknown");
    let r2 = raw(Some("0xfeed"), Some(vec![Some("0xeventsig"), None]), Some("0x01"));
    let e2 = parse_log(&r2, "base", 7).unwrap();
    assert_eq!(e2.attacker, "unknown");
}

#[test]
fn malformed_entries_are_dropped() {
    assert!(parse_log(&raw(None, Some(vec![]), Some("0x")), "c", 0).is_none());
    assert!(parse_log(&raw(Some(""), Some(vec![]), Some("0x")), "c", 0).is_none());
    assert!(parse_log(&raw(Some("0x1"), None, Some("0x")), "c", 0).is_none());
    assert!(parse_log(&raw(Some("0x1"), Some(vec![]), None), "c", 0).is_none());
    // An empty data payload would leave the amount field empty.
    assert!(parse_log(&raw(Some("0x1"), Some(vec![]), Some("")), "c", 0).is_none());
}

#[test]
fn empty_second_topic_yields_unknown_actor_too() {
    let r = raw(Some("0xfeed"), Some(vec![Some("0xeventsig"), Some("")]), Some("0x01"));
    let e = parse_log(&r, "base", 7).unwrap();
    assert_eq!(e.attacker, "unknown");
}

#[test]
fn decode_keeps_order_and_skips_malformed() {
    let batch = vec![
        raw(Some("0xa"), Some(vec![]), Some("0x1")),
        raw(None, Some(vec![]), Some("0x2")),
        raw(Some("0xb"), Some(vec![Some("sig"), Some("0xcafe")]), Some("0x3")),
        raw(Some(""), Some(vec![]), Some("0x4")),
        raw(Some("0xc"), Some(vec![]), Some("0x5")),
    ];
    let out = decode(&batch, "blast", 9);
    assert!(out.len() <= batch.len());
    assert_eq!(out.len(), 3);
    assert_eq!(out[0].tx_hash, "0xa");
    assert_eq!(out[1].tx_hash, "0xb");
    assert_eq!(out[1].attacker, "0xcafe");
    assert_eq!(out[2].tx_hash, "0xc");
    assert!(out.iter().all(|e| !e.tx_hash.is_empty()));
}

#[test]
fn decode_now_stamps_every_record_with_one_instant() {
    let batch = vec![
        raw(Some("0xa"), Some(vec![]), Some("0x1")),
        raw(Some("0xb"), Some(vec![]), Some("0x2")),
    ];
    let out = decode_now(&batch, "optimism");
    assert_eq!(out.len(), 2);
    assert_eq!(out[0].timestamp, out[1].timestamp);
    assert!(out[0].timestamp > 1_500_000_000);
}
