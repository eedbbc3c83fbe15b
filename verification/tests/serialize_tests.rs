use honeysnare::record::LogEntry;
use honeysnare::serialize::{serialize_entry, serialize_line};

fn entry(amount: &str, timestamp: i64) -> LogEntry {
    LogEntry {
        chain: "arbitrum".to_string(),
        attacker: "0xabc".to_string(),
        action: "interaction".to_string(),
        amount: amount.to_string(),
        timestamp,
        tx_hash: "0xdead".to_string(),
    }
}

#[test]
fn serializes_exact_json_object() {
    let e = entry("0x00", 1700000000);
    let line = serialize_entry(&e);
    assert_eq!(
        String::from_utf8(line).unwrap(),
        "{\"chain\":\"arbitrum\",\"attacker\":\"0xabc\",\"action\":\"interaction\",\
         \"amount\":\"0x00\",\"timestamp\":1700000000,\"tx_hash\":\"0xdead\"}"
    );
}

#[test]
fn line_ends_with_single_newline() {
    let e = entry("1", 0);
    let obj = serialize_entry(&e);
    let line = serialize_line(&e);
    assert_eq!(line.len(), obj.len() + 1);
    assert_eq!(line[line.len() - 1], b'\n');
    assert_eq!(&line[..line.len() - 1], obj.as_slice());
}

#[test]
fn negative_timestamp_gets_minus_sign() {
    let e = entry("0", -5);
    let s = String::from_utf8(serialize_entry(&e)).unwrap();
    assert!(s.contains("\"timestamp\":-5,"));
}

#[test]
fn escapes_quotes_backslashes_and_controls() {
    let e = entry("a\"b\\c\nd", 1);
    let s = String::from_utf8(serialize_entry(&e)).unwrap();
    assert!(s.contains("\"amount\":\"a\\\"b\\\\c\\u000ad\""));
}

#[test]
fn escapes_non_ascii_as_unicode_escapes() {
    // U+20AC euro sign in the basic plane, U+1F600 above it.
    let e = entry("€😀", 1);
    let s = String::from_utf8(serialize_entry(&e)).unwrap();
    assert!(s.contains("\"amount\":\"\\u20ac\\ud83d\\ude00\""));
    assert!(s.is_ascii());
}

#[test]
fn serialized_line_parses_back_with_serde_json() {
    let e = entry("a\"b\\c\n€😀", -42);
    let s = String::from_utf8(serialize_entry(&e)).unwrap();
    let v: serde_json::Value = serde_json::from_str(&s).unwrap();
    assert_eq!(v["chain"], "arbitrum");
    assert_eq!(v["attacker"], "0xabc");
    assert_eq!(v["action"], "interaction");
    assert_eq!(v["amount"], "a\"b\\c\n€😀");
    assert_eq!(v["timestamp"], -42);
    assert_eq!(v["tx_hash"], "0xdead");
}
