use honeysnare::record::LogEntry;
use honeysnare::serialize::serialize_line;
use honeysnare::store::LogStore;
use std::io::Read;

fn entry(amount: String) -> LogEntry {
    LogEntry {
        chain: "arbitrum".to_string(),
        attacker: "0x1".to_string(),
        action: "interaction".to_string(),
        amount,
        timestamp: 1700000000,
        tx_hash: "0xdead".to_string(),
    }
}

/// An entry whose serialized line is exactly `line_len` bytes.
fn entry_with_line_len(line_len: usize) -> LogEntry {
    let base = serialize_line(&entry(String::new())).len();
    assert!(line_len >= base);
    let e = entry("0".repeat(line_len - base));
    assert_eq!(serialize_line(&e).len(), line_len);
    e
}

fn gunzip(data: &[u8]) -> Vec<u8> {
    let mut out = Vec::new();
    flate2::read::GzDecoder::new(data).read_to_end(&mut out).unwrap();
    out
}

#[test]
fn append_accumulates_below_threshold() {
    let mut store = LogStore::new(1_000_000);
    let e = entry("0x00".to_string());
    let line = serialize_line(&e);
    let (l1, rotated1) = store.append(&e);
    let (l2, rotated2) = store.append(&e);
    assert_eq!(l1, line);
    assert_eq!(l2, line);
    assert!(!rotated1 && !rotated2);
    assert_eq!(store.archives.len(), 0);
    let mut both = line.clone();
    both.extend_from_slice(&line);
    assert_eq!(store.current, both);
}

#[test]
fn rotate_on_empty_store_is_a_no_op() {
    let mut store = LogStore::new(100);
    store.rotate();
    assert_eq!(store.archives.len(), 0);
    assert_eq!(store.current.len(), 0);
}

#[test]
fn rotation_archives_prior_records_and_keeps_new_one() {
    // Two records fit under the threshold, the third crosses it:
    // exactly one archive holding the first two lines, the current
    // file holding only the third.
    let e1 = entry_with_line_len(140);
    let e2 = entry_with_line_len(150);
    let e3 = entry_with_line_len(160);
    let mut store = LogStore::new(350);
    let (line1, r1) = store.append(&e1);
    let (line2, r2) = store.append(&e2);
    let (line3, r3) = store.append(&e3);
    assert!(!r1 && !r2 && r3);
    assert_eq!(store.archives.len(), 1);
    let mut first_two = line1.clone();
    first_two.extend_from_slice(&line2);
    assert_eq!(gunzip(&store.archives[0].data), first_two);
    assert_ne!(store.archives[0].data, first_two);
    assert_eq!(store.current, line3);
}

#[test]
fn archive_names_carry_the_stamp_prefix_and_gz_suffix() {
    let mut store = LogStore::new(200);
    store.append(&entry_with_line_len(140));
    store.append(&entry_with_line_len(140));
    assert_eq!(store.archives.len(), 1);
    let name = &store.archives[0].name;
    assert!(name.starts_with("logs_"));
    assert!(name.ends_with(".gz"));
    let stamp = &name["logs_".len()..name.len() - ".gz".len()];
    assert!(stamp.len() >= 14);
    assert!(stamp.chars().all(|c| c.is_ascii_digit()));
}

#[test]
fn oversized_record_is_archived_alone_at_once() {
    // A single record longer than the threshold never lingers in
    // the current file: it is archived by itself right away.
    let e = entry_with_line_len(300);
    let mut store = LogStore::new(100);
    let (line, rotated) = store.append(&e);
    assert!(rotated);
    assert_eq!(store.archives.len(), 1);
    assert_eq!(gunzip(&store.archives[0].data), line);
    assert_eq!(store.current.len(), 0);
}

#[test]
fn whitespace_only_content_is_never_archived() {
    // Loaded-from-disk whitespace does not make an archive, and the
    // rotation check stays a no-op when repeated.
    let blank = b"  \t\n\r\n ".to_vec();
    let mut store = LogStore { threshold: 100, current: blank.clone(), archives: Vec::new() };
    store.rotate();
    assert_eq!(store.archives.len(), 0);
    assert_eq!(store.current, blank);
    store.rotate();
    assert_eq!(store.archives.len(), 0);
    assert_eq!(store.current, blank);
}

#[test]
fn threshold_scenario_archives_prior_million_bytes() {
    // A current file of 999,900 bytes plus one more 200-byte record
    // against a 1,000,000-byte threshold: one archive with exactly
    // the prior content, the current file with exactly the new line.
    let big = entry_with_line_len(999_900);
    let small = entry_with_line_len(200);
    let mut store = LogStore::new(1_000_000);
    let (big_line, r1) = store.append(&big);
    assert!(!r1);
    assert_eq!(store.current.len(), 999_900);
    let (small_line, r2) = store.append(&small);
    assert!(r2);
    assert_eq!(store.archives.len(), 1);
    assert_eq!(gunzip(&store.archives[0].data), big_line);
    assert_eq!(store.current, small_line);
    assert_eq!(store.current.len(), 200);
}

#[test]
fn append_all_matches_separate_appends() {
    let recs = vec![entry_with_line_len(140), entry_with_line_len(150), entry_with_line_len(145)];
    let mut batch = LogStore::new(300);
    batch.append_all(&recs);
    let mut one_by_one = LogStore::new(300);
    for r in &recs {
        one_by_one.append(r);
    }
    assert_eq!(batch.current, one_by_one.current);
    assert_eq!(batch.archives.len(), one_by_one.archives.len());
    for (a, b) in batch.archives.iter().zip(one_by_one.archives.iter()) {
        assert_eq!(a.data, b.data);
    }
}
