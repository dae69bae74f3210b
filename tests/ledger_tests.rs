use sling::ledger::{append_record, split_records, NEWLINE};

#[test]
fn ledger_round_trip() {
    let records: Vec<Vec<u8>> = vec![
        b"{\"amount_msat\":1000}".to_vec(),
        b"{\"amount_msat\":2000}".to_vec(),
        b"{\"amount_msat\":3000}".to_vec(),
    ];
    let mut log: Vec<u8> = Vec::new();
    for r in &records {
        append_record(&mut log, r);
    }
    assert_eq!(log.iter().filter(|b| **b == NEWLINE).count(), 3);
    assert_eq!(*log.last().unwrap(), b'\n');
    assert_eq!(split_records(&log), records);
}

#[test]
fn empty_ledger_has_no_records() {
    assert!(split_records(&Vec::new()).is_empty());
}

#[test]
fn unterminated_last_line_counts() {
    let log = b"a\nbc".to_vec();
    assert_eq!(split_records(&log), vec![b"a".to_vec(), b"bc".to_vec()]);
}

#[test]
fn empty_lines_are_kept() {
    let log = b"a\n\nb\n".to_vec();
    assert_eq!(split_records(&log), vec![b"a".to_vec(), Vec::new(), b"b".to_vec()]);
}

#[test]
fn append_keeps_earlier_text() {
    let mut log = b"x\n".to_vec();
    append_record(&mut log, &b"yz".to_vec());
    assert_eq!(log, b"x\nyz\n".to_vec());
}
