use nekoton_transport::pagination::{select_page, TransactionRecord};

fn history() -> Vec<TransactionRecord> {
    // Strictly descending logical time, as a node reports it.
    [500u64, 400, 300, 200, 100]
        .iter()
        .map(|&lt| TransactionRecord { lt, hash_hi: lt as u128, hash_lo: 0 })
        .collect()
}

#[test]
fn first_page_is_the_head_of_history() {
    let h = history();
    let page = select_page(&h, None, 2);
    assert_eq!(page.len(), 2);
    assert_eq!(page[0].lt, 500);
    assert_eq!(page[1].lt, 400);
}

#[test]
fn resuming_from_a_cursor_skips_nothing_and_repeats_nothing() {
    let h = history();
    let first = select_page(&h, None, 2);
    let cursor = first.last().unwrap().lt;
    let second = select_page(&h, Some(cursor), 2);
    assert_eq!(second.len(), 2);
    assert_eq!(second[0].lt, 300);
    assert_eq!(second[1].lt, 200);

    let mut joined = first.clone();
    joined.extend_from_slice(&second);
    let direct = select_page(&h, None, 4);
    assert_eq!(joined, direct);
    for i in 0..joined.len() {
        for j in (i + 1)..joined.len() {
            assert_ne!(joined[i], joined[j]);
        }
    }
}

#[test]
fn page_past_the_end_is_short() {
    let h = history();
    let page = select_page(&h, Some(200), 10);
    assert_eq!(page.len(), 1);
    assert_eq!(page[0].lt, 100);
}

#[test]
fn cursor_below_all_records_yields_an_empty_page() {
    let h = history();
    let page = select_page(&h, Some(100), 10);
    assert!(page.is_empty());
}

#[test]
fn empty_history_yields_an_empty_page() {
    let h: Vec<TransactionRecord> = Vec::new();
    assert!(select_page(&h, None, 5).is_empty());
}

use nekoton_transport::errors::TransportError;
use nekoton_transport::pagination::decode_transactions_reply;

fn push_le_bytes(out: &mut Vec<u8>, value: u128, width: usize) {
    let mut v = value;
    for _ in 0..width {
        out.push((v % 256) as u8);
        v /= 256;
    }
}

fn tx_reply(records: &[TransactionRecord]) -> Vec<u8> {
    let mut out = Vec::new();
    push_le_bytes(&mut out, records.len() as u128, 4);
    for rec in records {
        push_le_bytes(&mut out, rec.lt as u128, 8);
        push_le_bytes(&mut out, rec.hash_hi, 16);
        push_le_bytes(&mut out, rec.hash_lo, 16);
    }
    out
}

#[test]
fn transactions_reply_decodes_to_the_reported_records() {
    let records = history();
    let bytes = tx_reply(&records);
    assert_eq!(decode_transactions_reply(&bytes), Ok(records));
}

#[test]
fn empty_transactions_reply_decodes_to_no_records() {
    let bytes = tx_reply(&[]);
    assert_eq!(decode_transactions_reply(&bytes), Ok(Vec::new()));
}

#[test]
fn out_of_order_transactions_reply_is_a_protocol_error() {
    let records = vec![
        TransactionRecord { lt: 100, hash_hi: 1, hash_lo: 1 },
        TransactionRecord { lt: 200, hash_hi: 2, hash_lo: 2 },
    ];
    let bytes = tx_reply(&records);
    assert_eq!(decode_transactions_reply(&bytes), Err(TransportError::ProtocolError));
}

#[test]
fn repeated_logical_time_is_a_protocol_error() {
    let records = vec![
        TransactionRecord { lt: 100, hash_hi: 1, hash_lo: 1 },
        TransactionRecord { lt: 100, hash_hi: 2, hash_lo: 2 },
    ];
    let bytes = tx_reply(&records);
    assert_eq!(decode_transactions_reply(&bytes), Err(TransportError::ProtocolError));
}

#[test]
fn truncated_transactions_reply_is_a_protocol_error() {
    let mut bytes = tx_reply(&history());
    bytes.truncate(bytes.len() - 1);
    assert_eq!(decode_transactions_reply(&bytes), Err(TransportError::ProtocolError));
}

#[test]
fn wrong_announced_count_is_a_protocol_error() {
    let mut bytes = tx_reply(&history());
    bytes[0] = bytes[0].wrapping_add(1);
    assert_eq!(decode_transactions_reply(&bytes), Err(TransportError::ProtocolError));
}
