use nekoton_transport::codec::{decode_account_record, encode_account_record};
use nekoton_transport::errors::TransportError;
use nekoton_transport::models::{AccountRecord, StorageState};

fn sample_record() -> AccountRecord {
    AccountRecord {
        balance: 1_000_000_000,
        storage_state: StorageState::Active,
        code: Some(vec![0xde, 0xad, 0xbe, 0xef]),
        data: Some(vec![1, 2, 3]),
    }
}

#[test]
fn encode_then_decode_yields_same_record() {
    let rec = sample_record();
    let bytes = encode_account_record(&rec);
    let back = decode_account_record(&bytes).expect("canonical bytes must decode");
    assert_eq!(back, rec);
}

#[test]
fn decode_then_encode_yields_same_bytes() {
    // A valid record byte string assembled by hand: tag, balance, two cells.
    let mut bytes: Vec<u8> = Vec::new();
    bytes.push(2); // Frozen
    let mut balance = [0u8; 16];
    balance[0] = 0x2a;
    bytes.extend_from_slice(&balance);
    bytes.push(1); // code present
    bytes.extend_from_slice(&[2, 0, 0, 0]); // length 2, least significant first
    bytes.extend_from_slice(&[0xaa, 0xbb]);
    bytes.push(0); // no data cell
    let rec = decode_account_record(&bytes).expect("valid bytes must decode");
    assert_eq!(rec.balance, 0x2a);
    assert_eq!(rec.storage_state, StorageState::Frozen);
    assert_eq!(rec.code, Some(vec![0xaa, 0xbb]));
    assert_eq!(rec.data, None);
    let reencoded = encode_account_record(&rec);
    assert_eq!(reencoded, bytes);
}

#[test]
fn balance_survives_byte_roundtrip() {
    let rec = AccountRecord {
        balance: u128::MAX,
        storage_state: StorageState::Uninit,
        code: None,
        data: None,
    };
    let bytes = encode_account_record(&rec);
    assert_eq!(bytes.len(), 19);
    let back = decode_account_record(&bytes).unwrap();
    assert_eq!(back.balance, u128::MAX);
}

#[test]
fn short_input_is_a_decode_error() {
    let bytes = vec![0u8; 16];
    assert_eq!(decode_account_record(&bytes), Err(TransportError::DecodeError));
}

#[test]
fn unknown_storage_tag_is_a_decode_error() {
    let mut bytes = encode_account_record(&sample_record());
    bytes[0] = 3;
    assert_eq!(decode_account_record(&bytes), Err(TransportError::DecodeError));
}

#[test]
fn truncated_cell_is_a_decode_error() {
    let mut bytes = encode_account_record(&sample_record());
    bytes.truncate(bytes.len() - 1);
    assert_eq!(decode_account_record(&bytes), Err(TransportError::DecodeError));
}

#[test]
fn trailing_bytes_are_a_decode_error() {
    let mut bytes = encode_account_record(&sample_record());
    bytes.push(0);
    assert_eq!(decode_account_record(&bytes), Err(TransportError::DecodeError));
}

#[test]
fn bad_cell_presence_flag_is_a_decode_error() {
    let mut bytes: Vec<u8> = Vec::new();
    bytes.push(0);
    bytes.extend_from_slice(&[0u8; 16]);
    bytes.push(7); // neither absent nor present
    bytes.push(0);
    assert_eq!(decode_account_record(&bytes), Err(TransportError::DecodeError));
}

#[test]
fn is_deployed_tracks_storage_state() {
    for (state, deployed) in [
        (StorageState::Uninit, false),
        (StorageState::Active, true),
        (StorageState::Frozen, false),
    ] {
        let rec = AccountRecord { balance: 1, storage_state: state, code: None, data: None };
        assert_eq!(rec.is_deployed(), deployed);
    }
}
