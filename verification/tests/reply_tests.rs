use nekoton_transport::errors::TransportError;
use nekoton_transport::models::{
    AccountRecord, ExistingContract, GenTimings, LastTransactionId, RawContractState, StorageState,
};
use nekoton_transport::reply::{decode_state_reply, encode_state_reply};

fn existing(balance: u128, state: StorageState, gen_lt: u64) -> ExistingContract {
    ExistingContract {
        account: AccountRecord {
            balance,
            storage_state: state,
            code: Some(vec![9, 9]),
            data: None,
        },
        timings: GenTimings { gen_lt, gen_utime: 1_700_000_000 },
        last_transaction_id: LastTransactionId {
            is_exact: true,
            lt: gen_lt.saturating_sub(1),
            hash_hi: 0x0123_4567_89ab_cdef,
            hash_lo: 0xfedc_ba98_7654_3210,
        },
    }
}

#[test]
fn absent_reply_yields_not_exists_not_an_error() {
    let reply = vec![0u8];
    assert_eq!(decode_state_reply(&reply), Ok(RawContractState::NotExists));
}

#[test]
fn absent_reply_with_trailing_bytes_is_malformed() {
    let reply = vec![0u8, 1u8];
    assert_eq!(decode_state_reply(&reply), Err(TransportError::DecodeError));
}

#[test]
fn empty_reply_is_malformed() {
    let reply: Vec<u8> = Vec::new();
    assert_eq!(decode_state_reply(&reply), Err(TransportError::DecodeError));
}

#[test]
fn present_reply_roundtrips() {
    let state = RawContractState::Exists(existing(77, StorageState::Active, 5000));
    let bytes = encode_state_reply(&state);
    let back = decode_state_reply(&bytes).expect("encoded reply must decode");
    assert_eq!(back, state);
    assert_eq!(encode_state_reply(&back), bytes);
}

#[test]
fn not_exists_roundtrips() {
    let state = RawContractState::NotExists;
    let bytes = encode_state_reply(&state);
    assert_eq!(bytes, vec![0u8]);
    assert_eq!(decode_state_reply(&bytes), Ok(RawContractState::NotExists));
}

#[test]
fn corrupt_exactness_byte_is_malformed() {
    let state = RawContractState::Exists(existing(77, StorageState::Frozen, 123));
    let mut bytes = encode_state_reply(&state);
    bytes[17] = 9;
    assert_eq!(decode_state_reply(&bytes), Err(TransportError::DecodeError));
}

#[test]
fn metadata_fields_decode_to_reported_values() {
    let e = existing(5, StorageState::Uninit, 42);
    let bytes = encode_state_reply(&RawContractState::Exists(e));
    match decode_state_reply(&bytes).unwrap() {
        RawContractState::Exists(back) => {
            assert_eq!(back.timings.gen_lt, 42);
            assert_eq!(back.timings.gen_utime, 1_700_000_000);
            assert!(back.last_transaction_id.is_exact);
            assert_eq!(back.last_transaction_id.lt, 41);
            assert_eq!(back.last_transaction_id.hash_hi, 0x0123_4567_89ab_cdef);
            assert_eq!(back.last_transaction_id.hash_lo, 0xfedc_ba98_7654_3210);
        },
        RawContractState::NotExists => panic!("expected an existing account"),
    }
}
