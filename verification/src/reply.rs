//! The protocol-agnostic state reply: what every backend's wire handler
//! reduces a state query answer to before canonical decoding.
//!
//! Layout: one presence byte. `0` alone means the node has no storage entry
//! for the address. `1` is followed by the timing metadata (genLt, genUtime),
//! the last-transaction cursor (exactness byte, lt, 256-bit hash as two
//! 128-bit halves), and the canonical record bytes.

use vstd::prelude::*;
use crate::bytes::{le_bytes, pow256, lemma_le_val_bound, lemma_le_bytes_of_val, push_le,
    read_le};
use crate::codec::{valid_record_bytes, decode_spec, encode_spec, encode_account_record,
    decode_account_record, lemma_record_roundtrip, tag_of};
use crate::errors::TransportError;
use crate::models::{ExistingContract, GenTimings, LastTransactionId, RawContractState};

verus! {

/// The reply that reports no storage entry.
pub open spec fn absent_reply(b: Seq<u8>) -> bool {
    b.len() == 1 && b[0] == 0
}

/// The reply that reports an entry, with all metadata fields in range and a
/// valid canonical record after them.
pub open spec fn present_reply(b: Seq<u8>) -> bool {
    &&& b.len() > 58
    &&& b[0] == 1
    &&& (b[17] == 0 || b[17] == 1)
    &&& valid_record_bytes(b.skip(58))
}

/// Exactly the byte strings a conforming node may answer with.
pub open spec fn valid_state_reply(b: Seq<u8>) -> bool {
    absent_reply(b) || present_reply(b)
}

/// The byte form a given observation of an existing account must have come
/// from.
pub open spec fn existing_reply_bytes(e: ExistingContract) -> Seq<u8> {
    seq![1u8] + le_bytes(e.timings.gen_lt as nat, 8) + le_bytes(e.timings.gen_utime as nat, 8)
        + seq![if e.last_transaction_id.is_exact { 1u8 } else { 0u8 }]
        + le_bytes(e.last_transaction_id.lt as nat, 8)
        + le_bytes(e.last_transaction_id.hash_hi as nat, 16)
        + le_bytes(e.last_transaction_id.hash_lo as nat, 16) + encode_spec(e.account@)
}

pub open spec fn reply_bytes(s: RawContractState) -> Seq<u8> {
    match s {
        RawContractState::NotExists => seq![0u8],
        RawContractState::Exists(e) => existing_reply_bytes(e),
    }
}

/// Decodes a state reply. An absent entry always yields `NotExists` and never
/// an error; a present entry yields a fully populated record; anything else
/// is a `DecodeError`, never a default value. A successful decode pins the
/// input down to the re-encoding of its result.
pub fn decode_state_reply(b: &Vec<u8>) -> (r: Result<RawContractState, TransportError>)
    ensures
        r matches Ok(_) <==> valid_state_reply(b@),
        absent_reply(b@) ==> r == Ok::<RawContractState, TransportError>(
            RawContractState::NotExists,
        ),
        r matches Ok(s) ==> s.wf() && reply_bytes(s) == b@,
        r matches Ok(s) ==> ((s matches RawContractState::NotExists) <==> absent_reply(b@)),
        r matches Err(e) ==> e == TransportError::DecodeError,
{
    let n = b.len();
    if n == 0 {
        return Err(TransportError::DecodeError);
    }
    let presence = b[0];
    if presence == 0 {
        if n == 1 {
            proof {
                assert(reply_bytes(RawContractState::NotExists) =~= b@);
            }
            return Ok(RawContractState::NotExists);
        }
        return Err(TransportError::DecodeError);
    }
    if presence != 1 || n <= 58 {
        return Err(TransportError::DecodeError);
    }
    proof {
        lemma_le_val_bound(b@.subrange(1, 9));
        lemma_le_val_bound(b@.subrange(9, 17));
        lemma_le_val_bound(b@.subrange(18, 26));
        assert(pow256(8) == 0x1_0000_0000_0000_0000) by {
            reveal_with_fuel(pow256, 9);
        }
    }
    let gen_lt = read_le(b, 1, 8) as u64;
    let gen_utime = read_le(b, 9, 8) as u64;
    let exact_byte = b[17];
    if exact_byte > 1 {
        return Err(TransportError::DecodeError);
    }
    let lt = read_le(b, 18, 8) as u64;
    let hash_hi = read_le(b, 26, 16);
    let hash_lo = read_le(b, 42, 16);
    let mut record_bytes: Vec<u8> = Vec::new();
    let mut i: usize = 58;
    while i < n
        invariant
            58 <= i <= n,
            n == b@.len(),
            record_bytes@ == b@.subrange(58, i as int),
        decreases n - i,
    {
        let byte = b[i];
        record_bytes.push(byte);
        proof {
            assert(b@.subrange(58, i + 1) =~= b@.subrange(58, i as int).push(b@[i as int]));
        }
        i = i + 1;
    }
    proof {
        assert(record_bytes@ =~= b@.skip(58));
    }
    let account = match decode_account_record(&record_bytes) {
        Ok(rec) => rec,
        Err(e) => {
            return Err(e);
        },
    };
    let e = ExistingContract {
        account,
        timings: GenTimings { gen_lt, gen_utime },
        last_transaction_id: LastTransactionId {
            is_exact: exact_byte == 1,
            lt,
            hash_hi,
            hash_lo,
        },
    };
    proof {
        lemma_record_roundtrip(b@.skip(58));
        lemma_le_bytes_of_val(b@.subrange(1, 9));
        lemma_le_bytes_of_val(b@.subrange(9, 17));
        lemma_le_bytes_of_val(b@.subrange(18, 26));
        lemma_le_bytes_of_val(b@.subrange(26, 42));
        lemma_le_bytes_of_val(b@.subrange(42, 58));
        assert(existing_reply_bytes(e) =~= b@);
    }
    Ok(RawContractState::Exists(e))
}

/// The storage-state tag of an existing account sits at a fixed position of
/// its reply bytes, right after the presence byte and the 57 metadata bytes.
proof fn lemma_deployed_tag(e: ExistingContract)
    ensures
        existing_reply_bytes(e).len() > 58,
        existing_reply_bytes(e)[58] == tag_of(e.account.storage_state),
{
    crate::bytes::lemma_le_bytes_len(e.timings.gen_lt as nat, 8);
    crate::bytes::lemma_le_bytes_len(e.timings.gen_utime as nat, 8);
    crate::bytes::lemma_le_bytes_len(e.last_transaction_id.lt as nat, 8);
    crate::bytes::lemma_le_bytes_len(e.last_transaction_id.hash_hi as nat, 16);
    crate::bytes::lemma_le_bytes_len(e.last_transaction_id.hash_lo as nat, 16);
    crate::bytes::lemma_le_bytes_len(e.account@.balance as nat, 16);
    assert(encode_spec(e.account@)[0] == tag_of(e.account@.storage_state));
    assert(existing_reply_bytes(e)[58] == encode_spec(e.account@)[0]);
}

/// Equivalent node data yields the same deployment answer whichever backend
/// produced the observation: two existing-account observations with the same
/// reply bytes agree on whether the account is deployed.
pub proof fn lemma_deployed_consistent(e1: ExistingContract, e2: ExistingContract)
    requires
        existing_reply_bytes(e1) == existing_reply_bytes(e2),
    ensures
        e1.account.spec_is_deployed() <==> e2.account.spec_is_deployed(),
{
    lemma_deployed_tag(e1);
    lemma_deployed_tag(e2);
}

/// Encodes an observation back into the reply form; the inverse of
/// `decode_state_reply` on well-formed values.
pub fn encode_state_reply(s: &RawContractState) -> (out: Vec<u8>)
    requires
        s.wf(),
    ensures
        out@ == reply_bytes(*s),
{
    match s {
        RawContractState::NotExists => {
            let mut out: Vec<u8> = Vec::new();
            out.push(0u8);
            proof {
                assert(out@ =~= reply_bytes(*s));
            }
            out
        },
        RawContractState::Exists(e) => {
            let mut out: Vec<u8> = Vec::new();
            out.push(1u8);
            push_le(&mut out, e.timings.gen_lt as u128, 8);
            push_le(&mut out, e.timings.gen_utime as u128, 8);
            if e.last_transaction_id.is_exact {
                out.push(1u8);
            } else {
                out.push(0u8);
            }
            push_le(&mut out, e.last_transaction_id.lt as u128, 8);
            push_le(&mut out, e.last_transaction_id.hash_hi, 16);
            push_le(&mut out, e.last_transaction_id.hash_lo, 16);
            let mut rec = encode_account_record(&e.account);
            out.append(&mut rec);
            proof {
                assert(out@ =~= reply_bytes(*s));
            }
            out
        },
    }
}

} // verus!
