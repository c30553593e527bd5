//! Canonical byte codec for account records.
//!
//! Layout: one storage-state tag byte, a 16-byte little-endian balance, then
//! the code and data cell payloads, each as a presence byte (0 or 1) followed,
//! when present, by a 4-byte little-endian length and the payload itself.
//! No trailing bytes are allowed, so every valid byte string is the encoding
//! of exactly the record it decodes to.

use vstd::prelude::*;
use crate::bytes::{le_val, le_bytes, pow256, lemma_le_val_bound, lemma_le_bytes_of_val,
    lemma_pow256_mono, push_le, read_le};
use crate::errors::TransportError;
use crate::models::{AccountRecord, StorageState};
use vstd::slice::{slice_subrange, slice_to_vec};

verus! {

/// Spec-level image of an account record, with cell payloads as sequences.
pub struct RecordView {
    pub balance: u128,
    pub storage_state: StorageState,
    pub code: Option<Seq<u8>>,
    pub data: Option<Seq<u8>>,
}

impl View for AccountRecord {
    type V = RecordView;

    open spec fn view(&self) -> RecordView {
        RecordView {
            balance: self.balance,
            storage_state: self.storage_state,
            code: match self.code {
                Option::Some(c) => Option::Some(c@),
                Option::None => Option::None,
            },
            data: match self.data {
                Option::Some(d) => Option::Some(d@),
                Option::None => Option::None,
            },
        }
    }
}

impl RecordView {
    pub open spec fn wf(self) -> bool {
        &&& (self.code matches Option::Some(c) ==> c.len() < 0x1_0000_0000)
        &&& (self.data matches Option::Some(d) ==> d.len() < 0x1_0000_0000)
    }
}

pub open spec fn tag_of(s: StorageState) -> u8 {
    match s {
        StorageState::Uninit => 0,
        StorageState::Active => 1,
        StorageState::Frozen => 2,
    }
}

pub open spec fn state_of_tag(t: u8) -> StorageState {
    if t == 0 {
        StorageState::Uninit
    } else if t == 1 {
        StorageState::Active
    } else {
        StorageState::Frozen
    }
}

/// Byte form of one optional cell payload.
pub open spec fn cell_part(c: Option<Seq<u8>>) -> Seq<u8> {
    match c {
        Option::None => seq![0u8],
        Option::Some(p) => seq![1u8] + le_bytes(p.len(), 4) + p,
    }
}

/// The canonical byte form of a record.
pub open spec fn encode_spec(r: RecordView) -> Seq<u8> {
    seq![tag_of(r.storage_state)] + le_bytes(r.balance as nat, 16) + cell_part(r.code)
        + cell_part(r.data)
}

/// A cell payload field starts correctly at offset `i`.
pub open spec fn cell_ok(b: Seq<u8>, i: int) -> bool {
    &&& 0 <= i < b.len()
    &&& (b[i] == 0 || b[i] == 1)
    &&& (b[i] == 1 ==> i + 5 <= b.len() && i + 5 + le_val(b.subrange(i + 1, i + 5)) <= b.len())
}

/// Length in bytes of the cell payload field at offset `i`.
pub open spec fn cell_len(b: Seq<u8>, i: int) -> int {
    if b[i] == 0 {
        1
    } else {
        5 + le_val(b.subrange(i + 1, i + 5)) as int
    }
}

/// The payload the cell field at offset `i` carries.
pub open spec fn cell_val(b: Seq<u8>, i: int) -> Option<Seq<u8>> {
    if b[i] == 0 {
        Option::None
    } else {
        Option::Some(b.subrange(i + 5, i + 5 + le_val(b.subrange(i + 1, i + 5))))
    }
}

/// Exactly the byte strings the decoder accepts: a tag under 3, a balance,
/// two well-formed cell fields, and nothing after them.
pub open spec fn valid_record_bytes(b: Seq<u8>) -> bool {
    &&& b.len() >= 17
    &&& b[0] < 3
    &&& cell_ok(b, 17)
    &&& cell_ok(b, 17 + cell_len(b, 17))
    &&& b.len() == 17 + cell_len(b, 17) + cell_len(b, 17 + cell_len(b, 17))
}

/// The record a valid byte string denotes.
pub open spec fn decode_spec(b: Seq<u8>) -> RecordView {
    RecordView {
        balance: le_val(b.subrange(1, 17)) as u128,
        storage_state: state_of_tag(b[0]),
        code: cell_val(b, 17),
        data: cell_val(b, 17 + cell_len(b, 17)),
    }
}

/// A well-formed cell field re-encodes to exactly its own bytes.
proof fn lemma_cell_part_roundtrip(b: Seq<u8>, i: int)
    requires
        cell_ok(b, i),
    ensures
        cell_part(cell_val(b, i)) =~= b.subrange(i, i + cell_len(b, i)),
        (cell_val(b, i) matches Option::Some(p) ==> p.len() < 0x1_0000_0000),
{
    if b[i] == 0 {
        assert(cell_part(cell_val(b, i)) =~= b.subrange(i, i + 1));
    } else {
        let lenfield = b.subrange(i + 1, i + 5);
        let l = le_val(lenfield);
        lemma_le_val_bound(lenfield);
        assert(pow256(4) == 0x1_0000_0000) by {
            reveal_with_fuel(pow256, 5);
        }
        let p = b.subrange(i + 5, i + 5 + l);
        lemma_le_bytes_of_val(lenfield);
        assert(p.len() == l);
        assert(le_bytes(p.len(), 4) =~= lenfield);
        assert(cell_part(cell_val(b, i)) =~= seq![1u8] + lenfield + p);
        assert(seq![1u8] + lenfield + p =~= b.subrange(i, i + cell_len(b, i)));
    }
}

/// Round trip: any valid record byte string re-encodes to itself.
pub proof fn lemma_record_roundtrip(b: Seq<u8>)
    requires
        valid_record_bytes(b),
    ensures
        encode_spec(decode_spec(b)) == b,
        decode_spec(b).wf(),
{
    let r = decode_spec(b);
    let j = 17 + cell_len(b, 17);
    assert(tag_of(state_of_tag(b[0])) == b[0]);
    let balfield = b.subrange(1, 17);
    lemma_le_bytes_of_val(balfield);
    lemma_le_val_bound(balfield);
    assert(pow256(16) == 0x1_0000_0000_0000_0000_0000_0000_0000_0000) by {
        reveal_with_fuel(pow256, 17);
    }
    assert(le_bytes(r.balance as nat, 16) =~= balfield);
    lemma_cell_part_roundtrip(b, 17);
    lemma_cell_part_roundtrip(b, j);
    assert(encode_spec(r) =~= b);
}

/// Encodes a record into its canonical byte form.
pub fn encode_account_record(r: &AccountRecord) -> (out: Vec<u8>)
    requires
        r@.wf(),
    ensures
        out@ == encode_spec(r@),
{
    let mut out: Vec<u8> = Vec::new();
    let tag: u8 = match r.storage_state {
        StorageState::Uninit => 0,
        StorageState::Active => 1,
        StorageState::Frozen => 2,
    };
    out.push(tag);
    push_le(&mut out, r.balance, 16);
    push_cell(&mut out, &r.code);
    push_cell(&mut out, &r.data);
    proof {
        assert(out@ =~= encode_spec(r@));
    }
    out
}

fn push_cell(out: &mut Vec<u8>, c: &Option<Vec<u8>>)
    requires
        (*c matches Option::Some(p) ==> p@.len() < 0x1_0000_0000),
    ensures
        final(out)@ == old(out)@ + cell_part(match *c {
            Option::Some(p) => Option::Some(p@),
            Option::None => Option::None,
        }),
{
    match c {
        Option::None => {
            out.push(0u8);
            proof {
                assert(final(out)@ =~= old(out)@ + cell_part(Option::None));
            }
        },
        Option::Some(p) => {
            out.push(1u8);
            push_le(out, p.len() as u128, 4);
            let mut i: usize = 0;
            let ghost mid = out@;
            while i < p.len()
                invariant
                    i <= p@.len(),
                    out@ == mid + p@.subrange(0, i as int),
                decreases p@.len() - i,
            {
                let byte = p[i];
                out.push(byte);
                proof {
                    assert(out@ =~= mid + p@.subrange(0, i + 1));
                }
                i = i + 1;
            }
            proof {
                assert(p@.subrange(0, p@.len() as int) =~= p@);
                assert(final(out)@ =~= old(out)@ + cell_part(Option::Some(p@)));
            }
        },
    }
}

/// Reads the cell payload field at `off`; on success also returns the offset
/// just past it.
fn read_cell(b: &Vec<u8>, off: usize) -> (r: Result<(Option<Vec<u8>>, usize), TransportError>)
    ensures
        r matches Ok(_) <==> cell_ok(b@, off as int),
        r matches Ok(p) ==> {
            &&& p.1 == off + cell_len(b@, off as int)
            &&& p.1 <= b@.len()
            &&& (match p.0 {
                Option::Some(v) => cell_val(b@, off as int) == Option::Some(v@),
                Option::None => cell_val(b@, off as int) == Option::<Seq<u8>>::None,
            })
        },
        r matches Err(e) ==> e == TransportError::DecodeError,
{
    let n = b.len();
    if off >= n {
        return Err(TransportError::DecodeError);
    }
    let flag = b[off];
    if flag == 0 {
        Ok((None, off + 1))
    } else if flag == 1 {
        if n - off < 5 {
            return Err(TransportError::DecodeError);
        }
        let l = read_le(b, off + 1, 4);
        proof {
            lemma_le_val_bound(b@.subrange(off + 1, off + 5));
            assert(pow256(4) == 0x1_0000_0000) by {
                reveal_with_fuel(pow256, 5);
            }
        }
        let rem: u128 = (n - off - 5) as u128;
        if l > rem {
            return Err(TransportError::DecodeError);
        }
        let l_us: usize = l as usize;
        let payload = slice_to_vec(slice_subrange(b.as_slice(), off + 5, off + 5 + l_us));
        Ok((Some(payload), off + 5 + l_us))
    } else {
        Err(TransportError::DecodeError)
    }
}

/// Decodes a canonical record byte string. Succeeds exactly on valid input;
/// malformed input yields `DecodeError` and never a default value.
pub fn decode_account_record(b: &Vec<u8>) -> (r: Result<AccountRecord, TransportError>)
    ensures
        r matches Ok(_) <==> valid_record_bytes(b@),
        r matches Ok(rec) ==> rec@ == decode_spec(b@) && rec@.wf(),
        r matches Err(e) ==> e == TransportError::DecodeError,
{
    let n = b.len();
    if n < 17 {
        return Err(TransportError::DecodeError);
    }
    let tag = b[0];
    if tag >= 3 {
        return Err(TransportError::DecodeError);
    }
    let storage_state = if tag == 0 {
        StorageState::Uninit
    } else if tag == 1 {
        StorageState::Active
    } else {
        StorageState::Frozen
    };
    let balance_val = read_le(b, 1, 16);
    proof {
        lemma_le_val_bound(b@.subrange(1, 17));
        assert(pow256(16) == 0x1_0000_0000_0000_0000_0000_0000_0000_0000) by {
            reveal_with_fuel(pow256, 17);
        }
    }
    let balance: u128 = balance_val;
    let code_field = match read_cell(b, 17) {
        Ok(p) => p,
        Err(e) => {
            return Err(e);
        },
    };
    let data_field = match read_cell(b, code_field.1) {
        Ok(p) => p,
        Err(e) => {
            return Err(e);
        },
    };
    if data_field.1 != n {
        return Err(TransportError::DecodeError);
    }
    let rec = AccountRecord { balance, storage_state, code: code_field.0, data: data_field.0 };
    proof {
        lemma_le_val_bound(b@.subrange(18int, 22int));
        assert(rec@ == decode_spec(b@));
        lemma_record_roundtrip(b@);
    }
    Ok(rec)
}

} // verus!
