//! The field set handed to the boundary serializer for an existing account:
//! decimal balance string, timings, last-transaction cursor, deployment
//! flag, and the canonical account bytes in base64.

use vstd::prelude::*;
use vstd::string::StringExecFns;
use crate::codec::{encode_spec, encode_account_record};
use crate::models::{GenTimings, LastTransactionId, RawContractState, StorageState};

verus! {

/// The decimal digit sequence of `n`, most significant digit first, with no
/// leading zero except for zero itself.
pub open spec fn dec_of(n: nat) -> Seq<char>
    decreases n,
{
    if n < 10 {
        seq![digit_char(n)]
    } else {
        dec_of(n / 10).push(digit_char(n % 10))
    }
}

pub open spec fn digit_char(d: nat) -> char {
    if d == 0 {
        '0'
    } else if d == 1 {
        '1'
    } else if d == 2 {
        '2'
    } else if d == 3 {
        '3'
    } else if d == 4 {
        '4'
    } else if d == 5 {
        '5'
    } else if d == 6 {
        '6'
    } else if d == 7 {
        '7'
    } else if d == 8 {
        '8'
    } else {
        '9'
    }
}

fn append_digit(s: &mut String, d: u128)
    requires
        d < 10,
    ensures
        final(s)@ == old(s)@ + seq![digit_char(d as nat)],
{
    proof {
        reveal_strlit("0");
        reveal_strlit("1");
        reveal_strlit("2");
        reveal_strlit("3");
        reveal_strlit("4");
        reveal_strlit("5");
        reveal_strlit("6");
        reveal_strlit("7");
        reveal_strlit("8");
        reveal_strlit("9");
    }
    if d == 0 {
        s.append("0");
        assert(final(s)@ =~= old(s)@ + seq![digit_char(d as nat)]);
    } else if d == 1 {
        s.append("1");
        assert(final(s)@ =~= old(s)@ + seq![digit_char(d as nat)]);
    } else if d == 2 {
        s.append("2");
        assert(final(s)@ =~= old(s)@ + seq![digit_char(d as nat)]);
    } else if d == 3 {
        s.append("3");
        assert(final(s)@ =~= old(s)@ + seq![digit_char(d as nat)]);
    } else if d == 4 {
        s.append("4");
        assert(final(s)@ =~= old(s)@ + seq![digit_char(d as nat)]);
    } else if d == 5 {
        s.append("5");
        assert(final(s)@ =~= old(s)@ + seq![digit_char(d as nat)]);
    } else if d == 6 {
        s.append("6");
        assert(final(s)@ =~= old(s)@ + seq![digit_char(d as nat)]);
    } else if d == 7 {
        s.append("7");
        assert(final(s)@ =~= old(s)@ + seq![digit_char(d as nat)]);
    } else if d == 8 {
        s.append("8");
        assert(final(s)@ =~= old(s)@ + seq![digit_char(d as nat)]);
    } else {
        s.append("9");
        assert(final(s)@ =~= old(s)@ + seq![digit_char(d as nat)]);
    }
}

fn push_decimal(n: u128, out: &mut String)
    ensures
        final(out)@ == old(out)@ + dec_of(n as nat),
    decreases n,
{
    if n < 10 {
        append_digit(out, n);
    } else {
        push_decimal(n / 10, out);
        append_digit(out, n % 10);
        proof {
            assert(final(out)@ =~= old(out)@ + dec_of(n as nat));
        }
    }
}

/// Renders a balance in the smallest currency unit as its decimal string.
pub fn balance_to_string(n: u128) -> (s: String)
    ensures
        s@ == dec_of(n as nat),
{
    let mut s = String::from_str("");
    proof {
        reveal_strlit("");
        assert(s@ =~= Seq::<char>::empty());
    }
    push_decimal(n, &mut s);
    proof {
        assert(s@ =~= dec_of(n as nat));
    }
    s
}

/// The base64 text of a byte sequence. The alphabet and padding rules are
/// the outside encoder's; the name stands for whatever it returns, which
/// depends on the bytes alone.
pub uninterp spec fn base64_of(b: Seq<u8>) -> Seq<char>;

/// Relies on base64::encode (standard alphabet, padded): the result is a
/// function of the input bytes alone, four characters for every started
/// group of three bytes, and empty exactly on empty input.
#[verifier::external_body]
fn base64_encode(b: &Vec<u8>) -> (r: String)
    ensures
        r@ == base64_of(b@),
        r@.len() == 4 * ((b@.len() + 2) / 3),
{
    base64::encode(b.as_slice())
}

/// The full field set exposed for one existing account.
pub struct FullContractState {
    /// Balance as a decimal string in the smallest currency unit.
    pub balance: String,
    pub gen_timings: GenTimings,
    pub last_transaction_id: LastTransactionId,
    /// True exactly when the storage state is `Active`.
    pub is_deployed: bool,
    /// Canonical account bytes, base64 encoded.
    pub boc: String,
}

/// Builds the caller-visible field set from a canonical state: `None` for an
/// absent account, otherwise every field pinned to the canonical value — in
/// particular `is_deployed` holds exactly when the storage state is
/// `Active`, whichever backend produced the observation.
pub fn make_full_contract_state(contract_state: &RawContractState) -> (r: Option<
    FullContractState,
>)
    requires
        contract_state.wf(),
    ensures
        r matches Option::Some(_) <==> contract_state matches RawContractState::Exists(_),
        contract_state matches RawContractState::Exists(e) ==> r matches Option::Some(f) && {
            &&& f.balance@ == dec_of(e.account.balance as nat)
            &&& f.gen_timings == e.timings
            &&& f.last_transaction_id == e.last_transaction_id
            &&& f.is_deployed == (e.account.storage_state == StorageState::Active)
            &&& f.boc@ == base64_of(encode_spec(e.account@))
        },
{
    match contract_state {
        RawContractState::Exists(state) => {
            let account_bytes = encode_account_record(&state.account);
            let boc = base64_encode(&account_bytes);
            Some(
                FullContractState {
                    balance: balance_to_string(state.account.balance),
                    gen_timings: state.timings,
                    last_transaction_id: state.last_transaction_id,
                    is_deployed: state.account.is_deployed(),
                    boc,
                },
            )
        },
        RawContractState::NotExists => None,
    }
}

} // verus!
