//! Canonical, protocol-agnostic account state: every backend decodes its wire
//! format into these values, so downstream logic sees one representation.

use vstd::prelude::*;

verus! {

/// Storage state of an account as a node reports it.
#[derive(Clone, Copy, PartialEq, Eq, Structural, Debug)]
pub enum StorageState {
    Uninit,
    Active,
    Frozen,
}

/// Timing metadata attached to an observed state: logical time and wall time
/// of the block the observation was taken from.
#[derive(Clone, Copy, PartialEq, Eq, Structural, Debug)]
pub struct GenTimings {
    pub gen_lt: u64,
    pub gen_utime: u64,
}

/// Cursor into an account's transaction chain. When `is_exact` is false,
/// `lt` is only a lower bound on the real logical time.
#[derive(Clone, Copy, PartialEq, Eq, Structural, Debug)]
pub struct LastTransactionId {
    pub is_exact: bool,
    pub lt: u64,
    pub hash_hi: u128,
    pub hash_lo: u128,
}

/// A decoded account record: balance in the smallest currency unit, the
/// storage state, and the opaque code and data cell payloads.
#[derive(Clone, PartialEq, Eq, Debug)]
pub struct AccountRecord {
    pub balance: u128,
    pub storage_state: StorageState,
    pub code: Option<Vec<u8>>,
    pub data: Option<Vec<u8>>,
}

impl AccountRecord {
    /// A record is well formed when each cell payload it carries fits the
    /// four-byte length field of the canonical encoding.
    pub open spec fn wf(self) -> bool {
        &&& (self.code matches Some(c) ==> c@.len() < 0x1_0000_0000)
        &&& (self.data matches Some(d) ==> d@.len() < 0x1_0000_0000)
    }

    /// An account is deployed exactly when its storage state is `Active`.
    pub open spec fn spec_is_deployed(self) -> bool {
        self.storage_state == StorageState::Active
    }

    /// Deployment test used by every backend: true iff the storage state is
    /// `Active`, never derived from any other field.
    pub fn is_deployed(&self) -> (r: bool)
        ensures
            r == self.spec_is_deployed(),
    {
        match self.storage_state {
            StorageState::Active => true,
            _ => false,
        }
    }
}

/// A full observation of an existing account: the record itself plus the
/// timing metadata and transaction cursor the node reported with it.
#[derive(Clone, PartialEq, Eq, Debug)]
pub struct ExistingContract {
    pub account: AccountRecord,
    pub timings: GenTimings,
    pub last_transaction_id: LastTransactionId,
}

impl ExistingContract {
    pub open spec fn wf(self) -> bool {
        self.account.wf()
    }
}

/// What a state query yields: either the node has no storage entry for the
/// address, or it has one and the record is fully populated.
#[derive(Clone, PartialEq, Eq, Debug)]
pub enum RawContractState {
    NotExists,
    Exists(ExistingContract),
}

impl RawContractState {
    pub open spec fn wf(self) -> bool {
        self matches RawContractState::Exists(e) ==> e.wf()
    }
}

/// An account address: workchain plus a 256-bit account id, held as two
/// 128-bit halves so addresses compare structurally.
#[derive(Clone, Copy, PartialEq, Eq, Structural, Debug)]
pub struct Address {
    pub workchain: i32,
    pub id_hi: u128,
    pub id_lo: u128,
}

} // verus!
