use crate::address::Address;
use vstd::prelude::*;

verus! {

/// What this crate reads and writes of a ledger account.
#[derive(Debug, Clone, PartialEq, Eq)]
pub struct Account {
    /// The account's address.
    pub key: Address,
    /// The program that owns the account's storage.
    pub owner: Address,
    /// The account's balance.
    pub lamports: u64,
    /// Whether the account's holder approved the current call.
    pub is_signer: bool,
    /// The account's storage.
    pub data: Vec<u8>,
}

/// An account as plain values.
pub struct AccountView {
    pub key: Seq<u8>,
    pub owner: Seq<u8>,
    pub lamports: u64,
    pub is_signer: bool,
    pub data: Seq<u8>,
}

impl View for Account {
    type V = AccountView;

    open spec fn view(&self) -> AccountView {
        AccountView {
            key: self.key@,
            owner: self.owner@,
            lamports: self.lamports,
            is_signer: self.is_signer,
            data: self.data@,
        }
    }
}

impl AccountView {
    /// An address is vacant while it holds neither funds nor storage; the
    /// ledger allocates only at a vacant address.
    pub open spec fn is_vacant(self) -> bool {
        self.lamports == 0 && self.data.len() == 0
    }
}

impl Account {
    /// Whether nothing has been allocated at this address yet.
    pub fn is_vacant(&self) -> (vacant: bool)
        ensures
            vacant == self@.is_vacant(),
    {
        self.lamports == 0 && self.data.len() == 0
    }
}

} // verus!
