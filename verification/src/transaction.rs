//! Transactions as the ledger stores them.

use vstd::prelude::*;

use crate::primitives::{copy_bytes, Address, H256, U256};

verus! {

/// What a transaction does: create a contract or call an address.
#[derive(Clone, Copy, Debug, PartialEq, Eq)]
pub enum Action {
    Create,
    Call(Address),
}

/// The mathematical value of an `Action`.
pub enum ActionView {
    Create,
    Call(Seq<u8>),
}

impl View for Action {
    type V = ActionView;

    open spec fn view(&self) -> ActionView {
        match *self {
            Action::Create => ActionView::Create,
            Action::Call(address) => ActionView::Call(address@),
        }
    }
}

/// The bytes of an address that may be absent.
pub open spec fn address_option_view(address: Option<Address>) -> Option<Seq<u8>> {
    match address {
        Some(a) => Some(a@),
        None => None,
    }
}

/// The fields of a transaction that its sender signed.
#[derive(Clone, Debug, PartialEq, Eq)]
pub struct Transaction {
    pub nonce: U256,
    pub gas_price: U256,
    pub gas: U256,
    pub action: Action,
    pub value: U256,
    pub data: Vec<u8>,
}

/// The mathematical value of a `Transaction`.
pub struct TransactionView {
    pub nonce: U256,
    pub gas_price: U256,
    pub gas: U256,
    pub action: ActionView,
    pub value: U256,
    pub data: Seq<u8>,
}

impl View for Transaction {
    type V = TransactionView;

    open spec fn view(&self) -> TransactionView {
        TransactionView {
            nonce: self.nonce,
            gas_price: self.gas_price,
            gas: self.gas,
            action: self.action@,
            value: self.value,
            data: self.data@,
        }
    }
}

impl Transaction {
    /// A transaction with the same value.
    pub fn copy(&self) -> (r: Transaction)
        ensures
            r@ == self@,
    {
        Transaction {
            nonce: self.nonce,
            gas_price: self.gas_price,
            gas: self.gas,
            action: self.action,
            value: self.value,
            data: copy_bytes(self.data.as_slice()),
        }
    }
}

/// A transaction with its signature, before the signature was checked, and
/// the hash under which the ledger files it.
#[derive(Clone, Debug, PartialEq, Eq)]
pub struct UnverifiedTransaction {
    pub unsigned: Transaction,
    pub v: u64,
    pub r: U256,
    pub s: U256,
    pub hash: H256,
}

/// The mathematical value of an `UnverifiedTransaction`.
pub struct UnverifiedTransactionView {
    pub unsigned: TransactionView,
    pub v: u64,
    pub r: U256,
    pub s: U256,
    pub hash: Seq<u8>,
}

impl View for UnverifiedTransaction {
    type V = UnverifiedTransactionView;

    open spec fn view(&self) -> UnverifiedTransactionView {
        UnverifiedTransactionView {
            unsigned: self.unsigned@,
            v: self.v,
            r: self.r,
            s: self.s,
            hash: self.hash@,
        }
    }
}

impl UnverifiedTransaction {
    /// A transaction with the same value.
    pub fn copy(&self) -> (r: UnverifiedTransaction)
        ensures
            r@ == self@,
    {
        UnverifiedTransaction {
            unsigned: self.unsigned.copy(),
            v: self.v,
            r: self.r,
            s: self.s,
            hash: self.hash,
        }
    }
}

/// A transaction whose signature was checked, with the sender that the
/// signature gave.
#[derive(Clone, Debug, PartialEq, Eq)]
pub struct SignedTransaction {
    pub transaction: UnverifiedTransaction,
    pub sender: Address,
}

/// The mathematical value of a `SignedTransaction`.
pub struct SignedTransactionView {
    pub transaction: UnverifiedTransactionView,
    pub sender: Seq<u8>,
}

impl View for SignedTransaction {
    type V = SignedTransactionView;

    open spec fn view(&self) -> SignedTransactionView {
        SignedTransactionView { transaction: self.transaction@, sender: self.sender@ }
    }
}

impl SignedTransaction {
    /// The hash under which the ledger files the transaction.
    pub fn hash(&self) -> (r: H256)
        ensures
            r == self.transaction.hash,
    {
        self.transaction.hash
    }
}

/// A transaction together with the block that holds it.
#[derive(Clone, Debug, PartialEq, Eq)]
pub struct LocalizedTransaction {
    pub signed: UnverifiedTransaction,
    pub block_number: u64,
    pub block_hash: H256,
    pub transaction_index: usize,
    pub cached_sender: Option<Address>,
}

/// The mathematical value of a `LocalizedTransaction`.
pub struct LocalizedTransactionView {
    pub signed: UnverifiedTransactionView,
    pub block_number: u64,
    pub block_hash: Seq<u8>,
    pub transaction_index: usize,
    pub cached_sender: Option<Seq<u8>>,
}

impl View for LocalizedTransaction {
    type V = LocalizedTransactionView;

    open spec fn view(&self) -> LocalizedTransactionView {
        LocalizedTransactionView {
            signed: self.signed@,
            block_number: self.block_number,
            block_hash: self.block_hash@,
            transaction_index: self.transaction_index,
            cached_sender: address_option_view(self.cached_sender),
        }
    }
}

impl LocalizedTransaction {
    /// A transaction with the same value.
    pub fn copy(&self) -> (r: LocalizedTransaction)
        ensures
            r@ == self@,
    {
        LocalizedTransaction {
            signed: self.signed.copy(),
            block_number: self.block_number,
            block_hash: self.block_hash,
            transaction_index: self.transaction_index,
            cached_sender: self.cached_sender,
        }
    }
}

/// The values of a sequence of localized transactions, in order.
pub open spec fn transaction_views(items: Seq<LocalizedTransaction>) -> Seq<
    LocalizedTransactionView,
> {
    Seq::new(items.len(), |i: int| items[i]@)
}

} // verus!
