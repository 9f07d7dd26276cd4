//! Log entries and receipts, as the execution engine hands them over and as
//! the ledger stores them.

use vstd::prelude::*;

use crate::primitives::{copy_bytes, Address, Bloom, H256, U256};
use crate::transaction::address_option_view;

verus! {

/// One log entry that a transaction emitted.
#[derive(Clone, Debug, PartialEq, Eq)]
pub struct LogEntry {
    pub address: Address,
    pub topics: Vec<H256>,
    pub data: Vec<u8>,
}

/// The mathematical value of a `LogEntry`.
pub struct LogEntryView {
    pub address: Seq<u8>,
    pub topics: Seq<Seq<u8>>,
    pub data: Seq<u8>,
}

/// The bytes of each digest of a sequence, in order.
pub open spec fn hash_views(items: Seq<H256>) -> Seq<Seq<u8>> {
    Seq::new(items.len(), |i: int| items[i]@)
}

impl View for LogEntry {
    type V = LogEntryView;

    open spec fn view(&self) -> LogEntryView {
        LogEntryView { address: self.address@, topics: hash_views(self.topics@), data: self.data@ }
    }
}

/// A copy of a list of digests.
pub fn copy_hashes(items: &Vec<H256>) -> (r: Vec<H256>)
    ensures
        r@ == items@,
        hash_views(r@) == hash_views(items@),
{
    let mut out: Vec<H256> = Vec::new();
    let mut i: usize = 0;
    while i < items.len()
        invariant
            i <= items.len(),
            out@ == items@.take(i as int),
        decreases items.len() - i,
    {
        out.push(items[i]);
        assert(items@.take(i as int).push(items@[i as int]) =~= items@.take(i + 1));
        i += 1;
    }
    assert(items@.take(items.len() as int) =~= items@);
    out
}

impl LogEntry {
    /// A log entry with the same value.
    pub fn copy(&self) -> (r: LogEntry)
        ensures
            r@ == self@,
    {
        LogEntry {
            address: self.address,
            topics: copy_hashes(&self.topics),
            data: copy_bytes(self.data.as_slice()),
        }
    }
}

/// The values of a sequence of log entries, in order.
pub open spec fn log_views(items: Seq<LogEntry>) -> Seq<LogEntryView> {
    Seq::new(items.len(), |i: int| items[i]@)
}

/// A log entry together with the block and the transaction that hold it.
#[derive(Clone, Debug, PartialEq, Eq)]
pub struct LocalizedLogEntry {
    pub entry: LogEntry,
    pub block_hash: H256,
    pub block_number: u64,
    pub transaction_hash: H256,
    pub transaction_index: usize,
    pub transaction_log_index: usize,
    pub log_index: usize,
}

/// The mathematical value of a `LocalizedLogEntry`.
pub struct LocalizedLogEntryView {
    pub entry: LogEntryView,
    pub block_hash: Seq<u8>,
    pub block_number: u64,
    pub transaction_hash: Seq<u8>,
    pub transaction_index: usize,
    pub transaction_log_index: usize,
    pub log_index: usize,
}

impl View for LocalizedLogEntry {
    type V = LocalizedLogEntryView;

    open spec fn view(&self) -> LocalizedLogEntryView {
        LocalizedLogEntryView {
            entry: self.entry@,
            block_hash: self.block_hash@,
            block_number: self.block_number,
            transaction_hash: self.transaction_hash@,
            transaction_index: self.transaction_index,
            transaction_log_index: self.transaction_log_index,
            log_index: self.log_index,
        }
    }
}

impl LocalizedLogEntry {
    /// A log entry with the same value.
    pub fn copy(&self) -> (r: LocalizedLogEntry)
        ensures
            r@ == self@,
    {
        LocalizedLogEntry {
            entry: self.entry.copy(),
            block_hash: self.block_hash,
            block_number: self.block_number,
            transaction_hash: self.transaction_hash,
            transaction_index: self.transaction_index,
            transaction_log_index: self.transaction_log_index,
            log_index: self.log_index,
        }
    }
}

/// The values of a sequence of localized log entries, in order.
pub open spec fn localized_log_views(items: Seq<LocalizedLogEntry>) -> Seq<
    LocalizedLogEntryView,
> {
    Seq::new(items.len(), |i: int| items[i]@)
}

/// A copy of a list of localized log entries.
pub fn copy_localized_logs(items: &Vec<LocalizedLogEntry>) -> (r: Vec<LocalizedLogEntry>)
    ensures
        localized_log_views(r@) == localized_log_views(items@),
{
    let mut out: Vec<LocalizedLogEntry> = Vec::new();
    let mut i: usize = 0;
    while i < items.len()
        invariant
            i <= items.len(),
            out@.len() == i,
            forall|j: int| 0 <= j < i ==> out@[j]@ == items@[j]@,
        decreases items.len() - i,
    {
        out.push(items[i].copy());
        i += 1;
    }
    assert(localized_log_views(out@) =~= localized_log_views(items@));
    out
}

/// The mathematical value of a `TransactionOutcome`.
pub enum TransactionOutcomeView {
    Unknown,
    StateRoot(Seq<u8>),
    StatusCode(u8),
}

/// How a transaction ended, as its receipt records it.
#[derive(Clone, Copy, Debug, PartialEq, Eq)]
pub enum TransactionOutcome {
    /// Nothing is recorded.
    Unknown,
    /// The state root after the transaction.
    StateRoot(H256),
    /// The status code: 0 for failure, 1 for success.
    StatusCode(u8),
}

impl View for TransactionOutcome {
    type V = TransactionOutcomeView;

    open spec fn view(&self) -> TransactionOutcomeView {
        match *self {
            TransactionOutcome::Unknown => TransactionOutcomeView::Unknown,
            TransactionOutcome::StateRoot(root) => TransactionOutcomeView::StateRoot(root@),
            TransactionOutcome::StatusCode(code) => TransactionOutcomeView::StatusCode(code),
        }
    }
}

/// What the execution engine reports of an applied transaction.
#[derive(Clone, Debug, PartialEq, Eq)]
pub struct Receipt {
    pub gas_used: U256,
    pub log_bloom: Bloom,
    pub logs: Vec<LogEntry>,
    pub outcome: TransactionOutcome,
}

/// The mathematical value of a `Receipt`.
pub struct ReceiptView {
    pub gas_used: U256,
    pub log_bloom: Seq<u8>,
    pub logs: Seq<LogEntryView>,
    pub outcome: TransactionOutcomeView,
}

impl View for Receipt {
    type V = ReceiptView;

    open spec fn view(&self) -> ReceiptView {
        ReceiptView {
            gas_used: self.gas_used,
            log_bloom: self.log_bloom@,
            logs: log_views(self.logs@),
            outcome: self.outcome@,
        }
    }
}

/// A receipt together with the block and the transaction it belongs to.
#[derive(Clone, Debug, PartialEq, Eq)]
pub struct LocalizedReceipt {
    pub transaction_hash: H256,
    pub transaction_index: usize,
    pub block_hash: H256,
    pub block_number: u64,
    pub cumulative_gas_used: U256,
    pub gas_used: U256,
    pub contract_address: Option<Address>,
    pub logs: Vec<LocalizedLogEntry>,
    pub log_bloom: Bloom,
    pub outcome: TransactionOutcome,
}

/// The mathematical value of a `LocalizedReceipt`.
pub struct LocalizedReceiptView {
    pub transaction_hash: Seq<u8>,
    pub transaction_index: usize,
    pub block_hash: Seq<u8>,
    pub block_number: u64,
    pub cumulative_gas_used: U256,
    pub gas_used: U256,
    pub contract_address: Option<Seq<u8>>,
    pub logs: Seq<LocalizedLogEntryView>,
    pub log_bloom: Seq<u8>,
    pub outcome: TransactionOutcomeView,
}

impl View for LocalizedReceipt {
    type V = LocalizedReceiptView;

    open spec fn view(&self) -> LocalizedReceiptView {
        LocalizedReceiptView {
            transaction_hash: self.transaction_hash@,
            transaction_index: self.transaction_index,
            block_hash: self.block_hash@,
            block_number: self.block_number,
            cumulative_gas_used: self.cumulative_gas_used,
            gas_used: self.gas_used,
            contract_address: address_option_view(self.contract_address),
            logs: localized_log_views(self.logs@),
            log_bloom: self.log_bloom@,
            outcome: self.outcome@,
        }
    }
}

} // verus!
