//! What the ledger hands to the execution engine and what it takes back.

use vstd::prelude::*;

use crate::primitives::{Address, Bloom, H256, U256};
use crate::receipt::{hash_views, log_views, LogEntry, LogEntryView, Receipt, ReceiptView};

verus! {

/// The environment in which the engine executes one transaction.
#[derive(Clone, Debug, PartialEq, Eq)]
pub struct EnvInfo {
    /// The number of the block that is being executed.
    pub number: u64,
    /// The block's author.
    pub author: Address,
    /// The block's timestamp.
    pub timestamp: u64,
    /// The block's difficulty.
    pub difficulty: U256,
    /// The block's gas limit.
    pub gas_limit: U256,
    /// The hashes of the ancestors that execution can look up, nearest
    /// first. The ledger tracks one.
    pub last_hashes: Vec<H256>,
    /// The gas used in the block before this transaction.
    pub gas_used: U256,
}

/// The mathematical value of an `EnvInfo`.
pub struct EnvInfoView {
    pub number: u64,
    pub author: Seq<u8>,
    pub timestamp: u64,
    pub difficulty: U256,
    pub gas_limit: U256,
    pub last_hashes: Seq<Seq<u8>>,
    pub gas_used: U256,
}

impl View for EnvInfo {
    type V = EnvInfoView;

    open spec fn view(&self) -> EnvInfoView {
        EnvInfoView {
            number: self.number,
            author: self.author@,
            timestamp: self.timestamp,
            difficulty: self.difficulty,
            gas_limit: self.gas_limit,
            last_hashes: hash_views(self.last_hashes@),
            gas_used: self.gas_used,
        }
    }
}

/// The environment of the block that follows a best block with the given
/// number and hash.
pub open spec fn next_env(
    best_number: u64,
    best_hash: Seq<u8>,
    timestamp: u64,
    gas_limit: U256,
) -> EnvInfoView {
    EnvInfoView {
        number: (best_number + 1) as u64,
        author: Seq::new(20, |i: int| 0u8),
        timestamp,
        difficulty: U256 { w0: 0, w1: 0, w2: 0, w3: 0 },
        gas_limit,
        last_hashes: seq![best_hash],
        gas_used: U256 { w0: 0, w1: 0, w2: 0, w3: 0 },
    }
}

impl EnvInfo {
    /// The environment of the block that follows a best block with the
    /// given number and hash. Of the ancestors only the best block's hash is
    /// handed on.
    pub fn following(best_number: u64, best_hash: H256, timestamp: u64, gas_limit: U256) -> (r:
        EnvInfo)
        requires
            best_number < u64::MAX,
        ensures
            r@ == next_env(best_number, best_hash@, timestamp, gas_limit),
    {
        let mut last_hashes: Vec<H256> = Vec::new();
        last_hashes.push(best_hash);
        let r = EnvInfo {
            number: best_number + 1,
            author: Address::zero(),
            timestamp,
            difficulty: U256 { w0: 0, w1: 0, w2: 0, w3: 0 },
            gas_limit,
            last_hashes,
            gas_used: U256 { w0: 0, w1: 0, w2: 0, w3: 0 },
        };
        assert(r@.last_hashes =~= seq![best_hash@]);
        r
    }
}

/// What the engine returns for a transaction that it applied and whose
/// state changes it committed.
#[derive(Clone, Debug, PartialEq, Eq)]
pub struct ApplyOutcome {
    /// The receipt of the execution.
    pub receipt: Receipt,
    /// The bytes that the execution returned.
    pub output: Vec<u8>,
    /// The address that the engine's scheme gives to a contract created by
    /// the transaction's sender with the transaction's nonce and data. It is
    /// read only where the transaction creates a contract.
    pub contract_address: Address,
}

/// The mathematical value of an `ApplyOutcome`.
pub struct ApplyOutcomeView {
    pub receipt: ReceiptView,
    pub output: Seq<u8>,
    pub contract_address: Seq<u8>,
}

impl View for ApplyOutcome {
    type V = ApplyOutcomeView;

    open spec fn view(&self) -> ApplyOutcomeView {
        ApplyOutcomeView {
            receipt: self.receipt@,
            output: self.output@,
            contract_address: self.contract_address@,
        }
    }
}

/// What a caller learns of a transaction that was mined.
#[derive(Clone, Debug, PartialEq, Eq)]
pub struct ExecutionResult {
    pub cumulative_gas_used: U256,
    pub gas_used: U256,
    pub log_bloom: Bloom,
    pub logs: Vec<LogEntry>,
    /// 0 for failure, 1 for success.
    pub status_code: u8,
    pub output: Vec<u8>,
}

/// The mathematical value of an `ExecutionResult`.
pub struct ExecutionResultView {
    pub cumulative_gas_used: U256,
    pub gas_used: U256,
    pub log_bloom: Seq<u8>,
    pub logs: Seq<LogEntryView>,
    pub status_code: u8,
    pub output: Seq<u8>,
}

impl View for ExecutionResult {
    type V = ExecutionResultView;

    open spec fn view(&self) -> ExecutionResultView {
        ExecutionResultView {
            cumulative_gas_used: self.cumulative_gas_used,
            gas_used: self.gas_used,
            log_bloom: self.log_bloom@,
            logs: log_views(self.logs@),
            status_code: self.status_code,
            output: self.output@,
        }
    }
}

/// Why the virtual machine stopped a simulated execution.
#[derive(Clone, Debug, PartialEq, Eq)]
pub enum VmError {
    /// The execution ran out of gas.
    OutOfGas,
    /// The execution reverted.
    Reverted,
    /// Any other failure, with the machine's own words.
    Other(String),
}

/// What the engine returns for a transaction that it simulated.
#[derive(Clone, Debug, PartialEq, Eq)]
pub struct Executed {
    /// The gas that the execution used.
    pub gas_used: U256,
    /// The gas that the execution refunded.
    pub refunded: U256,
    /// Why the machine stopped, where it did not run to the end.
    pub exception: Option<VmError>,
    /// The bytes that the execution returned.
    pub output: Vec<u8>,
}

/// Why a simulated call gave no result.
#[derive(Clone, Debug, PartialEq, Eq)]
pub enum CallError {
    /// The transaction is not known.
    TransactionNotFound,
    /// The state it should run against was pruned.
    StatePruned,
    /// The virtual machine failed outside the execution proper.
    Exceptional(String),
    /// The state is corrupt.
    StateCorrupt,
    /// The execution failed before it started.
    Execution(String),
    /// Gas used and gas refunded do not add up within 256 bits.
    GasOverflow,
}

impl Executed {
    /// Whether the simulated execution reverted or ran out of gas: the two
    /// outcomes that a gas estimate reports and does not fail on.
    pub fn stopped_short(&self) -> (r: bool)
        ensures
            r == (self.exception == Some(VmError::Reverted) || self.exception == Some(
                VmError::OutOfGas,
            )),
    {
        match &self.exception {
            Some(VmError::Reverted) => true,
            Some(VmError::OutOfGas) => true,
            _ => false,
        }
    }

    /// The gas estimate that the execution gives: the gas used plus the gas
    /// refunded, or `None` where the sum does not fit in 256 bits.
    pub fn gas_estimate(&self) -> (r: Option<U256>)
        ensures
            match r {
                Some(gas) => gas.as_nat() == self.gas_used.as_nat() + self.refunded.as_nat(),
                None => self.gas_used.as_nat() + self.refunded.as_nat()
                    >= crate::primitives::u256_limit(),
            },
    {
        self.gas_used.checked_add(&self.refunded)
    }
}

} // verus!
