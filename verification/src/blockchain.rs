//! The simulated blockchain: the ledger behind the limits it holds
//! transactions to, with the queries and the admission of raw transactions.

use vstd::prelude::*;

pub use crate::chain_state::{
    ChainState, ChainView, EthereumBlock, BLOCK_GAS_LIMIT, MIN_GAS_PRICE_GWEI,
};
use crate::chain_state::{lemma_accepted_logs_push, lemma_block_by_number_exists, mined_result};
use crate::confidential::{ConfidentialCtx, CtxView};
use crate::decode::{decode_transaction, decoded_transaction};
use crate::error::Error;
use crate::execution::{
    next_env, ApplyOutcome, ApplyOutcomeView, CallError, EnvInfo, Executed, ExecutionResult,
};
use crate::filter::{accepted_logs, insert_log, sorted_by_block, BlockId, Filter};
use crate::primitives::{Address, H256, U256};
use crate::receipt::{localized_log_views, LocalizedLogEntry, LocalizedReceipt};
use crate::transaction::{
    address_option_view, LocalizedTransaction, SignedTransaction, SignedTransactionView,
    UnverifiedTransaction, UnverifiedTransactionView,
};

verus! {

/// The simulated blockchain: the ledger with the limits that it holds
/// transactions to.
pub struct Blockchain {
    gas_price: U256,
    block_gas_limit: U256,
    chain_state: ChainState,
}

/// The mathematical value of a `Blockchain`.
pub struct BlockchainView {
    /// The minimum gas price.
    pub gas_price: U256,
    /// The most gas that a transaction may ask for.
    pub block_gas_limit: U256,
    /// The ledger.
    pub chain: ChainView,
}

impl View for Blockchain {
    type V = BlockchainView;

    closed spec fn view(&self) -> BlockchainView {
        BlockchainView {
            gas_price: self.gas_price,
            block_gas_limit: self.block_gas_limit,
            chain: self.chain_state@,
        }
    }
}

impl Blockchain {
    /// The invariant of the blockchain: that of its ledger.
    pub open spec fn wf(&self) -> bool {
        self@.chain.wf()
    }

    /// A blockchain that holds the genesis block and nothing else.
    pub fn new(gas_price: U256, block_gas_limit: U256) -> (r: Blockchain)
        ensures
            r.wf(),
            r@ == (BlockchainView { gas_price, block_gas_limit, chain: ChainView::genesis() }),
    {
        Blockchain { gas_price, block_gas_limit, chain_state: ChainState::new() }
    }

    /// The minimum gas price.
    pub fn gas_price(&self) -> (r: U256)
        ensures
            r == self@.gas_price,
    {
        self.gas_price
    }

    /// The number of the best block.
    pub fn best_block_number(&self) -> (r: u64)
        ensures
            r == self@.chain.block_number,
    {
        self.chain_state.best_block_number()
    }

    /// The best block.
    pub fn get_latest_block(&self) -> (r: &EthereumBlock)
        requires
            self.wf(),
        ensures
            self@.chain.block_by_number(self@.chain.block_number) == Some(r@),
    {
        proof {
            lemma_block_by_number_exists(self@.chain, self@.chain.block_number);
        }
        match self.chain_state.get_block_by_number(self.chain_state.best_block_number()) {
            Some(block) => block,
            None => vstd::pervasive::unreached(),
        }
    }

    /// The block that `number` leads to, if there is one.
    pub fn get_block_by_number(&self, number: u64) -> (r: Option<&EthereumBlock>)
        ensures
            match r {
                Some(block) => self@.chain.block_by_number(number) == Some(block@),
                None => self@.chain.block_by_number(number) is None,
            },
    {
        self.chain_state.get_block_by_number(number)
    }

    /// The block that `hash` leads to, if there is one.
    pub fn get_block_by_hash(&self, hash: H256) -> (r: Option<&EthereumBlock>)
        ensures
            match r {
                Some(block) => self@.chain.block_by_hash(hash@) == Some(block@),
                None => self@.chain.block_by_hash(hash@) is None,
            },
    {
        self.chain_state.get_block_by_hash(&hash)
    }

    /// The block that `id` leads to, if there is one.
    pub fn get_block(&self, id: BlockId) -> (r: Option<&EthereumBlock>)
        requires
            self.wf(),
        ensures
            match r {
                Some(block) => self@.chain.block(id) == Some(block@),
                None => self@.chain.block(id) is None,
            },
    {
        match id {
            BlockId::Hash(hash) => self.get_block_by_hash(hash),
            BlockId::Number(number) => self.get_block_by_number(number),
            BlockId::Latest => Some(self.get_latest_block()),
            BlockId::Earliest => self.get_block_by_number(0),
        }
    }

    /// The block that `id` leads to, or `Error::BlockNotFound`.
    pub fn get_block_unwrap(&self, id: BlockId) -> (r: Result<&EthereumBlock, Error>)
        requires
            self.wf(),
        ensures
            match r {
                Ok(block) => self@.chain.block(id) == Some(block@),
                Err(e) => self@.chain.block(id) is None && e == Error::BlockNotFound,
            },
    {
        match self.get_block(id) {
            Some(block) => Ok(block),
            None => Err(Error::BlockNotFound),
        }
    }

    /// The transaction that `hash` leads to, if there is one.
    pub fn get_txn_by_hash(&self, hash: H256) -> (r: Option<&LocalizedTransaction>)
        ensures
            match r {
                Some(txn) => self@.chain.transaction_by_hash(hash@) == Some(txn@),
                None => self@.chain.transaction_by_hash(hash@) is None,
            },
    {
        self.chain_state.get_txn_by_hash(&hash)
    }

    /// The receipt that the transaction hash `hash` leads to, if there is
    /// one.
    pub fn get_txn_receipt_by_hash(&self, hash: H256) -> (r: Option<&LocalizedReceipt>)
        ensures
            match r {
                Some(receipt) => self@.chain.receipt_by_hash(hash@) == Some(receipt@),
                None => self@.chain.receipt_by_hash(hash@) is None,
            },
    {
        self.chain_state.get_txn_receipt_by_hash(&hash)
    }

    /// The transaction at place `index` of the block that `number` leads to.
    pub fn get_txn_by_number_and_index(&self, number: u64, index: u32) -> (r: Option<
        &LocalizedTransaction,
    >)
        ensures
            match r {
                Some(txn) => ChainView::transaction_in(
                    self@.chain.block_by_number(number),
                    index,
                ) == Some(txn@),
                None => ChainView::transaction_in(self@.chain.block_by_number(number), index)
                    is None,
            },
    {
        transaction_at(self.chain_state.get_block_by_number(number), index)
    }

    /// The transaction at place `index` of the block that `block_hash`
    /// leads to.
    pub fn get_txn_by_block_hash_and_index(&self, block_hash: H256, index: u32) -> (r: Option<
        &LocalizedTransaction,
    >)
        ensures
            match r {
                Some(txn) => ChainView::transaction_in(
                    self@.chain.block_by_hash(block_hash@),
                    index,
                ) == Some(txn@),
                None => ChainView::transaction_in(self@.chain.block_by_hash(block_hash@), index)
                    is None,
            },
    {
        transaction_at(self.chain_state.get_block_by_hash(&block_hash), index)
    }

    /// The transaction at place `index` of the block that `id` leads to.
    pub fn get_txn(&self, id: BlockId, index: u32) -> (r: Option<&LocalizedTransaction>)
        ensures
            match r {
                Some(txn) => ChainView::transaction_in(self@.chain.block(id), index) == Some(
                    txn@,
                ),
                None => ChainView::transaction_in(self@.chain.block(id), index) is None,
            },
    {
        match id {
            BlockId::Hash(hash) => self.get_txn_by_block_hash_and_index(hash, index),
            BlockId::Number(number) => self.get_txn_by_number_and_index(number, index),
            BlockId::Latest => self.get_txn_by_number_and_index(self.best_block_number(), index),
            BlockId::Earliest => self.get_txn_by_number_and_index(0, index),
        }
    }

    /// The log entries that the filter accepts in the blocks of its range,
    /// in ascending order of block number, or `Error::BlockNotFound` where
    /// an end of the range names no block.
    pub fn logs(&self, filter: &Filter) -> (r: Result<Vec<LocalizedLogEntry>, Error>)
        requires
            self.wf(),
        ensures
            match r {
                Ok(logs) => self@.chain.query_logs(*filter) == Some(localized_log_views(logs@)),
                Err(e) => self@.chain.query_logs(*filter) is None && e == Error::BlockNotFound,
            },
    {
        self.logs_between(filter, filter.from_block, filter.to_block)
    }

    /// The log entries that the filter accepts in the blocks from
    /// `from_block` to `to_block`, in ascending order of block number, or
    /// `Error::BlockNotFound` where one of the two names no block. The
    /// filter's own range plays no part.
    pub fn logs_between(&self, filter: &Filter, from_block: BlockId, to_block: BlockId) -> (r:
        Result<Vec<LocalizedLogEntry>, Error>)
        requires
            self.wf(),
        ensures
            match r {
                Ok(logs) => self@.chain.query_logs_between(*filter, from_block, to_block) == Some(
                    localized_log_views(logs@),
                ),
                Err(e) => self@.chain.query_logs_between(*filter, from_block, to_block) is None
                    && e == Error::BlockNotFound,
            },
    {
        let from = match self.get_block_unwrap(from_block) {
            Ok(block) => block.number_u64(),
            Err(e) => {
                return Err(e);
            },
        };
        let to = match self.get_block_unwrap(to_block) {
            Ok(block) => block.number_u64(),
            Err(e) => {
                return Err(e);
            },
        };
        let ghost chain = self@.chain;
        let mut found: Vec<LocalizedLogEntry> = Vec::new();
        let mut number: u64 = from;
        let mut more: bool = from <= to;
        assert(localized_log_views(found@) =~= Seq::empty());
        while more
            invariant
                chain == self@.chain,
                more ==> from <= number <= to,
                more ==> localized_log_views(found@) == sorted_by_block(
                    accepted_logs(*filter, chain.logs_in_range(from as int, number - 1)),
                ),
                !more ==> localized_log_views(found@) == sorted_by_block(
                    accepted_logs(*filter, chain.logs_in_range(from as int, to as int)),
                ),
            decreases (if more { to - number + 1 } else { 0 }),
        {
            let ghost before = chain.logs_in_range(from as int, number - 1);
            match self.chain_state.get_block_by_number(number) {
                Some(block) => {
                    let mut i: usize = 0;
                    assert(before + block@.logs.take(0) =~= before);
                    while i < block.logs.len()
                        invariant
                            i <= block.logs@.len(),
                            block@.logs.len() == block.logs@.len(),
                            block@.logs == localized_log_views(block.logs@),
                            localized_log_views(found@) == sorted_by_block(
                                accepted_logs(*filter, before + block@.logs.take(i as int)),
                            ),
                        decreases block.logs.len() - i,
                    {
                        proof {
                            let seen = before + block@.logs.take(i as int);
                            lemma_accepted_logs_push(*filter, seen, block@.logs[i as int]);
                            assert(seen.push(block@.logs[i as int]) =~= before
                                + block@.logs.take(i + 1));
                            assert(accepted_logs(*filter, seen).push(
                                block@.logs[i as int],
                            ).drop_last() =~= accepted_logs(*filter, seen));
                        }
                        if filter.matches(&block.logs[i].entry) {
                            insert_log(&mut found, block.logs[i].copy());
                        }
                        i += 1;
                    }
                    assert(block@.logs.take(block.logs@.len() as int) =~= block@.logs);
                },
                None => {
                    assert(before + chain.block_logs(number) =~= before);
                },
            }
            assert(chain.logs_in_range(from as int, number as int) == before + chain.block_logs(
                number,
            ));
            if number == to {
                more = false;
            } else {
                number = number + 1;
            }
        }
        Ok(found)
    }
}

/// The transaction at place `index` of a block, if the block is there and
/// has so many.
fn transaction_at(block: Option<&EthereumBlock>, index: u32) -> (r: Option<&LocalizedTransaction>)
    ensures
        match r {
            Some(txn) => match block {
                Some(b) => ChainView::transaction_in(Some(b@), index) == Some(txn@),
                None => false,
            },
            None => match block {
                Some(b) => ChainView::transaction_in(Some(b@), index) is None,
                None => true,
            },
        },
{
    match block {
        Some(b) => {
            if (index as usize) < b.transactions.len() {
                Some(&b.transactions[index as usize])
            } else {
                None
            }
        },
        None => None,
    }
}

/// The value of what the engine returned for a transaction: its outcome, or
/// the words of its failure.
pub open spec fn applied_view(applied: Result<ApplyOutcome, String>) -> Result<
    ApplyOutcomeView,
    Seq<char>,
> {
    match applied {
        Ok(outcome) => Ok(outcome@),
        Err(words) => Err(words@),
    }
}

impl BlockchainView {
    /// Whether `after` and `r` are what mining `txn` leaves and returns,
    /// given what the engine returned for it. Where the engine failed, or
    /// its receipt carries no status code, the blockchain is as before.
    pub open spec fn mined(
        self,
        txn: SignedTransactionView,
        timestamp: u64,
        applied: Result<ApplyOutcomeView, Seq<char>>,
        after: BlockchainView,
        r: Result<(H256, ExecutionResult), Error>,
    ) -> bool {
        match applied {
            Err(words) => after == self && r is Err && r.unwrap_err() is Execution
                && r.unwrap_err()->Execution_0@ == words,
            Ok(outcome) => if outcome.receipt.outcome is StatusCode {
                &&& after == (BlockchainView {
                    chain: self.chain.mined(txn, timestamp, self.block_gas_limit, outcome),
                    ..self
                })
                &&& r is Ok
                &&& r.unwrap().0@ == txn.transaction.hash
                &&& r.unwrap().1@ == mined_result(outcome)
            } else {
                after == self && r == Err::<(H256, ExecutionResult), Error>(
                    Error::UnsupportedOutcome,
                )
            },
        }
    }

    /// Why a decoded transaction is refused before its signature is looked
    /// at, if it is.
    pub open spec fn refused_unsigned(self, decoded: Option<UnverifiedTransactionView>) -> Option<
        Error,
    > {
        match decoded {
            None => Some(Error::Decode),
            Some(t) => if t.unsigned.gas.as_nat() > self.block_gas_limit.as_nat() {
                Some(Error::GasLimit)
            } else {
                None
            },
        }
    }

    /// Why a transaction that was not refused unsigned is refused once its
    /// signature gave `sender`, if it is.
    pub open spec fn refused_signed(
        self,
        t: UnverifiedTransactionView,
        sender: Option<Seq<u8>>,
    ) -> Option<Error> {
        if sender is None {
            Some(Error::Signature)
        } else if t.unsigned.gas_price.as_nat() < self.gas_price.as_nat() {
            Some(Error::GasPrice)
        } else {
            None
        }
    }
}

impl Blockchain {
    /// Files the block that is mined from `txn`, given what the engine
    /// returned for it. Where the engine failed, nothing is filed and its
    /// words are handed on.
    pub fn apply_outcome(
        &mut self,
        txn: &SignedTransaction,
        timestamp: u64,
        applied: Result<ApplyOutcome, String>,
    ) -> (r: Result<(H256, ExecutionResult), Error>)
        requires
            old(self).wf(),
            old(self)@.chain.block_number < u64::MAX,
        ensures
            final(self).wf(),
            old(self)@.mined(txn@, timestamp, applied_view(applied), final(self)@, r),
    {
        let outcome = match applied {
            Ok(outcome) => outcome,
            Err(words) => {
                return Err(Error::Execution(words));
            },
        };
        match outcome.receipt.outcome {
            crate::receipt::TransactionOutcome::StatusCode(_) => {},
            _ => {
                return Err(Error::UnsupportedOutcome);
            },
        }
        let mined = self.chain_state.commit_block(txn, timestamp, self.block_gas_limit, outcome);
        Ok(mined)
    }

    /// Mines a block that holds `txn` alone. `engine` applies the
    /// transaction and commits its state changes; it is handed the
    /// environment of the new block, the transaction, and a fresh
    /// confidential context that is seeded with the best block's hash. All
    /// of it happens with the blockchain held exclusively.
    pub fn mine_block<E>(&mut self, txn: SignedTransaction, timestamp: u64, engine: E) -> (r:
        Result<(H256, ExecutionResult), Error>) where
        E: FnOnce(EnvInfo, SignedTransaction, ConfidentialCtx) -> Result<ApplyOutcome, String>,

        requires
            old(self).wf(),
            old(self)@.chain.block_number < u64::MAX,
            forall|env: EnvInfo, t: SignedTransaction, ctx: ConfidentialCtx|
                engine.requires((env, t, ctx)),
        ensures
            final(self).wf(),
            exists|
                env: EnvInfo,
                t: SignedTransaction,
                ctx: ConfidentialCtx,
                applied: Result<ApplyOutcome, String>,
            |
                env@ == next_env(
                    old(self)@.chain.block_number,
                    old(self)@.chain.best_block().hash,
                    timestamp,
                    old(self)@.block_gas_limit,
                ) && t@ == txn@ && ctx@ == CtxView::fresh(old(self)@.chain.best_block().hash)
                    && engine.ensures((env, t, ctx), applied) && old(self)@.mined(
                    txn@,
                    timestamp,
                    applied_view(applied),
                    final(self)@,
                    r,
                ),
    {
        let best = self.chain_state.best_block();
        let best_hash = best.hash();
        assert(best@.number == self@.chain.block_number);
        let env = EnvInfo::following(
            self.chain_state.best_block_number(),
            best_hash,
            timestamp,
            self.block_gas_limit,
        );
        let ctx = ConfidentialCtx::new(best_hash);
        let handed = SignedTransaction {
            transaction: txn.transaction.copy(),
            sender: txn.sender,
        };
        let ghost env0 = env;
        let ghost t0 = handed;
        let ghost ctx0 = ctx;
        let applied = engine(env, handed, ctx);
        let ghost applied0 = applied;
        let r = self.apply_outcome(&txn, timestamp, applied);
        assert(engine.ensures((env0, t0, ctx0), applied0) && old(self)@.mined(
            txn@,
            timestamp,
            applied_view(applied0),
            self@,
            r,
        ));
        r
    }

    /// Takes a raw transaction in: decodes it, holds it to the gas limit,
    /// has its signature checked, holds it to the minimum gas price, and
    /// mines a block with it. `recover` checks the signature and gives the
    /// sender; `engine` is handed on to `mine_block`. A transaction that is
    /// refused leaves the blockchain as it was.
    pub fn send_raw_transaction<V, E>(
        &mut self,
        raw: Vec<u8>,
        timestamp: u64,
        recover: V,
        engine: E,
    ) -> (r: Result<(H256, ExecutionResult), Error>) where
        V: FnOnce(UnverifiedTransaction) -> Option<Address>,
        E: FnOnce(EnvInfo, SignedTransaction, ConfidentialCtx) -> Result<ApplyOutcome, String>,

        requires
            old(self).wf(),
            old(self)@.chain.block_number < u64::MAX,
            forall|t: UnverifiedTransaction| recover.requires((t,)),
            forall|env: EnvInfo, t: SignedTransaction, ctx: ConfidentialCtx|
                engine.requires((env, t, ctx)),
        ensures
            final(self).wf(),
            match old(self)@.refused_unsigned(decoded_transaction(raw@)) {
                Some(e) => r == Err::<(H256, ExecutionResult), Error>(e)
                    && final(self)@ == old(self)@,
                None => exists|u: UnverifiedTransaction, sender: Option<Address>|
                    Some(u@) == decoded_transaction(raw@) && recover.ensures((u,), sender)
                        && match old(self)@.refused_signed(u@, address_option_view(sender)) {
                        Some(e) => r == Err::<(H256, ExecutionResult), Error>(e) && final(self)@
                            == old(self)@,
                        None => exists|
                            env: EnvInfo,
                            t: SignedTransaction,
                            ctx: ConfidentialCtx,
                            applied: Result<ApplyOutcome, String>,
                        |
                            env@ == next_env(
                                old(self)@.chain.block_number,
                                old(self)@.chain.best_block().hash,
                                timestamp,
                                old(self)@.block_gas_limit,
                            ) && t@ == (SignedTransactionView {
                                transaction: u@,
                                sender: sender.unwrap()@,
                            }) && ctx@ == CtxView::fresh(old(self)@.chain.best_block().hash)
                                && engine.ensures((env, t, ctx), applied) && old(self)@.mined(
                                t@,
                                timestamp,
                                applied_view(applied),
                                final(self)@,
                                r,
                            ),
                    },
            },
    {
        let decoded = match decode_transaction(raw.as_slice()) {
            Ok(t) => t,
            Err(e) => {
                return Err(e);
            },
        };
        if decoded.unsigned.gas.gt(&self.block_gas_limit) {
            return Err(Error::GasLimit);
        }
        let shown = decoded.copy();
        let ghost shown0 = shown;
        let sender = recover(shown);
        let r = match sender {
            None => Err(Error::Signature),
            Some(address) => {
                if decoded.unsigned.gas_price.lt(&self.gas_price) {
                    Err(Error::GasPrice)
                } else {
                    let txn = SignedTransaction { transaction: decoded, sender: address };
                    self.mine_block(txn, timestamp, engine)
                }
            },
        };
        assert(Some(shown0@) == decoded_transaction(raw@) && recover.ensures((shown0,), sender));
        r
    }

    /// Simulates a transaction on top of the best block, without filing
    /// anything. `engine` runs it; it is handed the environment of the next
    /// block, with no limit on gas, and the transaction. No confidential
    /// context goes with it.
    pub fn simulate_transaction<E>(
        &self,
        transaction: SignedTransaction,
        _id: BlockId,
        timestamp: u64,
        engine: E,
    ) -> (r: Result<Executed, CallError>) where
        E: FnOnce(EnvInfo, SignedTransaction) -> Result<Executed, CallError>,

        requires
            self.wf(),
            self@.chain.block_number < u64::MAX,
            forall|env: EnvInfo, t: SignedTransaction| engine.requires((env, t)),
        ensures
            exists|env: EnvInfo|
                env@ == next_env(
                    self@.chain.block_number,
                    self@.chain.best_block().hash,
                    timestamp,
                    U256 { w0: u64::MAX, w1: u64::MAX, w2: u64::MAX, w3: u64::MAX },
                ) && engine.ensures((env, transaction), r),
    {
        let best = self.chain_state.best_block();
        assert(best@.number == self@.chain.block_number);
        let env = EnvInfo::following(
            self.chain_state.best_block_number(),
            best.hash(),
            timestamp,
            U256 { w0: u64::MAX, w1: u64::MAX, w2: u64::MAX, w3: u64::MAX },
        );
        let ghost env0 = env;
        let r = engine(env, transaction);
        assert(engine.ensures((env0, transaction), r));
        r
    }

    /// Estimates the gas of a transaction: simulates it and adds the gas
    /// that the simulation used to the gas that it refunded. A simulation
    /// that reverted or ran out of gas still gives an estimate.
    pub fn estimate_gas<E>(
        &self,
        transaction: SignedTransaction,
        id: BlockId,
        timestamp: u64,
        engine: E,
    ) -> (r: Result<U256, CallError>) where
        E: FnOnce(EnvInfo, SignedTransaction) -> Result<Executed, CallError>,

        requires
            self.wf(),
            self@.chain.block_number < u64::MAX,
            forall|env: EnvInfo, t: SignedTransaction| engine.requires((env, t)),
        ensures
            exists|env: EnvInfo, simulated: Result<Executed, CallError>|
                env@ == next_env(
                    self@.chain.block_number,
                    self@.chain.best_block().hash,
                    timestamp,
                    U256 { w0: u64::MAX, w1: u64::MAX, w2: u64::MAX, w3: u64::MAX },
                ) && engine.ensures((env, transaction), simulated) && r == gas_estimate_of(
                    simulated,
                ),
    {
        let simulated = self.simulate_transaction(transaction, id, timestamp, engine);
        let ghost simulated0 = simulated;
        let r = estimated_gas(simulated);
        assert(r == gas_estimate_of(simulated0));
        r
    }
}

/// The gas estimate that a simulation gives: gas used plus gas refunded,
/// the simulation's own failure, or `CallError::GasOverflow` where the sum
/// has no place in 256 bits.
pub open spec fn gas_estimate_of(simulated: Result<Executed, CallError>) -> Result<
    U256,
    CallError,
> {
    match simulated {
        Err(e) => Err(e),
        Ok(executed) => if executed.gas_used.as_nat() + executed.refunded.as_nat()
            < crate::primitives::u256_limit() {
            Ok(
                crate::primitives::u256_of(
                    executed.gas_used.as_nat() + executed.refunded.as_nat(),
                ),
            )
        } else {
            Err(CallError::GasOverflow)
        },
    }
}

/// The gas estimate that a simulation gives.
pub fn estimated_gas(simulated: Result<Executed, CallError>) -> (r: Result<U256, CallError>)
    ensures
        r == gas_estimate_of(simulated),
{
    match simulated {
        Err(e) => Err(e),
        Ok(executed) => match executed.gas_estimate() {
            Some(gas) => {
                proof {
                    crate::primitives::lemma_u256_of_value(gas);
                }
                Ok(gas)
            },
            None => Err(CallError::GasOverflow),
        },
    }
}

} // verus!
