//! The ledger: blocks, the indices over them, and the one operation that
//! extends them.

use vstd::prelude::*;

use crate::execution::{ApplyOutcome, ApplyOutcomeView, ExecutionResult, ExecutionResultView};
use crate::filter::{accepted_logs, sorted_by_block, BlockId, Filter};
use crate::hashing::{block_hash, block_hash_of};
use crate::primitives::{Bloom, H256, U256};
use crate::receipt::{
    copy_localized_logs, localized_log_views, log_views, LocalizedLogEntry,
    LocalizedLogEntryView, LocalizedReceipt, LocalizedReceiptView, LogEntry, LogEntryView,
    TransactionOutcome, TransactionOutcomeView,
};
use crate::transaction::{
    transaction_views, Action, ActionView, LocalizedTransaction, LocalizedTransactionView,
    SignedTransaction, SignedTransactionView,
};

verus! {

/// Block gas limit of the genesis block.
pub const BLOCK_GAS_LIMIT: usize = 16_000_000;

/// Minimum gas price (in gwei).
pub const MIN_GAS_PRICE_GWEI: usize = 1;

/// A block of the ledger.
#[derive(Clone, Debug, PartialEq, Eq)]
pub struct EthereumBlock {
    pub number: u64,
    pub timestamp: u64,
    pub hash: H256,
    pub parent_hash: H256,
    pub gas_used: U256,
    pub gas_limit: U256,
    pub log_bloom: Bloom,
    pub logs: Vec<LocalizedLogEntry>,
    pub transactions: Vec<LocalizedTransaction>,
}

/// The mathematical value of an `EthereumBlock`.
pub struct BlockView {
    pub number: u64,
    pub timestamp: u64,
    pub hash: Seq<u8>,
    pub parent_hash: Seq<u8>,
    pub gas_used: U256,
    pub gas_limit: U256,
    pub log_bloom: Seq<u8>,
    pub logs: Seq<LocalizedLogEntryView>,
    pub transactions: Seq<LocalizedTransactionView>,
}

impl View for EthereumBlock {
    type V = BlockView;

    open spec fn view(&self) -> BlockView {
        BlockView {
            number: self.number,
            timestamp: self.timestamp,
            hash: self.hash@,
            parent_hash: self.parent_hash@,
            gas_used: self.gas_used,
            gas_limit: self.gas_limit,
            log_bloom: self.log_bloom@,
            logs: localized_log_views(self.logs@),
            transactions: transaction_views(self.transactions@),
        }
    }
}

impl EthereumBlock {
    /// A block without transactions or logs. Its hash is taken of its
    /// number alone.
    pub fn new(
        number: u64,
        parent_hash: H256,
        timestamp: u64,
        gas_used: U256,
        gas_limit: U256,
        log_bloom: Bloom,
    ) -> (r: EthereumBlock)
        ensures
            r@ == (BlockView {
                number,
                timestamp,
                hash: block_hash_of(number),
                parent_hash: parent_hash@,
                gas_used,
                gas_limit,
                log_bloom: log_bloom@,
                logs: Seq::empty(),
                transactions: Seq::empty(),
            }),
    {
        let r = EthereumBlock {
            number,
            parent_hash,
            timestamp,
            logs: Vec::new(),
            transactions: Vec::new(),
            hash: block_hash(number),
            gas_used,
            gas_limit,
            log_bloom,
        };
        assert(r@.logs =~= Seq::empty());
        assert(r@.transactions =~= Seq::empty());
        r
    }

    /// The block's number.
    pub fn number_u64(&self) -> (r: u64)
        ensures
            r == self@.number,
    {
        self.number
    }

    /// The block's hash.
    pub fn hash(&self) -> (r: H256)
        ensures
            r@ == self@.hash,
    {
        self.hash
    }

    /// The transactions that the block holds, in order.
    pub fn transactions(&self) -> (r: &Vec<LocalizedTransaction>)
        ensures
            transaction_views(r@) == self@.transactions,
    {
        &self.transactions
    }
}

/// The values of a sequence of blocks, in order.
pub open spec fn block_views(items: Seq<EthereumBlock>) -> Seq<BlockView> {
    Seq::new(items.len(), |i: int| items[i]@)
}

/// The values of a sequence of receipts, in order.
pub open spec fn receipt_views(items: Seq<LocalizedReceipt>) -> Seq<LocalizedReceiptView> {
    Seq::new(items.len(), |i: int| items[i]@)
}

/// The last position at which `key` stands in `keys`, if it stands there at
/// all. An index that is filled in the order of `keys` and lets a later
/// entry replace an earlier one under the same key finds its entry there.
pub open spec fn last_position(keys: Seq<Seq<u8>>, key: Seq<u8>) -> Option<int>
    decreases keys.len(),
{
    if keys.len() == 0 {
        None
    } else if keys.last() == key {
        Some(keys.len() - 1)
    } else {
        last_position(keys.drop_last(), key)
    }
}

/// `last_position` finds a position that holds the key, and none after it
/// does; it finds nothing only where no position holds the key.
pub proof fn lemma_last_position(keys: Seq<Seq<u8>>, key: Seq<u8>)
    ensures
        match last_position(keys, key) {
            Some(p) => 0 <= p < keys.len() && keys[p] == key && forall|j: int|
                p < j < keys.len() ==> keys[j] != key,
            None => forall|j: int| 0 <= j < keys.len() ==> keys[j] != key,
        },
    decreases keys.len(),
{
    if keys.len() > 0 && keys.last() != key {
        let front = keys.drop_last();
        lemma_last_position(front, key);
        assert(forall|j: int| 0 <= j < front.len() ==> front[j] == keys[j]);
        match last_position(front, key) {
            Some(p) => {
                assert forall|j: int| p < j < keys.len() implies keys[j] != key by {
                    if j < front.len() {
                        assert(front[j] != key);
                    }
                }
            },
            None => {
                assert forall|j: int| 0 <= j < keys.len() implies keys[j] != key by {
                    if j < front.len() {
                        assert(front[j] != key);
                    }
                }
            },
        }
    }
}

/// Filing one more entry replaces what was filed under its key and leaves
/// every other key alone.
pub proof fn lemma_last_position_push(keys: Seq<Seq<u8>>, added: Seq<u8>, key: Seq<u8>)
    ensures
        last_position(keys.push(added), key) == if key == added {
            Some(keys.len() as int)
        } else {
            last_position(keys, key)
        },
{
    assert(keys.push(added).drop_last() =~= keys);
}

/// Where all keys differ, each key is found at its own position.
pub proof fn lemma_last_position_distinct(keys: Seq<Seq<u8>>, at: int)
    requires
        0 <= at < keys.len(),
        forall|i: int, j: int| 0 <= i < j < keys.len() ==> keys[i] != keys[j],
    ensures
        last_position(keys, keys[at]) == Some(at),
{
    lemma_last_position(keys, keys[at]);
}

/// The hashes of a sequence of blocks, in order.
pub open spec fn block_keys(blocks: Seq<BlockView>) -> Seq<Seq<u8>> {
    Seq::new(blocks.len(), |i: int| blocks[i].hash)
}

/// The hashes of a sequence of transactions, in order.
pub open spec fn transaction_keys(items: Seq<LocalizedTransactionView>) -> Seq<Seq<u8>> {
    Seq::new(items.len(), |i: int| items[i].signed.hash)
}

/// The transaction hashes of a sequence of receipts, in order.
pub open spec fn receipt_keys(items: Seq<LocalizedReceiptView>) -> Seq<Seq<u8>> {
    Seq::new(items.len(), |i: int| items[i].transaction_hash)
}

/// The bytes of the all-zero digest.
pub open spec fn zero_hash() -> Seq<u8> {
    Seq::new(32, |i: int| 0u8)
}

/// The genesis block: number 0, no parent, no transactions.
pub open spec fn genesis_block() -> BlockView {
    BlockView {
        number: 0,
        timestamp: 0,
        hash: block_hash_of(0),
        parent_hash: zero_hash(),
        gas_used: U256 { w0: 0, w1: 0, w2: 0, w3: 0 },
        gas_limit: U256 { w0: BLOCK_GAS_LIMIT as u64, w1: 0, w2: 0, w3: 0 },
        log_bloom: Seq::new(256, |i: int| 0u8),
        logs: Seq::empty(),
        transactions: Seq::empty(),
    }
}

/// The mathematical value of the ledger: everything that was ever filed, in
/// the order in which it was filed. The indices are read off it.
pub struct ChainView {
    /// The number of the best block.
    pub block_number: u64,
    /// The blocks in the order in which they were mined.
    pub blocks: Seq<BlockView>,
    /// The transactions in the order in which they were filed.
    pub transactions: Seq<LocalizedTransactionView>,
    /// The receipts in the order in which they were filed.
    pub receipts: Seq<LocalizedReceiptView>,
}

impl ChainView {
    /// The ledger that holds the genesis block and nothing else.
    pub open spec fn genesis() -> ChainView {
        ChainView {
            block_number: 0,
            blocks: seq![genesis_block()],
            transactions: Seq::empty(),
            receipts: Seq::empty(),
        }
    }

    /// The index from block hash to block. Of two blocks with one hash it
    /// holds the later.
    pub open spec fn blocks_by_hash(self) -> Map<Seq<u8>, BlockView> {
        Map::new(
            |h: Seq<u8>| last_position(block_keys(self.blocks), h) is Some,
            |h: Seq<u8>| self.blocks[last_position(block_keys(self.blocks), h).unwrap()],
        )
    }

    /// The index from block number to block hash.
    pub open spec fn hash_by_number(self) -> Map<u64, Seq<u8>> {
        Map::new(|n: u64| n < self.blocks.len(), |n: u64| self.blocks[n as int].hash)
    }

    /// The index from transaction hash to transaction. Of two transactions
    /// with one hash it holds the later.
    pub open spec fn transactions_by_hash(self) -> Map<Seq<u8>, LocalizedTransactionView> {
        Map::new(
            |h: Seq<u8>| last_position(transaction_keys(self.transactions), h) is Some,
            |h: Seq<u8>|
                self.transactions[last_position(transaction_keys(self.transactions), h).unwrap()],
        )
    }

    /// The index from transaction hash to receipt. Of two receipts with one
    /// transaction hash it holds the later.
    pub open spec fn receipts_by_hash(self) -> Map<Seq<u8>, LocalizedReceiptView> {
        Map::new(
            |h: Seq<u8>| last_position(receipt_keys(self.receipts), h) is Some,
            |h: Seq<u8>| self.receipts[last_position(receipt_keys(self.receipts), h).unwrap()],
        )
    }

    /// The block that a hash leads to.
    pub open spec fn block_by_hash(self, hash: Seq<u8>) -> Option<BlockView> {
        if self.blocks_by_hash().contains_key(hash) {
            Some(self.blocks_by_hash()[hash])
        } else {
            None
        }
    }

    /// The block that a number leads to: through the index from number to
    /// hash, then through the index from hash to block.
    pub open spec fn block_by_number(self, number: u64) -> Option<BlockView> {
        if self.hash_by_number().contains_key(number) {
            self.block_by_hash(self.hash_by_number()[number])
        } else {
            None
        }
    }

    /// The transaction that a hash leads to.
    pub open spec fn transaction_by_hash(self, hash: Seq<u8>) -> Option<LocalizedTransactionView> {
        if self.transactions_by_hash().contains_key(hash) {
            Some(self.transactions_by_hash()[hash])
        } else {
            None
        }
    }

    /// The receipt that a transaction hash leads to.
    pub open spec fn receipt_by_hash(self, hash: Seq<u8>) -> Option<LocalizedReceiptView> {
        if self.receipts_by_hash().contains_key(hash) {
            Some(self.receipts_by_hash()[hash])
        } else {
            None
        }
    }

    /// Whether block `i` of the ledger was mined from one transaction, as
    /// every block but the genesis block is.
    pub open spec fn block_is_mined(self, i: int) -> bool {
        let block = self.blocks[i];
        &&& block.parent_hash == self.blocks[i - 1].hash
        &&& block.transactions.len() == 1
        &&& block.transactions[0] == self.transactions[i - 1]
        &&& block.transactions[0].block_number == i
        &&& block.transactions[0].block_hash == block.hash
        &&& block.transactions[0].transaction_index == 0
        &&& self.receipts[i - 1].transaction_hash == self.transactions[i - 1].signed.hash
        &&& self.receipts[i - 1].block_number == i
        &&& self.receipts[i - 1].block_hash == block.hash
        &&& self.receipts[i - 1].logs == block.logs
        &&& forall|j: int|
            0 <= j < block.logs.len() ==> (#[trigger] block.logs[j]).block_number == i
    }

    /// The invariant of the ledger: the blocks are numbered from 0 without a
    /// gap, each is hashed by its number and points at its predecessor, and
    /// each block after the first holds the one transaction it was mined
    /// from, next to its receipt.
    pub open spec fn wf(self) -> bool {
        &&& self.blocks.len() == self.block_number + 1
        &&& self.transactions.len() == self.block_number
        &&& self.receipts.len() == self.block_number
        &&& self.blocks[0].parent_hash == zero_hash()
        &&& self.blocks[0].transactions.len() == 0
        &&& self.blocks[0].logs.len() == 0
        &&& forall|i: int|
            0 <= i < self.blocks.len() ==> (#[trigger] self.blocks[i]).number == i
                && self.blocks[i].hash == block_hash_of(i as u64)
        &&& forall|i: int| 1 <= i < self.blocks.len() ==> #[trigger] self.block_is_mined(i)
    }
}

/// The ledger.
pub struct ChainState {
    block_number: u64,
    blocks: Vec<EthereumBlock>,
    transactions: Vec<LocalizedTransaction>,
    receipts: Vec<LocalizedReceipt>,
}

impl View for ChainState {
    type V = ChainView;

    closed spec fn view(&self) -> ChainView {
        ChainView {
            block_number: self.block_number,
            blocks: block_views(self.blocks@),
            transactions: transaction_views(self.transactions@),
            receipts: receipt_views(self.receipts@),
        }
    }
}

impl ChainState {
    /// The ledger with the genesis block and nothing else.
    pub fn new() -> (r: ChainState)
        ensures
            r@ == ChainView::genesis(),
            r@.wf(),
    {
        let genesis = EthereumBlock::new(
            0,
            H256::zero(),
            0,
            U256::from_u64(0),
            U256::from_u64(BLOCK_GAS_LIMIT as u64),
            Bloom::zero(),
        );
        let mut blocks: Vec<EthereumBlock> = Vec::new();
        blocks.push(genesis);
        let r = ChainState {
            block_number: 0,
            blocks,
            transactions: Vec::new(),
            receipts: Vec::new(),
        };
        proof {
            crate::primitives::lemma_u256_value_is_injective(
                r.blocks@[0].gas_used,
                genesis_block().gas_used,
            );
            crate::primitives::lemma_u256_value_is_injective(
                r.blocks@[0].gas_limit,
                genesis_block().gas_limit,
            );
            assert(r.blocks@[0]@ == genesis_block());
            assert(r@.blocks =~= seq![genesis_block()]);
            assert(r@.transactions =~= Seq::empty());
            assert(r@.receipts =~= Seq::empty());
        }
        r
    }

    /// The position of the block that the index from hash to block holds
    /// for `hash`.
    fn block_position(&self, hash: &H256) -> (r: Option<usize>)
        ensures
            match r {
                Some(p) => last_position(block_keys(self@.blocks), hash@) == Some(p as int),
                None => last_position(block_keys(self@.blocks), hash@) is None,
            },
    {
        let ghost keys = block_keys(self@.blocks);
        let mut i: usize = self.blocks.len();
        assert(keys.take(i as int) =~= keys);
        while i > 0
            invariant
                i <= self.blocks.len(),
                keys == block_keys(self@.blocks),
                keys.len() == self.blocks.len(),
                last_position(keys, hash@) == last_position(keys.take(i as int), hash@),
            decreases i,
        {
            assert(keys.take(i as int).last() == keys[i - 1]);
            assert(keys.take(i as int).drop_last() =~= keys.take(i - 1));
            i -= 1;
            if self.blocks[i].hash.same(hash) {
                return Some(i);
            }
        }
        None
    }

    /// The position of the transaction that the index from hash to
    /// transaction holds for `hash`.
    fn transaction_position(&self, hash: &H256) -> (r: Option<usize>)
        ensures
            match r {
                Some(p) => last_position(transaction_keys(self@.transactions), hash@) == Some(
                    p as int,
                ),
                None => last_position(transaction_keys(self@.transactions), hash@) is None,
            },
    {
        let ghost keys = transaction_keys(self@.transactions);
        let mut i: usize = self.transactions.len();
        assert(keys.take(i as int) =~= keys);
        while i > 0
            invariant
                i <= self.transactions.len(),
                keys == transaction_keys(self@.transactions),
                keys.len() == self.transactions.len(),
                last_position(keys, hash@) == last_position(keys.take(i as int), hash@),
            decreases i,
        {
            assert(keys.take(i as int).last() == keys[i - 1]);
            assert(keys.take(i as int).drop_last() =~= keys.take(i - 1));
            i -= 1;
            if self.transactions[i].signed.hash.same(hash) {
                return Some(i);
            }
        }
        None
    }

    /// The position of the receipt that the index from transaction hash to
    /// receipt holds for `hash`.
    fn receipt_position(&self, hash: &H256) -> (r: Option<usize>)
        ensures
            match r {
                Some(p) => last_position(receipt_keys(self@.receipts), hash@) == Some(p as int),
                None => last_position(receipt_keys(self@.receipts), hash@) is None,
            },
    {
        let ghost keys = receipt_keys(self@.receipts);
        let mut i: usize = self.receipts.len();
        assert(keys.take(i as int) =~= keys);
        while i > 0
            invariant
                i <= self.receipts.len(),
                keys == receipt_keys(self@.receipts),
                keys.len() == self.receipts.len(),
                last_position(keys, hash@) == last_position(keys.take(i as int), hash@),
            decreases i,
        {
            assert(keys.take(i as int).last() == keys[i - 1]);
            assert(keys.take(i as int).drop_last() =~= keys.take(i - 1));
            i -= 1;
            if self.receipts[i].transaction_hash.same(hash) {
                return Some(i);
            }
        }
        None
    }

    /// The number of the best block.
    pub fn best_block_number(&self) -> (r: u64)
        ensures
            r == self@.block_number,
    {
        self.block_number
    }

    /// The block that `hash` leads to, if there is one.
    pub fn get_block_by_hash(&self, hash: &H256) -> (r: Option<&EthereumBlock>)
        ensures
            match r {
                Some(block) => self@.block_by_hash(hash@) == Some(block@),
                None => self@.block_by_hash(hash@) is None,
            },
    {
        match self.block_position(hash) {
            Some(p) => {
                proof {
                    lemma_last_position(block_keys(self@.blocks), hash@);
                }
                Some(&self.blocks[p])
            },
            None => None,
        }
    }

    /// The block that `number` leads to, if there is one.
    pub fn get_block_by_number(&self, number: u64) -> (r: Option<&EthereumBlock>)
        ensures
            match r {
                Some(block) => self@.block_by_number(number) == Some(block@),
                None => self@.block_by_number(number) is None,
            },
    {
        if number as u128 >= self.blocks.len() as u128 {
            return None;
        }
        let hash = self.blocks[number as usize].hash;
        self.get_block_by_hash(&hash)
    }

    /// The transaction that `hash` leads to, if there is one.
    pub fn get_txn_by_hash(&self, hash: &H256) -> (r: Option<&LocalizedTransaction>)
        ensures
            match r {
                Some(txn) => self@.transaction_by_hash(hash@) == Some(txn@),
                None => self@.transaction_by_hash(hash@) is None,
            },
    {
        match self.transaction_position(hash) {
            Some(p) => {
                proof {
                    lemma_last_position(transaction_keys(self@.transactions), hash@);
                }
                Some(&self.transactions[p])
            },
            None => None,
        }
    }

    /// The receipt that the transaction hash `hash` leads to, if there is
    /// one.
    pub fn get_txn_receipt_by_hash(&self, hash: &H256) -> (r: Option<&LocalizedReceipt>)
        ensures
            match r {
                Some(receipt) => self@.receipt_by_hash(hash@) == Some(receipt@),
                None => self@.receipt_by_hash(hash@) is None,
            },
    {
        match self.receipt_position(hash) {
            Some(p) => {
                proof {
                    lemma_last_position(receipt_keys(self@.receipts), hash@);
                }
                Some(&self.receipts[p])
            },
            None => None,
        }
    }
}

/// The log entries of a mined transaction, each with the block and the
/// transaction it belongs to and with its place among them.
pub open spec fn mined_logs(
    logs: Seq<LogEntryView>,
    number: u64,
    hash: Seq<u8>,
    txn_hash: Seq<u8>,
) -> Seq<LocalizedLogEntryView> {
    Seq::new(
        logs.len(),
        |i: int|
            LocalizedLogEntryView {
                entry: logs[i],
                block_hash: hash,
                block_number: number,
                transaction_hash: txn_hash,
                transaction_index: 0,
                transaction_log_index: i as usize,
                log_index: i as usize,
            },
    )
}

/// The record under which a mined transaction is filed: it is the only
/// transaction of its block.
pub open spec fn mined_transaction(
    txn: SignedTransactionView,
    number: u64,
    hash: Seq<u8>,
) -> LocalizedTransactionView {
    LocalizedTransactionView {
        signed: txn.transaction,
        block_number: number,
        block_hash: hash,
        transaction_index: 0,
        cached_sender: None,
    }
}

/// The block that is mined from one transaction on top of `parent`.
pub open spec fn mined_block(
    parent: BlockView,
    txn: SignedTransactionView,
    timestamp: u64,
    gas_limit: U256,
    outcome: ApplyOutcomeView,
) -> BlockView {
    let number = (parent.number + 1) as u64;
    let hash = block_hash_of(number);
    BlockView {
        number,
        timestamp,
        hash,
        parent_hash: parent.hash,
        gas_used: outcome.receipt.gas_used,
        gas_limit,
        log_bloom: outcome.receipt.log_bloom,
        logs: mined_logs(outcome.receipt.logs, number, hash, txn.transaction.hash),
        transactions: seq![mined_transaction(txn, number, hash)],
    }
}

/// The receipt under which a mined transaction is filed. It names a
/// contract address where the transaction created a contract, and only
/// there.
pub open spec fn mined_receipt(
    parent: BlockView,
    txn: SignedTransactionView,
    outcome: ApplyOutcomeView,
) -> LocalizedReceiptView {
    let number = (parent.number + 1) as u64;
    let hash = block_hash_of(number);
    LocalizedReceiptView {
        transaction_hash: txn.transaction.hash,
        transaction_index: 0,
        block_hash: hash,
        block_number: number,
        cumulative_gas_used: outcome.receipt.gas_used,
        gas_used: outcome.receipt.gas_used,
        contract_address: match txn.transaction.unsigned.action {
            ActionView::Call(_) => None,
            ActionView::Create => Some(outcome.contract_address),
        },
        logs: mined_logs(outcome.receipt.logs, number, hash, txn.transaction.hash),
        log_bloom: outcome.receipt.log_bloom,
        outcome: outcome.receipt.outcome,
    }
}

/// What the caller learns of a mined transaction.
pub open spec fn mined_result(outcome: ApplyOutcomeView) -> ExecutionResultView {
    ExecutionResultView {
        cumulative_gas_used: outcome.receipt.gas_used,
        gas_used: outcome.receipt.gas_used,
        log_bloom: outcome.receipt.log_bloom,
        logs: outcome.receipt.logs,
        status_code: match outcome.receipt.outcome {
            TransactionOutcomeView::StatusCode(code) => code,
            _ => 0,
        },
        output: outcome.output,
    }
}

impl ChainView {
    /// The best block: the block that was mined last.
    pub open spec fn best_block(self) -> BlockView {
        self.blocks.last()
    }

    /// The ledger after one transaction was mined on top of it.
    pub open spec fn mined(
        self,
        txn: SignedTransactionView,
        timestamp: u64,
        gas_limit: U256,
        outcome: ApplyOutcomeView,
    ) -> ChainView {
        let parent = self.best_block();
        ChainView {
            block_number: (self.block_number + 1) as u64,
            blocks: self.blocks.push(mined_block(parent, txn, timestamp, gas_limit, outcome)),
            transactions: self.transactions.push(
                mined_transaction(
                    txn,
                    (parent.number + 1) as u64,
                    block_hash_of((parent.number + 1) as u64),
                ),
            ),
            receipts: self.receipts.push(mined_receipt(parent, txn, outcome)),
        }
    }
}

/// Mining keeps the ledger's invariant.
pub proof fn lemma_mined_is_wf(
    chain: ChainView,
    txn: SignedTransactionView,
    timestamp: u64,
    gas_limit: U256,
    outcome: ApplyOutcomeView,
)
    requires
        chain.wf(),
        chain.block_number < u64::MAX,
    ensures
        chain.mined(txn, timestamp, gas_limit, outcome).wf(),
{
    let next = chain.mined(txn, timestamp, gas_limit, outcome);
    let n = chain.blocks.len() as int;
    assert(chain.blocks[n - 1].number == n - 1);
    assert forall|i: int| 0 <= i < next.blocks.len() implies (#[trigger] next.blocks[i]).number
        == i && next.blocks[i].hash == block_hash_of(i as u64) by {
        if i < n {
            assert(next.blocks[i] == chain.blocks[i]);
        }
    }
    assert forall|i: int| 1 <= i < next.blocks.len() implies #[trigger] next.block_is_mined(
        i,
    ) by {
        if i < n {
            assert(chain.block_is_mined(i));
            assert(next.blocks[i] == chain.blocks[i]);
            assert(next.blocks[i - 1] == chain.blocks[i - 1]);
            assert(next.transactions[i - 1] == chain.transactions[i - 1]);
            assert(next.receipts[i - 1] == chain.receipts[i - 1]);
        } else {
            assert(next.blocks[i - 1] == chain.blocks[n - 1]);
        }
    }
    assert(next.blocks[0] == chain.blocks[0]);
}

/// The log entries of a mined transaction, each with the block and the
/// transaction it belongs to.
fn localize_logs(logs: &Vec<LogEntry>, number: u64, hash: H256, txn_hash: H256) -> (r: Vec<
    LocalizedLogEntry,
>)
    ensures
        localized_log_views(r@) == mined_logs(log_views(logs@), number, hash@, txn_hash@),
{
    let mut out: Vec<LocalizedLogEntry> = Vec::new();
    let mut i: usize = 0;
    while i < logs.len()
        invariant
            i <= logs.len(),
            out@.len() == i,
            forall|j: int|
                0 <= j < i ==> out@[j]@ == mined_logs(
                    log_views(logs@),
                    number,
                    hash@,
                    txn_hash@,
                )[j],
        decreases logs.len() - i,
    {
        out.push(
            LocalizedLogEntry {
                entry: logs[i].copy(),
                block_hash: hash,
                block_number: number,
                transaction_hash: txn_hash,
                transaction_index: 0,
                transaction_log_index: i,
                log_index: i,
            },
        );
        i += 1;
    }
    assert(localized_log_views(out@) =~= mined_logs(
        log_views(logs@),
        number,
        hash@,
        txn_hash@,
    ));
    out
}

impl ChainState {
    /// The best block.
    pub fn best_block(&self) -> (r: &EthereumBlock)
        requires
            self@.wf(),
        ensures
            r@ == self@.best_block(),
    {
        &self.blocks[self.blocks.len() - 1]
    }

    /// Files the block that is mined from `txn`, with the transaction's
    /// record and receipt, and makes it the best block. `outcome` is what
    /// the engine returned for the transaction.
    pub fn commit_block(
        &mut self,
        txn: &SignedTransaction,
        timestamp: u64,
        gas_limit: U256,
        outcome: ApplyOutcome,
    ) -> (r: (H256, ExecutionResult))
        requires
            old(self)@.wf(),
            old(self)@.block_number < u64::MAX,
            outcome@.receipt.outcome is StatusCode,
        ensures
            final(self)@ == old(self)@.mined(txn@, timestamp, gas_limit, outcome@),
            final(self)@.wf(),
            r.0@ == txn@.transaction.hash,
            r.1@ == mined_result(outcome@),
    {
        proof {
            lemma_mined_is_wf(old(self)@, txn@, timestamp, gas_limit, outcome@);
        }
        let ghost before = self@;
        let parent_hash = self.blocks[self.blocks.len() - 1].hash;
        assert(self@.blocks[self.blocks.len() - 1].number == self.block_number);
        let number = self.block_number + 1;
        let mut block = EthereumBlock::new(
            number,
            parent_hash,
            timestamp,
            outcome.receipt.gas_used,
            gas_limit,
            outcome.receipt.log_bloom,
        );
        let hash = block.hash();
        self.block_number = number;

        let txn_hash = txn.hash();
        let localized_txn = LocalizedTransaction {
            signed: txn.transaction.copy(),
            block_number: number,
            block_hash: hash,
            transaction_index: 0,
            cached_sender: None,
        };
        let mut transactions: Vec<LocalizedTransaction> = Vec::new();
        transactions.push(localized_txn.copy());
        block.transactions = transactions;
        self.transactions.push(localized_txn);

        let logs = localize_logs(&outcome.receipt.logs, number, hash, txn_hash);
        block.logs = copy_localized_logs(&logs);

        let receipt = LocalizedReceipt {
            transaction_hash: txn_hash,
            transaction_index: 0,
            block_hash: hash,
            block_number: number,
            cumulative_gas_used: outcome.receipt.gas_used,
            gas_used: outcome.receipt.gas_used,
            contract_address: match txn.transaction.unsigned.action {
                Action::Call(_) => None,
                Action::Create => Some(outcome.contract_address),
            },
            logs,
            log_bloom: outcome.receipt.log_bloom,
            outcome: outcome.receipt.outcome,
        };
        self.receipts.push(receipt);
        self.blocks.push(block);

        let status_code = match outcome.receipt.outcome {
            TransactionOutcome::StatusCode(code) => code,
            _ => vstd::pervasive::unreached(),
        };
        let result = ExecutionResult {
            cumulative_gas_used: outcome.receipt.gas_used,
            gas_used: outcome.receipt.gas_used,
            log_bloom: outcome.receipt.log_bloom,
            logs: outcome.receipt.logs,
            status_code,
            output: outcome.output,
        };
        proof {
            let after = before.mined(txn@, timestamp, gas_limit, outcome@);
            assert(before.best_block().number == before.block_number);
            assert(block@.transactions =~= seq![mined_transaction(txn@, number, hash@)]);
            assert(block@ == after.blocks.last());
            assert(self@.blocks =~= after.blocks);
            assert(self@.transactions =~= after.transactions);
            assert(self@.receipts =~= after.receipts);
        }
        (txn_hash, result)
    }
}

impl ChainView {
    /// The block that an identifier leads to.
    pub open spec fn block(self, id: BlockId) -> Option<BlockView> {
        match id {
            BlockId::Hash(hash) => self.block_by_hash(hash@),
            BlockId::Number(number) => self.block_by_number(number),
            BlockId::Latest => self.block_by_number(self.block_number),
            BlockId::Earliest => self.block_by_number(0),
        }
    }

    /// The transaction at place `index` of a block, if the block is there
    /// and has so many.
    pub open spec fn transaction_in(block: Option<BlockView>, index: u32) -> Option<
        LocalizedTransactionView,
    > {
        match block {
            Some(b) => if index < b.transactions.len() {
                Some(b.transactions[index as int])
            } else {
                None
            },
            None => None,
        }
    }

    /// The log entries of the block that a number leads to; none where it
    /// leads to no block.
    pub open spec fn block_logs(self, number: u64) -> Seq<LocalizedLogEntryView> {
        match self.block_by_number(number) {
            Some(b) => b.logs,
            None => Seq::empty(),
        }
    }

    /// The log entries of the blocks that the numbers `from` to `to` lead
    /// to, both included, block after block.
    pub open spec fn logs_in_range(self, from: int, to: int) -> Seq<LocalizedLogEntryView>
        decreases to - from + 1,
    {
        if from > to {
            Seq::empty()
        } else {
            self.logs_in_range(from, to - 1) + self.block_logs(to as u64)
        }
    }

    /// What a log query over the blocks from `from_block` to `to_block`
    /// returns: where both name a block, the entries that the filter accepts
    /// in the blocks between their numbers, in ascending order of block
    /// number.
    pub open spec fn query_logs_between(
        self,
        filter: Filter,
        from_block: BlockId,
        to_block: BlockId,
    ) -> Option<Seq<LocalizedLogEntryView>> {
        match (self.block(from_block), self.block(to_block)) {
            (Some(from), Some(to)) => Some(
                sorted_by_block(
                    accepted_logs(filter, self.logs_in_range(from.number as int, to.number as int)),
                ),
            ),
            _ => None,
        }
    }

    /// What a log query returns: the query over the filter's own range.
    pub open spec fn query_logs(self, filter: Filter) -> Option<Seq<LocalizedLogEntryView>> {
        self.query_logs_between(filter, filter.from_block, filter.to_block)
    }
}

/// Every number up to the best block's leads to a block, and that block
/// carries the hash that was filed under the number.
pub proof fn lemma_block_by_number_exists(chain: ChainView, number: u64)
    requires
        chain.wf(),
        number <= chain.block_number,
    ensures
        chain.block_by_number(number) is Some,
        chain.block_by_number(number).unwrap().hash == block_hash_of(number),
        chain.block_by_number(number).unwrap().number <= chain.block_number,
{
    let keys = block_keys(chain.blocks);
    assert(keys[number as int] == chain.blocks[number as int].hash);
    lemma_last_position(keys, keys[number as int]);
}

/// Accepting entries goes entry by entry.
pub proof fn lemma_accepted_logs_push(
    filter: Filter,
    logs: Seq<LocalizedLogEntryView>,
    entry: LocalizedLogEntryView,
)
    ensures
        accepted_logs(filter, logs.push(entry)) == if filter.accepts(entry.entry) {
            accepted_logs(filter, logs).push(entry)
        } else {
            accepted_logs(filter, logs)
        },
{
    assert(logs.push(entry).drop_last() =~= logs);
}

} // verus!
