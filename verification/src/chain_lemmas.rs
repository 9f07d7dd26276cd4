//! What holds of every ledger that mining built.

use vstd::prelude::*;

use crate::chain_state::{
    block_keys, genesis_block, lemma_last_position, lemma_last_position_distinct,
    lemma_last_position_push, lemma_mined_is_wf, mined_block, mined_receipt, mined_transaction,
    receipt_keys, transaction_keys, ChainView,
};
use crate::execution::ApplyOutcomeView;
use crate::filter::{
    accepted_logs, ascending_by_block, insert_by_block, sorted_by_block, Filter,
};
use crate::hashing::block_hash_of;
use crate::primitives::U256;
use crate::receipt::LocalizedLogEntryView;
use crate::transaction::SignedTransactionView;

verus! {

/// The ledger starts at block 0, whose hash is that of the number 0, and
/// its indices of transactions and receipts are empty.
pub proof fn lemma_genesis()
    ensures
        ChainView::genesis().wf(),
        ChainView::genesis().block_number == 0,
        ChainView::genesis().block_by_number(0) == Some(genesis_block()),
        genesis_block().hash == block_hash_of(0),
        ChainView::genesis().transactions_by_hash() == Map::<
            Seq<u8>,
            crate::transaction::LocalizedTransactionView,
        >::empty(),
        ChainView::genesis().receipts_by_hash() == Map::<
            Seq<u8>,
            crate::receipt::LocalizedReceiptView,
        >::empty(),
{
    let chain = ChainView::genesis();
    let keys = block_keys(chain.blocks);
    assert(keys[0] == genesis_block().hash);
    lemma_last_position(keys, keys[0]);
    assert(chain.transactions_by_hash() =~= Map::empty());
    assert(chain.receipts_by_hash() =~= Map::empty());
}

/// Whether no two blocks of the ledger have one hash.
pub open spec fn hashes_differ(chain: ChainView) -> bool {
    forall|i: int, j: int|
        0 <= i < j < chain.blocks.len() ==> chain.blocks[i].hash != chain.blocks[j].hash
}

/// Where no two blocks have one hash, each number up to the best block's
/// leads to the block that was mined with that number.
pub proof fn lemma_block_by_number(chain: ChainView, number: u64)
    requires
        chain.wf(),
        hashes_differ(chain),
        number <= chain.block_number,
    ensures
        chain.block_by_number(number) == Some(chain.blocks[number as int]),
        chain.block_by_number(number).unwrap().number == number,
{
    let keys = block_keys(chain.blocks);
    assert forall|i: int, j: int| 0 <= i < j < keys.len() implies keys[i] != keys[j] by {
        assert(keys[i] == chain.blocks[i].hash);
        assert(keys[j] == chain.blocks[j].hash);
    }
    lemma_last_position_distinct(keys, number as int);
}

/// In a ledger every block after the first points at the block before it.
/// Where no two blocks have one hash, the same holds of the blocks that the
/// numbers lead to.
pub proof fn lemma_blocks_are_linked(chain: ChainView, number: u64)
    requires
        chain.wf(),
        1 <= number <= chain.block_number,
    ensures
        chain.blocks[number as int].parent_hash == chain.blocks[number - 1].hash,
        hashes_differ(chain) ==> chain.block_by_number(number).unwrap().parent_hash
            == chain.block_by_number((number - 1) as u64).unwrap().hash,
{
    assert(chain.block_is_mined(number as int));
    if hashes_differ(chain) {
        lemma_block_by_number(chain, number);
        lemma_block_by_number(chain, (number - 1) as u64);
    }
}

/// One transaction with what went into mining it.
pub struct MiningStep {
    pub txn: SignedTransactionView,
    pub timestamp: u64,
    pub gas_limit: U256,
    pub outcome: ApplyOutcomeView,
}

/// The ledger after the transactions of `steps` were mined one after the
/// other.
pub open spec fn mined_all(chain: ChainView, steps: Seq<MiningStep>) -> ChainView
    decreases steps.len(),
{
    if steps.len() == 0 {
        chain
    } else {
        let step = steps.last();
        mined_all(chain, steps.drop_last()).mined(
            step.txn,
            step.timestamp,
            step.gas_limit,
            step.outcome,
        )
    }
}

/// After any number of transactions were mined, the best block's number is
/// that number more, the ledger's invariant holds, and every block after
/// the first points at the block before it.
pub proof fn lemma_sequencing(chain: ChainView, steps: Seq<MiningStep>)
    requires
        chain.wf(),
        chain.block_number + steps.len() <= u64::MAX,
    ensures
        mined_all(chain, steps).wf(),
        mined_all(chain, steps).block_number == chain.block_number + steps.len(),
        forall|i: int|
            1 <= i <= mined_all(chain, steps).block_number ==> (#[trigger] mined_all(
                chain,
                steps,
            ).blocks[i]).parent_hash == mined_all(chain, steps).blocks[i - 1].hash,
    decreases steps.len(),
{
    if steps.len() > 0 {
        let step = steps.last();
        let before = mined_all(chain, steps.drop_last());
        lemma_sequencing(chain, steps.drop_last());
        lemma_mined_is_wf(before, step.txn, step.timestamp, step.gas_limit, step.outcome);
    }
    let after = mined_all(chain, steps);
    assert forall|i: int| 1 <= i <= after.block_number implies (#[trigger] after.blocks[i]).parent_hash
        == after.blocks[i - 1].hash by {
        assert(after.block_is_mined(i));
    }
}

/// After a transaction was mined, the number of the new block leads to its
/// hash and the hash to the block; the transaction's hash leads to a record
/// that names this block; and it leads to a receipt that names this
/// transaction and this block.
pub proof fn lemma_mined_cross_references(
    chain: ChainView,
    txn: SignedTransactionView,
    timestamp: u64,
    gas_limit: U256,
    outcome: ApplyOutcomeView,
)
    requires
        chain.wf(),
        chain.block_number < u64::MAX,
    ensures
        ({
            let next = chain.mined(txn, timestamp, gas_limit, outcome);
            let block = mined_block(chain.best_block(), txn, timestamp, gas_limit, outcome);
            let hash = txn.transaction.hash;
            &&& next.block_number == chain.block_number + 1
            &&& next.hash_by_number().contains_key(next.block_number)
            &&& next.hash_by_number()[next.block_number] == block.hash
            &&& next.block_by_hash(block.hash) == Some(block)
            &&& next.block_by_number(next.block_number) == Some(block)
            &&& next.transaction_by_hash(hash) == Some(
                mined_transaction(txn, block.number, block.hash),
            )
            &&& next.transaction_by_hash(hash).unwrap().block_hash == block.hash
            &&& next.receipt_by_hash(hash) == Some(mined_receipt(chain.best_block(), txn, outcome))
            &&& next.receipt_by_hash(hash).unwrap().transaction_hash == hash
            &&& next.receipt_by_hash(hash).unwrap().block_hash == block.hash
        }),
{
    let next = chain.mined(txn, timestamp, gas_limit, outcome);
    let block = mined_block(chain.best_block(), txn, timestamp, gas_limit, outcome);
    let hash = txn.transaction.hash;
    assert(chain.best_block().number == chain.block_number);
    assert(block_keys(next.blocks) =~= block_keys(chain.blocks).push(block.hash));
    lemma_last_position_push(block_keys(chain.blocks), block.hash, block.hash);
    assert(transaction_keys(next.transactions) =~= transaction_keys(chain.transactions).push(
        hash,
    ));
    lemma_last_position_push(transaction_keys(chain.transactions), hash, hash);
    assert(receipt_keys(next.receipts) =~= receipt_keys(chain.receipts).push(hash));
    lemma_last_position_push(receipt_keys(chain.receipts), hash, hash);
}

/// Mining files one block, one transaction and one receipt, each under its
/// own key, and leaves what was filed under every other key alone.
pub proof fn lemma_mined_indices(
    chain: ChainView,
    txn: SignedTransactionView,
    timestamp: u64,
    gas_limit: U256,
    outcome: ApplyOutcomeView,
)
    requires
        chain.wf(),
        chain.block_number < u64::MAX,
    ensures
        ({
            let next = chain.mined(txn, timestamp, gas_limit, outcome);
            let block = mined_block(chain.best_block(), txn, timestamp, gas_limit, outcome);
            let hash = txn.transaction.hash;
            &&& next.blocks_by_hash() == chain.blocks_by_hash().insert(block.hash, block)
            &&& next.hash_by_number() == chain.hash_by_number().insert(
                next.block_number,
                block.hash,
            )
            &&& next.transactions_by_hash() == chain.transactions_by_hash().insert(
                hash,
                mined_transaction(txn, block.number, block.hash),
            )
            &&& next.receipts_by_hash() == chain.receipts_by_hash().insert(
                hash,
                mined_receipt(chain.best_block(), txn, outcome),
            )
        }),
{
    let next = chain.mined(txn, timestamp, gas_limit, outcome);
    let block = mined_block(chain.best_block(), txn, timestamp, gas_limit, outcome);
    let hash = txn.transaction.hash;
    assert(chain.best_block().number == chain.block_number);
    assert(block_keys(next.blocks) =~= block_keys(chain.blocks).push(block.hash));
    assert(transaction_keys(next.transactions) =~= transaction_keys(chain.transactions).push(
        hash,
    ));
    assert(receipt_keys(next.receipts) =~= receipt_keys(chain.receipts).push(hash));
    let new_txn = mined_transaction(txn, block.number, block.hash);
    let new_receipt = mined_receipt(chain.best_block(), txn, outcome);
    assert forall|k: Seq<u8>|
        (#[trigger] next.blocks_by_hash().dom().contains(k)) == chain.blocks_by_hash().insert(
            block.hash,
            block,
        ).dom().contains(k) && (next.blocks_by_hash().dom().contains(k)
            ==> next.blocks_by_hash()[k] == chain.blocks_by_hash().insert(block.hash, block)[k]) by {
        lemma_last_position_push(block_keys(chain.blocks), block.hash, k);
        lemma_last_position(block_keys(chain.blocks), k);
    }
    assert(next.blocks_by_hash() =~= chain.blocks_by_hash().insert(block.hash, block));
    assert(next.hash_by_number() =~= chain.hash_by_number().insert(
        next.block_number,
        block.hash,
    ));
    assert forall|k: Seq<u8>|
        (#[trigger] next.transactions_by_hash().dom().contains(k))
            == chain.transactions_by_hash().insert(hash, new_txn).dom().contains(k) && (
        next.transactions_by_hash().dom().contains(k) ==> next.transactions_by_hash()[k]
            == chain.transactions_by_hash().insert(hash, new_txn)[k]) by {
        lemma_last_position_push(transaction_keys(chain.transactions), hash, k);
        lemma_last_position(transaction_keys(chain.transactions), k);
    }
    assert(next.transactions_by_hash() =~= chain.transactions_by_hash().insert(hash, new_txn));
    assert forall|k: Seq<u8>|
        (#[trigger] next.receipts_by_hash().dom().contains(k)) == chain.receipts_by_hash().insert(
            hash,
            new_receipt,
        ).dom().contains(k) && (next.receipts_by_hash().dom().contains(k)
            ==> next.receipts_by_hash()[k] == chain.receipts_by_hash().insert(
            hash,
            new_receipt,
        )[k]) by {
        lemma_last_position_push(receipt_keys(chain.receipts), hash, k);
        lemma_last_position(receipt_keys(chain.receipts), k);
    }
    assert(next.receipts_by_hash() =~= chain.receipts_by_hash().insert(hash, new_receipt));
}

/// Putting an entry into a list keeps what the list held and adds the
/// entry; a list in ascending order of block number stays so.
pub proof fn lemma_insert_by_block(
    sorted: Seq<LocalizedLogEntryView>,
    entry: LocalizedLogEntryView,
)
    ensures
        insert_by_block(sorted, entry).len() == sorted.len() + 1,
        forall|e: LocalizedLogEntryView|
            insert_by_block(sorted, entry).contains(e) <==> (sorted.contains(e) || e == entry),
        ascending_by_block(sorted) ==> ascending_by_block(insert_by_block(sorted, entry)),
    decreases sorted.len(),
{
    let out = insert_by_block(sorted, entry);
    if sorted.len() == 0 {
        assert(out =~= sorted.push(entry));
        assert forall|e: LocalizedLogEntryView| out.contains(e) <==> (sorted.contains(e) || e
            == entry) by {
            lemma_contains_push(sorted, entry, e);
        }
    } else if sorted.last().block_number <= entry.block_number {
        assert forall|e: LocalizedLogEntryView| out.contains(e) <==> (sorted.contains(e) || e
            == entry) by {
            lemma_contains_push(sorted, entry, e);
        }
        if ascending_by_block(sorted) {
            assert forall|i: int, j: int| 0 <= i <= j < out.len() implies (#[trigger] out[i]).block_number
                <= (#[trigger] out[j]).block_number by {
                if j < sorted.len() {
                    assert(out[i] == sorted[i] && out[j] == sorted[j]);
                } else if i < sorted.len() {
                    assert(out[i] == sorted[i]);
                    assert(sorted[i].block_number <= sorted[sorted.len() - 1].block_number);
                }
            }
        }
    } else {
        let front = sorted.drop_last();
        let last = sorted.last();
        let inner = insert_by_block(front, entry);
        lemma_insert_by_block(front, entry);
        assert(out == inner.push(last));
        assert forall|e: LocalizedLogEntryView| out.contains(e) <==> (sorted.contains(e) || e
            == entry) by {
            lemma_contains_push(inner, last, e);
            lemma_contains_drop_last(sorted, e);
            assert(inner.contains(e) <==> (front.contains(e) || e == entry));
        }
        if ascending_by_block(sorted) {
            assert(ascending_by_block(front)) by {
                assert forall|i: int, j: int| 0 <= i <= j < front.len() implies (
                #[trigger] front[i]).block_number <= (#[trigger] front[j]).block_number by {
                    assert(front[i] == sorted[i] && front[j] == sorted[j]);
                }
            }
            assert forall|i: int, j: int| 0 <= i <= j < out.len() implies (#[trigger] out[i]).block_number
                <= (#[trigger] out[j]).block_number by {
                if j < inner.len() {
                    assert(out[i] == inner[i] && out[j] == inner[j]);
                } else if i < inner.len() {
                    let x = inner[i];
                    assert(out[i] == x);
                    assert(out[j] == last);
                    assert(inner.contains(x));
                    assert(inner.contains(x) <==> (front.contains(x) || x == entry));
                    if x != entry {
                        let k = choose|k: int| 0 <= k < front.len() && front[k] == x;
                        assert(sorted[k] == x);
                        assert(sorted[k].block_number <= sorted[sorted.len() - 1].block_number);
                    }
                }
            }
        }
    }
}

/// Sorting keeps what the list held and puts it in ascending order of block
/// number.
pub proof fn lemma_sorted_by_block(logs: Seq<LocalizedLogEntryView>)
    ensures
        sorted_by_block(logs).len() == logs.len(),
        forall|e: LocalizedLogEntryView| sorted_by_block(logs).contains(e) <==> logs.contains(e),
        ascending_by_block(sorted_by_block(logs)),
    decreases logs.len(),
{
    if logs.len() > 0 {
        let front = logs.drop_last();
        let inner = sorted_by_block(front);
        lemma_sorted_by_block(front);
        lemma_insert_by_block(inner, logs.last());
        assert forall|e: LocalizedLogEntryView| sorted_by_block(logs).contains(e)
            <==> logs.contains(e) by {
            lemma_contains_drop_last(logs, e);
            assert(inner.contains(e) <==> front.contains(e));
            assert(insert_by_block(inner, logs.last()).contains(e) <==> (inner.contains(e) || e
                == logs.last()));
        }
    } else {
        assert forall|e: LocalizedLogEntryView| sorted_by_block(logs).contains(e)
            <==> logs.contains(e) by {
            if sorted_by_block(logs).contains(e) {
                let i = choose|i: int|
                    0 <= i < sorted_by_block(logs).len() && sorted_by_block(logs)[i] == e;
            }
            if logs.contains(e) {
                let i = choose|i: int| 0 <= i < logs.len() && logs[i] == e;
            }
        }
    }
}

/// The accepted entries of a list are its entries that the filter accepts.
pub proof fn lemma_accepted_logs(filter: Filter, logs: Seq<LocalizedLogEntryView>)
    ensures
        forall|e: LocalizedLogEntryView|
            accepted_logs(filter, logs).contains(e) <==> (logs.contains(e) && filter.accepts(
                e.entry,
            )),
    decreases logs.len(),
{
    let out = accepted_logs(filter, logs);
    if logs.len() > 0 {
        let front = logs.drop_last();
        let last = logs.last();
        let inner = accepted_logs(filter, front);
        lemma_accepted_logs(filter, front);
        assert forall|e: LocalizedLogEntryView| out.contains(e) <==> (logs.contains(e)
            && filter.accepts(e.entry)) by {
            lemma_contains_drop_last(logs, e);
            assert(inner.contains(e) <==> (front.contains(e) && filter.accepts(e.entry)));
            if filter.accepts(last.entry) {
                assert(out == inner.push(last));
                lemma_contains_push(inner, last, e);
            } else {
                assert(out == inner);
            }
        }
    }
}

/// A list with one more entry holds what the list held and the entry.
pub proof fn lemma_contains_push<A>(s: Seq<A>, added: A, e: A)
    ensures
        s.push(added).contains(e) <==> (s.contains(e) || e == added),
{
    let out = s.push(added);
    if s.contains(e) {
        let i = choose|i: int| 0 <= i < s.len() && s[i] == e;
        assert(out[i] == e);
    }
    if e == added {
        assert(out[s.len() as int] == e);
    }
    if out.contains(e) {
        let i = choose|i: int| 0 <= i < out.len() && out[i] == e;
        if i < s.len() {
            assert(s[i] == e);
        }
    }
}

/// A list that is not empty holds what its front holds and its last entry.
pub proof fn lemma_contains_drop_last<A>(s: Seq<A>, e: A)
    requires
        s.len() > 0,
    ensures
        s.contains(e) <==> (s.drop_last().contains(e) || e == s.last()),
{
    assert(s.drop_last().push(s.last()) =~= s);
    lemma_contains_push(s.drop_last(), s.last(), e);
}

/// The entries of a range of blocks are the entries of the blocks that the
/// numbers of the range lead to.
pub proof fn lemma_logs_in_range(chain: ChainView, from: int, to: int)
    requires
        0 <= from,
        to <= u64::MAX,
    ensures
        forall|e: LocalizedLogEntryView|
            chain.logs_in_range(from, to).contains(e) <==> exists|n: int|
                from <= n <= to && #[trigger] chain.block_logs(n as u64).contains(e),
    decreases to - from + 1,
{
    let out = chain.logs_in_range(from, to);
    if from <= to {
        let front = chain.logs_in_range(from, to - 1);
        let last = chain.block_logs(to as u64);
        lemma_logs_in_range(chain, from, to - 1);
        assert forall|e: LocalizedLogEntryView| out.contains(e) <==> exists|n: int|
            from <= n <= to && #[trigger] chain.block_logs(n as u64).contains(e) by {
            if out.contains(e) {
                let i = choose|i: int| 0 <= i < out.len() && out[i] == e;
                if i < front.len() {
                    assert(front[i] == e);
                    assert(front.contains(e));
                    let n = choose|n: int|
                        from <= n <= to - 1 && #[trigger] chain.block_logs(n as u64).contains(e);
                    assert(from <= n <= to && chain.block_logs(n as u64).contains(e));
                } else {
                    assert(last[i - front.len()] == e);
                    assert(chain.block_logs(to as u64).contains(e));
                }
            }
            if exists|n: int| from <= n <= to && #[trigger] chain.block_logs(n as u64).contains(e) {
                let n = choose|n: int|
                    from <= n <= to && #[trigger] chain.block_logs(n as u64).contains(e);
                if n == to {
                    let k = choose|k: int| 0 <= k < last.len() && last[k] == e;
                    assert(out[front.len() + k] == e);
                } else {
                    assert(from <= n <= to - 1 && chain.block_logs(n as u64).contains(e));
                    assert(front.contains(e));
                    let k = choose|k: int| 0 <= k < front.len() && front[k] == e;
                    assert(out[k] == e);
                }
            }
        }
    }
}

/// What a log query returns is in ascending order of block number, and it
/// holds an entry just where the filter accepts the entry and a block of
/// the range holds it. Where no two blocks have one hash, the block numbers
/// of the entries lie in the range.
pub proof fn lemma_query_logs(chain: ChainView, filter: Filter, from: u64, to: u64)
    requires
        chain.wf(),
        to <= chain.block_number,
    ensures
        ({
            let found = sorted_by_block(
                accepted_logs(filter, chain.logs_in_range(from as int, to as int)),
            );
            &&& ascending_by_block(found)
            &&& forall|e: LocalizedLogEntryView|
                found.contains(e) <==> (filter.accepts(e.entry) && exists|n: int|
                    from <= n <= to && #[trigger] chain.block_logs(n as u64).contains(e))
            &&& hashes_differ(chain) ==> forall|e: LocalizedLogEntryView|
                found.contains(e) ==> from <= e.block_number <= to
        }),
{
    let in_range = chain.logs_in_range(from as int, to as int);
    let accepted = accepted_logs(filter, in_range);
    let found = sorted_by_block(accepted);
    lemma_logs_in_range(chain, from as int, to as int);
    lemma_accepted_logs(filter, in_range);
    lemma_sorted_by_block(accepted);
    assert forall|e: LocalizedLogEntryView| found.contains(e) <==> (filter.accepts(e.entry)
        && exists|n: int| from <= n <= to && #[trigger] chain.block_logs(n as u64).contains(e)) by {
        assert(found.contains(e) <==> accepted.contains(e));
        assert(accepted.contains(e) <==> (in_range.contains(e) && filter.accepts(e.entry)));
        assert(in_range.contains(e) <==> exists|n: int|
            from <= n <= to && #[trigger] chain.block_logs(n as u64).contains(e));
    }
    if hashes_differ(chain) {
        assert forall|e: LocalizedLogEntryView| found.contains(e) implies from <= e.block_number
            <= to by {
            assert(found.contains(e) <==> accepted.contains(e));
            assert(accepted.contains(e) <==> (in_range.contains(e) && filter.accepts(e.entry)));
            assert(in_range.contains(e) <==> exists|n: int|
                from <= n <= to && #[trigger] chain.block_logs(n as u64).contains(e));
            let n = choose|n: int|
                from <= n <= to && #[trigger] chain.block_logs(n as u64).contains(e);
            lemma_block_by_number(chain, n as u64);
            let logs = chain.blocks[n].logs;
            let k = choose|k: int| 0 <= k < logs.len() && logs[k] == e;
            if n >= 1 {
                assert(chain.block_is_mined(n));
                assert(logs[k].block_number == n);
            }
        }
    }
}

} // verus!
