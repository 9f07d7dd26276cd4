//! Polled filters: what each kind of filter reports when it is polled, and
//! how polling moves it on.

use vstd::prelude::*;

use crate::blockchain::{Blockchain, BlockchainView};
use crate::chain_state::lemma_block_by_number_exists;
use crate::error::Error;
use crate::filter::{BlockId, Filter};
use crate::primitives::H256;
use crate::receipt::{
    hash_views, localized_log_views, LocalizedLogEntry, LocalizedLogEntryView,
};

verus! {

/// A filter that a caller installed and polls.
#[derive(Clone, Debug, PartialEq, Eq)]
pub enum PollFilter {
    /// Reports the hashes of blocks, from the block with this number on.
    Block(u64),
    /// Reports pending transactions. The ledger has none.
    PendingTransaction(Vec<H256>),
    /// Reports the log entries that a filter accepts, from the block with
    /// this number on.
    Logs(u64, Filter),
}

/// What a poll reports.
#[derive(Clone, Debug, PartialEq, Eq)]
pub enum FilterChanges {
    /// Log entries.
    Logs(Vec<LocalizedLogEntry>),
    /// Hashes of blocks or transactions.
    Hashes(Vec<H256>),
}

/// The mathematical value of what a poll reports.
pub enum FilterChangesView {
    Logs(Seq<LocalizedLogEntryView>),
    Hashes(Seq<Seq<u8>>),
}

impl View for FilterChanges {
    type V = FilterChangesView;

    open spec fn view(&self) -> FilterChangesView {
        match self {
            FilterChanges::Logs(logs) => FilterChangesView::Logs(localized_log_views(logs@)),
            FilterChanges::Hashes(hashes) => FilterChangesView::Hashes(hash_views(hashes@)),
        }
    }
}

/// The last `limit` entries of `logs`, or all of them where there are fewer
/// or no limit is set.
pub open spec fn limited<A>(logs: Seq<A>, limit: Option<usize>) -> Seq<A> {
    match limit {
        Some(n) => if logs.len() >= n {
            logs.skip(logs.len() - n)
        } else {
            logs
        },
        None => logs,
    }
}

/// Keeps the last `limit` log entries, or all of them where there are fewer
/// or no limit is set.
pub fn limit_logs(logs: Vec<LocalizedLogEntry>, limit: Option<usize>) -> (r: Vec<
    LocalizedLogEntry,
>)
    ensures
        r@ == limited(logs@, limit),
{
    let mut logs = logs;
    let len = logs.len();
    match limit {
        Some(n) => {
            if len >= n {
                let mut kept: Vec<LocalizedLogEntry> = Vec::new();
                let ghost all = logs@;
                while kept.len() < n
                    invariant
                        kept@.len() <= n <= all.len(),
                        logs@ == all.take(all.len() - kept@.len()),
                        kept@ == all.skip(all.len() - kept@.len()),
                    decreases n - kept.len(),
                {
                    let ghost before = kept@;
                    let ghost rest = logs@;
                    match logs.pop() {
                        Some(entry) => {
                            kept.insert(0, entry);
                            assert(kept@ =~= all.skip(all.len() - kept@.len() as int));
                            assert(logs@ =~= all.take(all.len() - kept@.len() as int));
                        },
                        None => {
                            assert(false);
                        },
                    }
                }
                kept
            } else {
                logs
            }
        },
        None => logs,
    }
}

/// The hashes of the blocks that the numbers `from` to `to` lead to, both
/// included, in order.
pub open spec fn hashes_in_range(chain: BlockchainView, from: int, to: int) -> Seq<Seq<u8>>
    decreases to - from + 1,
{
    if from > to {
        Seq::empty()
    } else {
        hashes_in_range(chain, from, to - 1).push(
            chain.chain.block_by_number(to as u64).unwrap().hash,
        )
    }
}

impl PollFilter {
    /// The filter for log entries that `filter` accepts, installed while
    /// the best block has the number `latest`.
    pub fn for_logs(latest: u64, filter: Filter) -> (r: PollFilter)
        ensures
            r == PollFilter::Logs(latest, filter),
    {
        PollFilter::Logs(latest, filter)
    }

    /// The filter for new blocks, installed while the best block has the
    /// number `latest`. The best block itself is not new.
    pub fn for_blocks(latest: u64) -> (r: PollFilter)
        requires
            latest < u64::MAX,
        ensures
            r == PollFilter::Block((latest + 1) as u64),
    {
        PollFilter::Block(latest + 1)
    }

    /// The filter for pending transactions.
    pub fn for_pending_transactions() -> (r: PollFilter)
        ensures
            r matches PollFilter::PendingTransaction(seen) && seen@.len() == 0,
    {
        PollFilter::PendingTransaction(Vec::new())
    }

    /// Polls the filter and moves it on.
    ///
    /// A block filter reports the hashes of the blocks from its number to
    /// the best block, and then stands at the best block. A filter for
    /// pending transactions reports nothing. A log filter reports the
    /// entries that its filter accepts from its number to the best block,
    /// cut to the filter's limit, and then stands behind the best block; it
    /// fails, and still moves on, where its number leads to no block.
    pub fn filter_changes(&mut self, chain: &Blockchain) -> (r: Result<FilterChanges, Error>)
        requires
            chain.wf(),
            chain@.chain.block_number < u64::MAX,
        ensures
            match *old(self) {
                PollFilter::Block(number) => *final(self) == PollFilter::Block(
                    chain@.chain.block_number,
                ) && r is Ok && r.unwrap()@ == FilterChangesView::Hashes(
                    hashes_in_range(chain@, number as int, chain@.chain.block_number as int),
                ),
                PollFilter::PendingTransaction(_) => *final(self) == *old(self) && r is Ok
                    && r.unwrap()@ == FilterChangesView::Hashes(Seq::empty()),
                PollFilter::Logs(number, filter) => *final(self) == PollFilter::Logs(
                    (chain@.chain.block_number + 1) as u64,
                    filter,
                ) && match chain@.chain.query_logs_between(
                    filter,
                    BlockId::Number(number),
                    BlockId::Latest,
                ) {
                    Some(logs) => r is Ok && r.unwrap()@ == FilterChangesView::Logs(
                        limited(logs, filter.limit),
                    ),
                    None => r == Err::<FilterChanges, Error>(Error::BlockNotFound),
                },
            },
    {
        let latest = chain.best_block_number();
        match self {
            PollFilter::Block(number) => {
                let from = *number;
                *number = latest;
                let mut hashes: Vec<H256> = Vec::new();
                let mut n: u64 = from;
                assert(hash_views(hashes@) =~= hashes_in_range(chain@, from as int, from - 1));
                while n <= latest
                    invariant
                        chain.wf(),
                        latest == chain@.chain.block_number,
                        latest < u64::MAX,
                        from <= n,
                        n <= latest + 1 || n == from,
                        hash_views(hashes@) == hashes_in_range(chain@, from as int, n - 1),
                    decreases latest + 1 - n,
                {
                    proof {
                        lemma_block_by_number_exists(chain@.chain, n);
                    }
                    match chain.get_block_by_number(n) {
                        Some(block) => {
                            let ghost before = hash_views(hashes@);
                            hashes.push(block.hash());
                            assert(hash_views(hashes@) =~= before.push(block@.hash));
                        },
                        None => {
                            assert(false);
                        },
                    }
                    n = n + 1;
                }
                assert(from > latest ==> hash_views(hashes@) =~= Seq::<Seq<u8>>::empty());
                Ok(FilterChanges::Hashes(hashes))
            },
            PollFilter::PendingTransaction(_) => {
                let none: Vec<H256> = Vec::new();
                assert(hash_views(none@) =~= Seq::<Seq<u8>>::empty());
                Ok(FilterChanges::Hashes(none))
            },
            PollFilter::Logs(block_number, filter) => {
                let from = *block_number;
                *block_number = latest + 1;
                match chain.logs_between(filter, BlockId::Number(from), BlockId::Latest) {
                    Ok(logs) => {
                        let ghost all = logs@;
                        let kept = limit_logs(logs, filter.limit);
                        assert(localized_log_views(kept@) =~= limited(
                            localized_log_views(all),
                            filter.limit,
                        ));
                        Ok(FilterChanges::Logs(kept))
                    },
                    Err(e) => Err(e),
                }
            },
        }
    }

    /// The log entries that a log filter accepts in its filter's own range,
    /// cut to the filter's limit. A filter of another kind has none.
    pub fn filter_logs(&self, chain: &Blockchain) -> (r: Result<Vec<LocalizedLogEntry>, Error>)
        requires
            chain.wf(),
        ensures
            match *self {
                PollFilter::Logs(_, filter) => match chain@.chain.query_logs(filter) {
                    Some(logs) => r is Ok && localized_log_views(r.unwrap()@) == limited(
                        logs,
                        filter.limit,
                    ),
                    None => r == Err::<Vec<LocalizedLogEntry>, Error>(Error::BlockNotFound),
                },
                _ => r is Ok && r.unwrap()@.len() == 0,
            },
    {
        match self {
            PollFilter::Logs(_, filter) => {
                match chain.logs(filter) {
                    Ok(logs) => {
                        let ghost all = logs@;
                        let kept = limit_logs(logs, filter.limit);
                        assert(localized_log_views(kept@) =~= limited(
                            localized_log_views(all),
                            filter.limit,
                        ));
                        Ok(kept)
                    },
                    Err(e) => Err(e),
                }
            },
            _ => Ok(Vec::new()),
        }
    }
}

} // verus!
