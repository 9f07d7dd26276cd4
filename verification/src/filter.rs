//! Block identifiers and log filters.

use vstd::prelude::*;

use crate::primitives::{Address, H256};
use crate::receipt::{
    localized_log_views, LocalizedLogEntry, LocalizedLogEntryView, LogEntry, LogEntryView,
};

verus! {

/// The ways to name a block.
#[derive(Clone, Copy, Debug, PartialEq, Eq)]
pub enum BlockId {
    /// The block with this hash.
    Hash(H256),
    /// The block with this number.
    Number(u64),
    /// The genesis block.
    Earliest,
    /// The best block.
    Latest,
}

/// A predicate on log entries, with the range of blocks to search.
#[derive(Clone, Debug, PartialEq, Eq)]
pub struct Filter {
    /// The first block to search.
    pub from_block: BlockId,
    /// The last block to search.
    pub to_block: BlockId,
    /// The addresses to accept. `None` and the empty list accept every
    /// address.
    pub address: Option<Vec<Address>>,
    /// For each topic position, the topics to accept there. `None` and the
    /// empty list accept anything at that position, also no topic at all.
    pub topics: Vec<Option<Vec<H256>>>,
    /// The largest number of entries that the caller wants. The ledger hands
    /// it on and does not apply it.
    pub limit: Option<usize>,
}

/// Whether `address` is one of `accepted`.
pub open spec fn address_among(accepted: Seq<Address>, address: Seq<u8>) -> bool {
    exists|i: int| 0 <= i < accepted.len() && (#[trigger] accepted[i])@ == address
}

/// Whether `topic` is one of `accepted`.
pub open spec fn topic_among(accepted: Seq<H256>, topic: Seq<u8>) -> bool {
    exists|i: int| 0 <= i < accepted.len() && (#[trigger] accepted[i])@ == topic
}

/// Whether the filter accepts the address of a log entry.
pub open spec fn address_accepted(accepted: Option<Vec<Address>>, address: Seq<u8>) -> bool {
    match accepted {
        Some(list) => list@.len() == 0 || address_among(list@, address),
        None => true,
    }
}

/// Whether the filter accepts what a log entry holds at topic position
/// `position`.
pub open spec fn topic_accepted(
    accepted: Option<Vec<H256>>,
    topics: Seq<Seq<u8>>,
    position: int,
) -> bool {
    match accepted {
        Some(list) => list@.len() == 0 || (position < topics.len() && topic_among(
            list@,
            topics[position],
        )),
        None => true,
    }
}

impl Filter {
    /// Whether the filter accepts a log entry: its address is among the
    /// accepted ones, and so is its topic at each position for which the
    /// filter names topics.
    pub open spec fn accepts(&self, entry: LogEntryView) -> bool {
        &&& address_accepted(self.address, entry.address)
        &&& forall|p: int|
            0 <= p < self.topics@.len() ==> topic_accepted(
                #[trigger] self.topics@[p],
                entry.topics,
                p,
            )
    }

    /// Whether the filter accepts the log entry.
    pub fn matches(&self, entry: &LogEntry) -> (r: bool)
        ensures
            r == self.accepts(entry@),
    {
        if !address_matches(&self.address, &entry.address) {
            return false;
        }
        let mut p: usize = 0;
        while p < self.topics.len()
            invariant
                p <= self.topics@.len(),
                forall|q: int|
                    0 <= q < p ==> topic_accepted(
                        #[trigger] self.topics@[q],
                        entry@.topics,
                        q,
                    ),
            decreases self.topics.len() - p,
        {
            if !topic_matches(&self.topics[p], &entry.topics, p) {
                return false;
            }
            p += 1;
        }
        true
    }
}

/// Whether the filter accepts the address.
fn address_matches(accepted: &Option<Vec<Address>>, address: &Address) -> (r: bool)
    ensures
        r == address_accepted(*accepted, address@),
{
    match accepted {
        None => true,
        Some(list) => {
            if list.len() == 0 {
                return true;
            }
            let mut i: usize = 0;
            while i < list.len()
                invariant
                    i <= list@.len(),
                    *accepted == Some(*list),
                    forall|j: int| 0 <= j < i ==> (#[trigger] list@[j])@ != address@,
                decreases list.len() - i,
            {
                if list[i].same(address) {
                    assert(address_among(list@, address@)) by {
                        assert(list@[i as int]@ == address@);
                    }
                    return true;
                }
                i += 1;
            }
            false
        },
    }
}

/// Whether the filter accepts what the entry holds at topic position
/// `position`.
fn topic_matches(accepted: &Option<Vec<H256>>, topics: &Vec<H256>, position: usize) -> (r: bool)
    ensures
        r == topic_accepted(*accepted, crate::receipt::hash_views(topics@), position as int),
{
    match accepted {
        None => true,
        Some(list) => {
            if list.len() == 0 {
                return true;
            }
            if position >= topics.len() {
                return false;
            }
            let topic = &topics[position];
            let mut i: usize = 0;
            while i < list.len()
                invariant
                    i <= list@.len(),
                    *accepted == Some(*list),
                    position < topics@.len(),
                    *topic == topics@[position as int],
                    forall|j: int| 0 <= j < i ==> (#[trigger] list@[j])@ != topic@,
                decreases list.len() - i,
            {
                if list[i].same(topic) {
                    assert(topic_among(list@, topic@)) by {
                        assert(list@[i as int]@ == topic@);
                    }
                    return true;
                }
                i += 1;
            }
            false
        },
    }
}

/// The entries of `logs` that the filter accepts, in their order.
pub open spec fn accepted_logs(filter: Filter, logs: Seq<LocalizedLogEntryView>) -> Seq<
    LocalizedLogEntryView,
>
    decreases logs.len(),
{
    if logs.len() == 0 {
        Seq::empty()
    } else if filter.accepts(logs.last().entry) {
        accepted_logs(filter, logs.drop_last()).push(logs.last())
    } else {
        accepted_logs(filter, logs.drop_last())
    }
}

/// `sorted` with `entry` put behind every entry whose block number is at
/// most its own.
pub open spec fn insert_by_block(
    sorted: Seq<LocalizedLogEntryView>,
    entry: LocalizedLogEntryView,
) -> Seq<LocalizedLogEntryView>
    decreases sorted.len(),
{
    if sorted.len() == 0 {
        seq![entry]
    } else if sorted.last().block_number <= entry.block_number {
        sorted.push(entry)
    } else {
        insert_by_block(sorted.drop_last(), entry).push(sorted.last())
    }
}

/// The entries of `logs` in ascending order of block number; entries of one
/// block keep their order.
pub open spec fn sorted_by_block(logs: Seq<LocalizedLogEntryView>) -> Seq<LocalizedLogEntryView>
    decreases logs.len(),
{
    if logs.len() == 0 {
        Seq::empty()
    } else {
        insert_by_block(sorted_by_block(logs.drop_last()), logs.last())
    }
}

/// Whether the block numbers of `logs` ascend.
pub open spec fn ascending_by_block(logs: Seq<LocalizedLogEntryView>) -> bool {
    forall|i: int, j: int|
        0 <= i <= j < logs.len() ==> (#[trigger] logs[i]).block_number <= (
        #[trigger] logs[j]).block_number
}

/// `insert_by_block` puts the entry at the one place that keeps the order
/// stable: behind the last entry whose block number is at most its own.
pub proof fn lemma_insert_by_block_at(
    sorted: Seq<LocalizedLogEntryView>,
    entry: LocalizedLogEntryView,
    at: int,
)
    requires
        0 <= at <= sorted.len(),
        forall|k: int| at <= k < sorted.len() ==> sorted[k].block_number > entry.block_number,
        at > 0 ==> sorted[at - 1].block_number <= entry.block_number,
    ensures
        insert_by_block(sorted, entry) == sorted.insert(at, entry),
    decreases sorted.len() - at,
{
    if sorted.len() == 0 {
        assert(sorted.insert(at, entry) =~= seq![entry]);
    } else if at == sorted.len() {
        assert(sorted.insert(at, entry) =~= sorted.push(entry));
    } else {
        let front = sorted.drop_last();
        lemma_insert_by_block_at(front, entry, at);
        assert(front.insert(at, entry).push(sorted.last()) =~= sorted.insert(at, entry));
    }
}

/// Puts `entry` into `sorted` behind every entry whose block number is at
/// most its own.
pub fn insert_log(sorted: &mut Vec<LocalizedLogEntry>, entry: LocalizedLogEntry)
    ensures
        localized_log_views(final(sorted)@) == insert_by_block(
            localized_log_views(old(sorted)@),
            entry@,
        ),
{
    let mut at: usize = sorted.len();
    while at > 0 && sorted[at - 1].block_number > entry.block_number
        invariant
            at <= sorted@.len(),
            forall|k: int|
                at <= k < sorted@.len() ==> (#[trigger] sorted@[k]).block_number
                    > entry.block_number,
        decreases at,
    {
        at -= 1;
    }
    proof {
        let views = localized_log_views(sorted@);
        lemma_insert_by_block_at(views, entry@, at as int);
        assert(localized_log_views(sorted@.insert(at as int, entry)) =~= views.insert(
            at as int,
            entry@,
        ));
    }
    sorted.insert(at, entry);
}

} // verus!
