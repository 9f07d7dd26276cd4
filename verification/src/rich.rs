//! Blocks as the RPC layer shows them.

use vstd::prelude::*;
use vstd::string::StringExecFns;

use crate::chain_state::EthereumBlock;
use crate::hashing::{keccak256, keccak256_digest};
use crate::primitives::{Address, Bloom, H256, U256};
use crate::transaction::{transaction_views, LocalizedTransaction};

verus! {

/// A block header as the RPC layer shows it.
#[derive(Clone, Debug, PartialEq, Eq)]
pub struct Header {
    pub hash: Option<H256>,
    pub size: Option<U256>,
    pub parent_hash: H256,
    pub uncles_hash: H256,
    pub author: Address,
    pub miner: Address,
    pub state_root: H256,
    pub transactions_root: H256,
    pub receipts_root: H256,
    pub number: Option<U256>,
    pub gas_used: U256,
    pub gas_limit: U256,
    pub logs_bloom: Bloom,
    pub timestamp: U256,
    pub difficulty: U256,
    pub seal_fields: Vec<Vec<u8>>,
    pub extra_data: Vec<u8>,
}

/// A header with the extras that proof-of-work clients expect, as pairs of
/// name and value in the order of the names.
#[derive(Clone, Debug, PartialEq, Eq)]
pub struct RichHeader {
    pub inner: Header,
    pub extra_info: Vec<(String, String)>,
}

/// The transactions of a block as the RPC layer shows them: in full, or by
/// their hashes.
#[derive(Clone, Debug, PartialEq, Eq)]
pub enum BlockTransactions {
    Hashes(Vec<H256>),
    Full(Vec<LocalizedTransaction>),
}

/// A block as the RPC layer shows it.
#[derive(Clone, Debug, PartialEq, Eq)]
pub struct RichBlock {
    pub header: RichHeader,
    pub total_difficulty: Option<U256>,
    pub uncles: Vec<H256>,
    pub transactions: BlockTransactions,
}

/// The Keccak-256 digest of the RLP encoding of the empty list, which
/// stands for a block without uncles.
pub open spec fn empty_list_hash() -> Seq<u8> {
    keccak256_digest(seq![0xc0u8])
}

/// Whether `header` is the header of `block`: it shows what the block
/// holds, no uncles, and nothing for what the ledger does not keep.
pub open spec fn is_header_of(header: Header, block: EthereumBlock) -> bool {
    &&& header.hash == Some(block.hash)
    &&& header.size is None
    &&& header.parent_hash == block.parent_hash
    &&& header.uncles_hash@ == empty_list_hash()
    &&& header.author@ == Seq::new(20, |i: int| 0u8)
    &&& header.miner@ == Seq::new(20, |i: int| 0u8)
    &&& header.state_root@ == Seq::new(32, |i: int| 0u8)
    &&& header.transactions_root@ == Seq::new(32, |i: int| 0u8)
    &&& header.receipts_root@ == Seq::new(32, |i: int| 0u8)
    &&& header.number is Some
    &&& header.number.unwrap().as_nat() == block.number
    &&& header.gas_used == block.gas_used
    &&& header.gas_limit == block.gas_limit
    &&& header.logs_bloom == block.log_bloom
    &&& header.timestamp.as_nat() == block.timestamp
    &&& header.difficulty.as_nat() == 0
    &&& header.seal_fields@.len() == 0
    &&& header.extra_data@.len() == 0
}

/// Whether `extras` are the two extras of every block: a mix hash and a
/// nonce of zeros.
pub open spec fn is_extra_info(extras: Seq<(String, String)>) -> bool {
    &&& extras.len() == 2
    &&& extras[0].0@ == "mixHash"@
    &&& extras[0].1@ == "0x0000000000000000000000000000000000000000000000000000000000000000"@
    &&& extras[1].0@ == "nonce"@
    &&& extras[1].1@ == "0x0000000000000000"@
}

/// The hashes of a sequence of transactions, in order.
pub open spec fn hashes_of(items: Seq<LocalizedTransaction>) -> Seq<Seq<u8>> {
    Seq::new(items.len(), |i: int| items[i].signed.hash@)
}

impl EthereumBlock {
    /// The block's header with its extras.
    pub fn rich_header(&self) -> (r: RichHeader)
        ensures
            is_header_of(r.inner, *self),
            is_extra_info(r.extra_info@),
    {
        let empty_list: [u8; 1] = [0xc0u8];
        let uncles_hash = keccak256(empty_list.as_slice());
        assert(empty_list@ =~= seq![0xc0u8]);
        let mut extra_info: Vec<(String, String)> = Vec::new();
        extra_info.push(
            (
                String::from_str("mixHash"),
                String::from_str(
                    "0x0000000000000000000000000000000000000000000000000000000000000000",
                ),
            ),
        );
        extra_info.push((String::from_str("nonce"), String::from_str("0x0000000000000000")));
        RichHeader {
            inner: Header {
                hash: Some(self.hash),
                size: None,
                parent_hash: self.parent_hash,
                uncles_hash,
                author: Address::zero(),
                miner: Address::zero(),
                state_root: H256::zero(),
                transactions_root: H256::zero(),
                receipts_root: H256::zero(),
                number: Some(U256::from_u64(self.number)),
                gas_used: self.gas_used,
                gas_limit: self.gas_limit,
                logs_bloom: self.log_bloom,
                timestamp: U256::from_u64(self.timestamp),
                difficulty: U256::zero(),
                seal_fields: Vec::new(),
                extra_data: Vec::new(),
            },
            extra_info,
        }
    }

    /// The block with its header and its transactions: in full where
    /// `include_txs` is set, by their hashes where it is not.
    pub fn rich_block(&self, include_txs: bool) -> (r: RichBlock)
        ensures
            is_header_of(r.header.inner, *self),
            is_extra_info(r.header.extra_info@),
            r.total_difficulty is None,
            r.uncles@.len() == 0,
            match r.transactions {
                BlockTransactions::Full(txns) => include_txs && transaction_views(txns@)
                    == self@.transactions,
                BlockTransactions::Hashes(hashes) => !include_txs && crate::receipt::hash_views(
                    hashes@,
                ) == hashes_of(self.transactions@),
            },
    {
        let header = self.rich_header();
        let transactions = if include_txs {
            let mut full: Vec<LocalizedTransaction> = Vec::new();
            let mut i: usize = 0;
            while i < self.transactions.len()
                invariant
                    i <= self.transactions@.len(),
                    full@.len() == i,
                    forall|j: int| 0 <= j < i ==> full@[j]@ == self.transactions@[j]@,
                decreases self.transactions.len() - i,
            {
                full.push(self.transactions[i].copy());
                i += 1;
            }
            assert(transaction_views(full@) =~= self@.transactions);
            BlockTransactions::Full(full)
        } else {
            let mut hashes: Vec<H256> = Vec::new();
            let mut i: usize = 0;
            while i < self.transactions.len()
                invariant
                    i <= self.transactions@.len(),
                    hashes@.len() == i,
                    forall|j: int| 0 <= j < i ==> hashes@[j]@ == self.transactions@[j].signed.hash@,
                decreases self.transactions.len() - i,
            {
                hashes.push(self.transactions[i].signed.hash);
                i += 1;
            }
            assert(crate::receipt::hash_views(hashes@) =~= hashes_of(self.transactions@));
            BlockTransactions::Hashes(hashes)
        };
        RichBlock { header, total_difficulty: None, uncles: Vec::new(), transactions }
    }
}

} // verus!
