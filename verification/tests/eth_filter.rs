use web3_gateway::blockchain::Blockchain;
use web3_gateway::confidential::ConfidentialCtx;
use web3_gateway::decode::decode_transaction;
use web3_gateway::error::Error;
use web3_gateway::eth_filter::{limit_logs, FilterChanges, PollFilter};
use web3_gateway::execution::{ApplyOutcome, EnvInfo};
use web3_gateway::filter::{BlockId, Filter};
use web3_gateway::primitives::{Address, Bloom, H256, U256};
use web3_gateway::receipt::{LocalizedLogEntry, LogEntry, Receipt, TransactionOutcome};
use web3_gateway::rich::BlockTransactions;
use web3_gateway::rpc_apis::{endpoints, Api, Endpoint};
use web3_gateway::shutdown::{wait_step, WaitStep};
use web3_gateway::transaction::SignedTransaction;

fn raw_tx(nonce: u64) -> Vec<u8> {
    let mut s = rlp::RlpStream::new_list(9);
    s.append(&nonce).append(&2u64).append(&21000u64);
    s.append(&vec![0xbb_u8; 20]);
    s.append(&5u64).append(&vec![0u8; 0]).append(&27u64).append(&1u64).append(&2u64);
    s.out().to_vec()
}

fn mine(chain: &mut Blockchain, nonce: u64) -> H256 {
    let txn = SignedTransaction {
        transaction: decode_transaction(&raw_tx(nonce)).unwrap(),
        sender: Address { bytes: [0xaa; 20] },
    };
    let engine = move |_: EnvInfo, _: SignedTransaction, _: ConfidentialCtx| {
        Ok(ApplyOutcome {
            receipt: Receipt {
                gas_used: U256::from_u64(21000),
                log_bloom: Bloom::zero(),
                logs: vec![
                    LogEntry {
                        address: Address { bytes: [1; 20] },
                        topics: vec![],
                        data: vec![nonce as u8, 0],
                    },
                    LogEntry {
                        address: Address { bytes: [1; 20] },
                        topics: vec![],
                        data: vec![nonce as u8, 1],
                    },
                ],
                outcome: TransactionOutcome::StatusCode(1),
            },
            output: vec![],
            contract_address: Address::zero(),
        })
    };
    chain.mine_block(txn, 9, engine).unwrap().0
}

fn chain() -> Blockchain {
    Blockchain::new(U256::from_u64(1), U256::from_u64(16_000_000))
}

fn any() -> Filter {
    Filter {
        from_block: BlockId::Earliest,
        to_block: BlockId::Latest,
        address: None,
        topics: vec![],
        limit: None,
    }
}

#[test]
fn test_block_filter_reports_new_blocks() {
    let mut chain = chain();
    mine(&mut chain, 0);
    let mut poll = PollFilter::for_blocks(chain.best_block_number());
    assert_eq!(poll, PollFilter::Block(2));
    assert_eq!(
        poll.filter_changes(&chain),
        Ok(FilterChanges::Hashes(vec![]))
    );
    assert_eq!(poll, PollFilter::Block(1));
    mine(&mut chain, 1);
    mine(&mut chain, 2);
    let hash = |n: u64| chain.get_block_by_number(n).unwrap().hash();
    // The filter stands at the best block, so that one is told again.
    assert_eq!(
        poll.filter_changes(&chain),
        Ok(FilterChanges::Hashes(vec![hash(1), hash(2), hash(3)]))
    );
    assert_eq!(poll, PollFilter::Block(3));
    assert_eq!(
        poll.filter_changes(&chain),
        Ok(FilterChanges::Hashes(vec![hash(3)]))
    );
    assert_eq!(poll.filter_logs(&chain), Ok(vec![]));
}

#[test]
fn test_pending_transaction_filter_reports_nothing() {
    let mut chain = chain();
    mine(&mut chain, 0);
    let mut poll = PollFilter::for_pending_transactions();
    assert_eq!(
        poll.filter_changes(&chain),
        Ok(FilterChanges::Hashes(vec![]))
    );
    assert_eq!(poll, PollFilter::PendingTransaction(vec![]));
    assert_eq!(poll.filter_logs(&chain), Ok(vec![]));
}

fn places(logs: &[LocalizedLogEntry]) -> Vec<(u64, usize)> {
    logs.iter().map(|l| (l.block_number, l.log_index)).collect()
}

#[test]
fn test_log_filter_reports_and_moves_on() {
    let mut chain = chain();
    mine(&mut chain, 0);
    let mut poll = PollFilter::for_logs(chain.best_block_number(), any());
    mine(&mut chain, 1);
    match poll.filter_changes(&chain).unwrap() {
        FilterChanges::Logs(logs) => {
            assert_eq!(places(&logs), vec![(1, 0), (1, 1), (2, 0), (2, 1)])
        }
        other => panic!("{:?}", other),
    }
    assert_eq!(poll, PollFilter::Logs(3, any()));
    // Nothing new: the filter's block is not there yet.
    assert_eq!(poll.filter_changes(&chain), Err(Error::BlockNotFound));
    assert_eq!(poll, PollFilter::Logs(3, any()));
    mine(&mut chain, 2);
    match poll.filter_changes(&chain).unwrap() {
        FilterChanges::Logs(logs) => assert_eq!(places(&logs), vec![(3, 0), (3, 1)]),
        other => panic!("{:?}", other),
    }
    // All logs of the filter's own range.
    assert_eq!(places(&poll.filter_logs(&chain).unwrap()).len(), 6);
}

#[test]
fn test_log_filter_limit_keeps_the_last() {
    let mut chain = chain();
    mine(&mut chain, 0);
    mine(&mut chain, 1);
    let mut limited = any();
    limited.limit = Some(3);
    let mut poll = PollFilter::for_logs(0, limited.clone());
    match poll.filter_changes(&chain).unwrap() {
        FilterChanges::Logs(logs) => assert_eq!(places(&logs), vec![(1, 1), (2, 0), (2, 1)]),
        other => panic!("{:?}", other),
    }
    assert_eq!(
        places(&PollFilter::for_logs(0, limited).filter_logs(&chain).unwrap()),
        vec![(1, 1), (2, 0), (2, 1)]
    );
    let all = chain.logs(&any()).unwrap();
    assert_eq!(limit_logs(all.clone(), None), all);
    assert_eq!(limit_logs(all.clone(), Some(4)), all);
    assert_eq!(limit_logs(all.clone(), Some(9)), all);
    assert_eq!(limit_logs(all.clone(), Some(0)), vec![]);
    assert_eq!(limit_logs(all.clone(), Some(1)), all[3..].to_vec());
}

#[test]
fn test_rich_block() {
    let mut chain = chain();
    let hash = mine(&mut chain, 0);
    let block = chain.get_block_by_number(1).unwrap();
    let header = block.rich_header();
    assert_eq!(header.inner.hash, Some(block.hash()));
    assert_eq!(header.inner.size, None);
    assert_eq!(header.inner.parent_hash, chain.get_block_by_number(0).unwrap().hash());
    assert_eq!(
        header.inner.uncles_hash.bytes,
        keccak_hash::KECCAK_EMPTY_LIST_RLP.0
    );
    assert_eq!(header.inner.number, Some(U256::from_u64(1)));
    assert_eq!(header.inner.gas_used, U256::from_u64(21000));
    assert_eq!(header.inner.gas_limit, U256::from_u64(16_000_000));
    assert_eq!(header.inner.timestamp, U256::from_u64(9));
    assert_eq!(header.inner.difficulty, U256::zero());
    assert_eq!(header.inner.author, Address::zero());
    assert_eq!(header.inner.state_root, H256::zero());
    assert!(header.inner.seal_fields.is_empty());
    assert!(header.inner.extra_data.is_empty());
    assert_eq!(
        header.extra_info,
        vec![
            (
                "mixHash".to_string(),
                format!("0x{}", "0".repeat(64))
            ),
            ("nonce".to_string(), format!("0x{}", "0".repeat(16))),
        ]
    );

    let by_hash = block.rich_block(false);
    assert_eq!(by_hash.header, header);
    assert_eq!(by_hash.transactions, BlockTransactions::Hashes(vec![hash]));
    assert_eq!(by_hash.total_difficulty, None);
    assert!(by_hash.uncles.is_empty());
    let full = block.rich_block(true);
    assert_eq!(
        full.transactions,
        BlockTransactions::Full(block.transactions().clone())
    );
    let genesis = chain.get_block_by_number(0).unwrap().rich_block(true);
    assert_eq!(genesis.transactions, BlockTransactions::Full(vec![]));
}

#[test]
fn test_endpoints() {
    assert_eq!(endpoints(Api::Web3, false), vec![Endpoint::Web3]);
    assert_eq!(endpoints(Api::Net, true), vec![Endpoint::Net]);
    assert_eq!(
        endpoints(Api::Eth, false),
        vec![Endpoint::Eth, Endpoint::EthSigning, Endpoint::EthFilter]
    );
    assert_eq!(
        endpoints(Api::Eth, true),
        vec![Endpoint::Eth, Endpoint::EthSigning]
    );
    assert_eq!(endpoints(Api::EthPubSub, false), vec![Endpoint::EthPubSub]);
    assert_eq!(endpoints(Api::EthPubSub, true), vec![]);
    assert_eq!(endpoints(Api::Oasis, true), vec![Endpoint::Oasis]);
}

#[test]
fn test_wait_step() {
    assert_eq!(wait_step(0, true, false), WaitStep::Done);
    assert_eq!(wait_step(0, false, false), WaitStep::Sleep { warn: false });
    assert_eq!(wait_step(60, false, false), WaitStep::Sleep { warn: false });
    assert_eq!(wait_step(61, false, false), WaitStep::Sleep { warn: true });
    assert_eq!(wait_step(61, false, true), WaitStep::Sleep { warn: false });
    assert_eq!(wait_step(299, true, true), WaitStep::Done);
    assert_eq!(wait_step(300, true, true), WaitStep::TimedOut);
    assert_eq!(wait_step(300, false, false), WaitStep::TimedOut);
}
