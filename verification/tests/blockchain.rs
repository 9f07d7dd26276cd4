use web3_gateway::blockchain::{Blockchain, ChainState, EthereumBlock, BLOCK_GAS_LIMIT};
use web3_gateway::confidential::ConfidentialCtx;
use web3_gateway::decode::decode_transaction;
use web3_gateway::error::Error;
use web3_gateway::execution::{
    ApplyOutcome, CallError, EnvInfo, Executed, ExecutionResult, VmError,
};
use web3_gateway::filter::{BlockId, Filter};
use web3_gateway::primitives::{Address, Bloom, H256, U256};
use web3_gateway::receipt::{LogEntry, Receipt, TransactionOutcome};
use web3_gateway::transaction::{Action, SignedTransaction, UnverifiedTransaction};

const SENDER: Address = Address { bytes: [0xaa; 20] };

fn raw_tx(nonce: u64, gas_price: u64, gas: u64, to: Option<[u8; 20]>, value: u64) -> Vec<u8> {
    let mut s = rlp::RlpStream::new_list(9);
    s.append(&nonce);
    s.append(&gas_price);
    s.append(&gas);
    match to {
        Some(address) => s.append(&address.to_vec()),
        None => s.append_empty_data(),
    };
    s.append(&value);
    s.append(&vec![0xde_u8, 0xad]);
    s.append(&27u64);
    s.append(&1u64);
    s.append(&2u64);
    s.out().to_vec()
}

fn t1() -> Vec<u8> {
    raw_tx(0, 2, 21000, Some([0xbb; 20]), 5)
}

fn keccak(data: &[u8]) -> H256 {
    H256 { bytes: keccak_hash::keccak(data).0 }
}

fn outcome(gas_used: u64, logs: Vec<LogEntry>) -> ApplyOutcome {
    ApplyOutcome {
        receipt: Receipt {
            gas_used: U256::from_u64(gas_used),
            log_bloom: Bloom::zero(),
            logs,
            outcome: TransactionOutcome::StatusCode(1),
        },
        output: vec![1, 2, 3],
        contract_address: Address { bytes: [0xcc; 20] },
    }
}

fn recover(_t: UnverifiedTransaction) -> Option<Address> {
    Some(SENDER)
}

fn transfer(
    _env: EnvInfo,
    _txn: SignedTransaction,
    _ctx: ConfidentialCtx,
) -> Result<ApplyOutcome, String> {
    Ok(outcome(21000, vec![]))
}

fn chain() -> Blockchain {
    Blockchain::new(U256::from_u64(1), U256::from_u64(BLOCK_GAS_LIMIT as u64))
}

fn send(chain: &mut Blockchain, raw: Vec<u8>) -> Result<(H256, ExecutionResult), Error> {
    chain.send_raw_transaction(raw, 1_600_000_000, recover, transfer)
}

#[test]
fn test_genesis() {
    let chain = chain();
    assert_eq!(chain.best_block_number(), 0);
    let genesis = chain.get_block(BlockId::Earliest).unwrap();
    assert_eq!(genesis.number_u64(), 0);
    assert_eq!(genesis.hash(), keccak(b"0"));
    assert_eq!(genesis.parent_hash, H256::zero());
    assert_eq!(genesis.timestamp, 0);
    assert_eq!(genesis.gas_used, U256::from_u64(0));
    assert_eq!(genesis.gas_limit, U256::from_u64(16_000_000));
    assert!(genesis.transactions().is_empty());
    assert!(genesis.logs.is_empty());
    assert_eq!(chain.get_latest_block(), genesis);
    assert_eq!(chain.get_block_by_hash(keccak(b"0")), Some(genesis));
    assert_eq!(chain.get_block_by_number(1), None);
    assert_eq!(chain.get_txn_by_hash(keccak(&t1())), None);
    assert_eq!(chain.get_txn_receipt_by_hash(keccak(&t1())), None);
    assert_eq!(chain.get_txn(BlockId::Latest, 0), None);
    assert_eq!(chain.gas_price(), U256::from_u64(1));

    // The same every time.
    let again = ChainState::new();
    assert_eq!(
        again.get_block_by_number(0).unwrap().hash(),
        genesis.hash()
    );
    assert_eq!(again.best_block_number(), 0);
}

#[test]
fn test_scenario_first_transaction() {
    let mut chain = chain();
    let (hash, result) = send(&mut chain, t1()).unwrap();
    assert_eq!(chain.best_block_number(), 1);
    assert_eq!(result.status_code, 1);
    assert_eq!(result.cumulative_gas_used, U256::from_u64(21000));
    assert_eq!(result.gas_used, U256::from_u64(21000));
    assert_eq!(result.output, vec![1, 2, 3]);
    assert_eq!(result.logs, vec![]);
    assert_eq!(hash, keccak(&t1()));
    let block = chain.get_latest_block();
    assert_eq!(block.number_u64(), 1);
    assert_eq!(block.timestamp, 1_600_000_000);
    assert_eq!(block.gas_used, U256::from_u64(21000));
    assert_eq!(block.gas_limit, U256::from_u64(BLOCK_GAS_LIMIT as u64));
}

#[test]
fn test_sequencing() {
    let mut chain = chain();
    let n = 6u64;
    for i in 0..n {
        send(&mut chain, raw_tx(i, 2, 21000, Some([0xbb; 20]), 5)).unwrap();
        assert_eq!(chain.best_block_number(), i + 1);
    }
    for i in 1..=n {
        let block = chain.get_block_by_number(i).unwrap();
        let parent = chain.get_block_by_number(i - 1).unwrap();
        assert_eq!(block.number_u64(), i);
        assert_eq!(block.parent_hash, parent.hash());
        assert_eq!(block.hash(), keccak(i.to_string().as_bytes()));
        assert_eq!(block.transactions().len(), 1);
    }
    assert_eq!(chain.get_block_by_number(n + 1), None);
}

#[test]
fn test_gas_above_block_limit_is_refused_without_trace() {
    let mut chain = chain();
    send(&mut chain, t1()).unwrap();
    let raw = raw_tx(1, 2, BLOCK_GAS_LIMIT as u64 + 1, Some([0xbb; 20]), 5);
    let mut asked = false;
    let res = chain.send_raw_transaction(
        raw.clone(),
        7,
        |_t| {
            asked = true;
            Some(SENDER)
        },
        transfer,
    );
    assert_eq!(res, Err(Error::GasLimit));
    assert_eq!(
        Error::GasLimit.message(),
        "Requested gas greater than block gas limit"
    );
    assert!(!asked);
    assert_eq!(chain.best_block_number(), 1);
    assert_eq!(chain.get_block_by_number(2), None);
    assert_eq!(chain.get_txn_by_hash(keccak(&raw)), None);
    assert_eq!(chain.get_txn_receipt_by_hash(keccak(&raw)), None);

    // Gas at the limit passes.
    let raw = raw_tx(1, 2, BLOCK_GAS_LIMIT as u64, Some([0xbb; 20]), 5);
    assert!(send(&mut chain, raw).is_ok());
    assert_eq!(chain.best_block_number(), 2);
}

#[test]
fn test_undecodable_transaction() {
    let mut chain = chain();
    assert_eq!(send(&mut chain, vec![]), Err(Error::Decode));
    assert_eq!(send(&mut chain, vec![0x01, 0x02, 0x03]), Err(Error::Decode));
    assert_eq!(Error::Decode.message(), "Could not decode transaction");

    // A list of eight items.
    let mut s = rlp::RlpStream::new_list(8);
    for i in 0..8u64 {
        s.append(&i);
    }
    assert_eq!(send(&mut chain, s.out().to_vec()), Err(Error::Decode));

    // A destination that is neither empty nor an address.
    let mut s = rlp::RlpStream::new_list(9);
    s.append(&0u64).append(&2u64).append(&21000u64);
    s.append(&vec![1u8, 2, 3]);
    s.append(&0u64).append(&vec![0u8; 0]).append(&27u64).append(&1u64).append(&2u64);
    assert_eq!(send(&mut chain, s.out().to_vec()), Err(Error::Decode));

    // The raw transaction cut short.
    let mut raw = t1();
    raw.pop();
    assert_eq!(send(&mut chain, raw), Err(Error::Decode));
    assert_eq!(chain.best_block_number(), 0);
}

#[test]
fn test_invalid_signature() {
    let mut chain = chain();
    let mut ran = false;
    let res = chain.send_raw_transaction(
        t1(),
        7,
        |_t| None,
        |env, txn, ctx| {
            ran = true;
            transfer(env, txn, ctx)
        },
    );
    assert_eq!(res, Err(Error::Signature));
    assert_eq!(Error::Signature.message(), "Invalid signature");
    assert!(!ran);
    assert_eq!(chain.best_block_number(), 0);
}

#[test]
fn test_gas_limit_is_checked_before_the_signature() {
    let mut chain = chain();
    let raw = raw_tx(0, 0, BLOCK_GAS_LIMIT as u64 + 1, Some([0xbb; 20]), 5);
    let res = chain.send_raw_transaction(raw, 7, |_t| None, transfer);
    assert_eq!(res, Err(Error::GasLimit));
}

#[test]
fn test_insufficient_gas_price() {
    let mut chain = Blockchain::new(U256::from_u64(3), U256::from_u64(BLOCK_GAS_LIMIT as u64));
    assert_eq!(send(&mut chain, t1()), Err(Error::GasPrice));
    assert_eq!(Error::GasPrice.message(), "Insufficient gas price");
    assert_eq!(chain.best_block_number(), 0);
    // The signature is looked at first.
    let res = chain.send_raw_transaction(t1(), 7, |_t| None, transfer);
    assert_eq!(res, Err(Error::Signature));
    // A price at the minimum passes.
    let raw = raw_tx(0, 3, 21000, Some([0xbb; 20]), 5);
    assert!(send(&mut chain, raw).is_ok());
}

#[test]
fn test_execution_failure_discards_the_block() {
    let mut chain = chain();
    send(&mut chain, t1()).unwrap();
    let raw = raw_tx(1, 2, 21000, Some([0xbb; 20]), 5);
    let res = chain.send_raw_transaction(raw.clone(), 7, recover, |_, _, _| {
        Err("Transaction execution error (OutOfGas).".to_string())
    });
    let err = res.err().unwrap();
    assert_eq!(
        err,
        Error::Execution("Transaction execution error (OutOfGas).".to_string())
    );
    assert_eq!(err.message(), "Transaction execution error (OutOfGas).");
    assert_eq!(chain.best_block_number(), 1);
    assert_eq!(chain.get_block_by_number(2), None);
    assert_eq!(chain.get_txn_by_hash(keccak(&raw)), None);
    assert_eq!(chain.get_txn_receipt_by_hash(keccak(&raw)), None);
}

#[test]
fn test_receipt_without_status_code_is_refused() {
    let mut chain = chain();
    let res = chain.send_raw_transaction(t1(), 7, recover, |_, _, _| {
        let mut o = outcome(21000, vec![]);
        o.receipt.outcome = TransactionOutcome::StateRoot(H256::zero());
        Ok(o)
    });
    assert_eq!(res, Err(Error::UnsupportedOutcome));
    assert_eq!(chain.best_block_number(), 0);
}

#[test]
fn test_failed_status_code_is_mined() {
    let mut chain = chain();
    let (_, result) = chain
        .send_raw_transaction(t1(), 7, recover, |_, _, _| {
            let mut o = outcome(30000, vec![]);
            o.receipt.outcome = TransactionOutcome::StatusCode(0);
            Ok(o)
        })
        .unwrap();
    assert_eq!(result.status_code, 0);
    assert_eq!(result.gas_used, U256::from_u64(30000));
    assert_eq!(chain.best_block_number(), 1);
}

#[test]
fn test_cross_references() {
    let mut chain = chain();
    send(&mut chain, t1()).unwrap();
    let raw = raw_tx(1, 2, 21000, Some([0xbb; 20]), 9);
    let (hash, _) = send(&mut chain, raw.clone()).unwrap();
    assert_eq!(hash, keccak(&raw));

    let block = chain.get_block_by_number(2).unwrap();
    assert_eq!(chain.get_block_by_hash(block.hash()), Some(block));
    assert_eq!(chain.get_block(BlockId::Hash(block.hash())), Some(block));
    assert_eq!(chain.get_block(BlockId::Latest), Some(block));

    let txn = chain.get_txn_by_hash(hash).unwrap();
    assert_eq!(txn.block_hash, block.hash());
    assert_eq!(txn.block_number, 2);
    assert_eq!(txn.transaction_index, 0);
    assert_eq!(txn.cached_sender, None);
    assert_eq!(txn.signed.hash, hash);
    assert_eq!(txn.signed.unsigned.value, U256::from_u64(9));
    assert_eq!(block.transactions(), &vec![txn.clone()]);

    let receipt = chain.get_txn_receipt_by_hash(hash).unwrap();
    assert_eq!(receipt.transaction_hash, hash);
    assert_eq!(receipt.block_hash, block.hash());
    assert_eq!(receipt.block_number, 2);
    assert_eq!(receipt.transaction_index, 0);
    assert_eq!(receipt.gas_used, U256::from_u64(21000));
    assert_eq!(receipt.cumulative_gas_used, U256::from_u64(21000));
    assert_eq!(receipt.outcome, TransactionOutcome::StatusCode(1));
    assert_eq!(receipt.contract_address, None);
}

#[test]
fn test_transaction_lookups_by_place() {
    let mut chain = chain();
    let (hash, _) = send(&mut chain, t1()).unwrap();
    let block_hash = chain.get_latest_block().hash();
    let txn = chain.get_txn_by_hash(hash).unwrap();
    assert_eq!(chain.get_txn(BlockId::Latest, 0), Some(txn));
    assert_eq!(chain.get_txn(BlockId::Number(1), 0), Some(txn));
    assert_eq!(chain.get_txn(BlockId::Hash(block_hash), 0), Some(txn));
    assert_eq!(chain.get_txn_by_number_and_index(1, 0), Some(txn));
    assert_eq!(chain.get_txn_by_block_hash_and_index(block_hash, 0), Some(txn));
    assert_eq!(chain.get_txn(BlockId::Latest, 1), None);
    assert_eq!(chain.get_txn(BlockId::Earliest, 0), None);
    assert_eq!(chain.get_txn(BlockId::Number(2), 0), None);
    assert_eq!(chain.get_txn_by_block_hash_and_index(H256::zero(), 0), None);
}

#[test]
fn test_missing_block() {
    let chain = chain();
    assert_eq!(chain.get_block(BlockId::Number(99)), None);
    assert_eq!(chain.get_block(BlockId::Hash(H256::zero())), None);
    assert_eq!(
        chain.get_block_unwrap(BlockId::Number(99)),
        Err(Error::BlockNotFound)
    );
    assert_eq!(Error::BlockNotFound.message(), "block not found");
    assert!(chain.get_block_unwrap(BlockId::Latest).is_ok());
}

#[test]
fn test_contract_creation_names_the_new_address() {
    let mut chain = chain();
    let raw = raw_tx(0, 2, 100_000, None, 0);
    let (hash, _) = send(&mut chain, raw).unwrap();
    let receipt = chain.get_txn_receipt_by_hash(hash).unwrap();
    assert_eq!(receipt.contract_address, Some(Address { bytes: [0xcc; 20] }));
    let txn = chain.get_txn_by_hash(hash).unwrap();
    assert_eq!(txn.signed.unsigned.action, Action::Create);
}

#[test]
fn test_engine_is_handed_the_next_block() {
    let mut chain = chain();
    send(&mut chain, t1()).unwrap();
    let best_hash = chain.get_latest_block().hash();
    let mut seen = None;
    let mut encrypting = true;
    chain
        .send_raw_transaction(
            raw_tx(1, 2, 21000, Some([0xbb; 20]), 5),
            1234,
            recover,
            |env, txn, ctx| {
                encrypting = ctx.is_encrypting() || ctx.activated() || ctx.peer().is_some();
                seen = Some((env, txn));
                Ok(outcome(21000, vec![]))
            },
        )
        .unwrap();
    let (env, txn) = seen.unwrap();
    assert_eq!(env.number, 2);
    assert_eq!(env.timestamp, 1234);
    assert_eq!(env.gas_limit, U256::from_u64(BLOCK_GAS_LIMIT as u64));
    assert_eq!(env.last_hashes, vec![best_hash]);
    assert_eq!(env.author, Address::zero());
    assert_eq!(env.difficulty, U256::from_u64(0));
    assert_eq!(env.gas_used, U256::from_u64(0));
    assert_eq!(txn.sender, SENDER);
    assert_eq!(txn.transaction.unsigned.nonce, U256::from_u64(1));
    assert!(!encrypting);
}

#[test]
fn test_decode_transaction_fields() {
    let big = ethereum_types::U256::from_dec_str(
        "115792089237316195423570985008687907853269984665640564039457584007913129639935",
    )
    .unwrap();
    let wide = (ethereum_types::U256::from(7u64) << 64) + ethereum_types::U256::from(5u64);
    let mut s = rlp::RlpStream::new_list(9);
    s.append(&3u64);
    s.append(&wide);
    s.append(&21000u64);
    s.append(&vec![0xbb_u8; 20]);
    s.append(&big);
    s.append(&vec![9u8, 8, 7]);
    s.append(&0x1234_5678_9abc_u64);
    s.append(&1u64);
    s.append(&0u64);
    let raw = s.out().to_vec();
    let t = decode_transaction(&raw).unwrap();
    assert_eq!(t.unsigned.nonce, U256::from_u64(3));
    assert_eq!(t.unsigned.gas_price, U256 { w0: 5, w1: 7, w2: 0, w3: 0 });
    assert_eq!(t.unsigned.gas, U256::from_u64(21000));
    assert_eq!(t.unsigned.action, Action::Call(Address { bytes: [0xbb; 20] }));
    assert_eq!(t.unsigned.value, U256::max_value());
    assert_eq!(t.unsigned.data, vec![9u8, 8, 7]);
    assert_eq!(t.v, 0x1234_5678_9abc);
    assert_eq!(t.r, U256::from_u64(1));
    assert_eq!(t.s, U256::from_u64(0));
    assert_eq!(t.hash, keccak(&raw));
    assert_ne!(t.hash.bytes.to_vec(), raw[..32].to_vec());
}

#[test]
fn test_decode_refuses_a_number_with_leading_zero() {
    // nonce encoded as 0x00 0x01
    let mut raw = vec![0xc0u8];
    let mut body = vec![0x82, 0x00, 0x01];
    for _ in 0..8 {
        body.push(0x01);
    }
    raw[0] = 0xc0 + body.len() as u8;
    raw.extend_from_slice(&body);
    assert_eq!(decode_transaction(&raw), Err(Error::Decode));
}

fn log(address: u8, topics: Vec<u8>) -> LogEntry {
    LogEntry {
        address: Address { bytes: [address; 20] },
        topics: topics.into_iter().map(|t| H256 { bytes: [t; 32] }).collect(),
        data: vec![address],
    }
}

fn chain_with_logs() -> Blockchain {
    let mut chain = chain();
    for i in 1..=5u8 {
        let logs = vec![log(1, vec![i]), log(2, vec![i, 100]), log(1, vec![])];
        chain
            .send_raw_transaction(
                raw_tx(i as u64, 2, 21000, Some([0xbb; 20]), 5),
                7,
                recover,
                move |_, _, _| Ok(outcome(21000, logs)),
            )
            .unwrap();
    }
    chain
}

fn filter(from: BlockId, to: BlockId) -> Filter {
    Filter { from_block: from, to_block: to, address: None, topics: vec![], limit: None }
}

#[test]
fn test_logs_filter() {
    let chain = chain_with_logs();
    let found = chain
        .logs(&filter(BlockId::Number(2), BlockId::Number(4)))
        .unwrap();
    let numbers: Vec<u64> = found.iter().map(|l| l.block_number).collect();
    assert_eq!(numbers, vec![2, 2, 2, 3, 3, 3, 4, 4, 4]);
    let places: Vec<usize> = found.iter().map(|l| l.log_index).collect();
    assert_eq!(places, vec![0, 1, 2, 0, 1, 2, 0, 1, 2]);
    for entry in &found {
        let block = chain.get_block_by_number(entry.block_number).unwrap();
        assert_eq!(entry.block_hash, block.hash());
        assert_eq!(entry.transaction_hash, block.transactions()[0].signed.hash);
        assert_eq!(entry.transaction_index, 0);
        assert_eq!(entry.transaction_log_index, entry.log_index);
    }

    // Only one address.
    let mut by_address = filter(BlockId::Number(2), BlockId::Number(4));
    by_address.address = Some(vec![Address { bytes: [2; 20] }]);
    let found = chain.logs(&by_address).unwrap();
    assert_eq!(
        found.iter().map(|l| l.block_number).collect::<Vec<u64>>(),
        vec![2, 3, 4]
    );
    assert!(found.iter().all(|l| l.entry.address == Address { bytes: [2; 20] }));

    // An empty list of addresses accepts every address.
    by_address.address = Some(vec![]);
    assert_eq!(chain.logs(&by_address).unwrap().len(), 9);

    // A topic at the first place.
    let mut by_topic = filter(BlockId::Earliest, BlockId::Latest);
    by_topic.topics = vec![Some(vec![H256 { bytes: [3; 32] }, H256 { bytes: [5; 32] }])];
    let found = chain.logs(&by_topic).unwrap();
    assert_eq!(
        found.iter().map(|l| (l.block_number, l.log_index)).collect::<Vec<(u64, usize)>>(),
        vec![(3, 0), (3, 1), (5, 0), (5, 1)]
    );

    // A topic at the second place, any at the first.
    by_topic.topics = vec![None, Some(vec![H256 { bytes: [100; 32] }])];
    let found = chain.logs(&by_topic).unwrap();
    assert_eq!(found.len(), 5);
    assert!(found.iter().all(|l| l.log_index == 1));

    // Address and topic together.
    by_topic.address = Some(vec![Address { bytes: [1; 20] }]);
    assert_eq!(chain.logs(&by_topic).unwrap(), vec![]);
}

#[test]
fn test_logs_range_ends() {
    let chain = chain_with_logs();
    assert_eq!(
        chain.logs(&filter(BlockId::Number(6), BlockId::Latest)),
        Err(Error::BlockNotFound)
    );
    assert_eq!(
        chain.logs(&filter(BlockId::Earliest, BlockId::Number(6))),
        Err(Error::BlockNotFound)
    );
    assert_eq!(
        chain.logs(&filter(BlockId::Number(4), BlockId::Number(2))),
        Ok(vec![])
    );
    let one = chain
        .logs(&filter(BlockId::Latest, BlockId::Latest))
        .unwrap();
    assert_eq!(one.iter().map(|l| l.block_number).collect::<Vec<u64>>(), vec![5, 5, 5]);
    let by_hash = chain
        .logs(&filter(
            BlockId::Hash(keccak(b"1")),
            BlockId::Hash(keccak(b"1")),
        ))
        .unwrap();
    assert_eq!(by_hash.len(), 3);
    assert_eq!(
        chain.logs(&filter(BlockId::Earliest, BlockId::Earliest)),
        Ok(vec![])
    );
    assert_eq!(
        chain
            .logs(&filter(BlockId::Earliest, BlockId::Latest))
            .unwrap()
            .len(),
        15
    );
}

#[test]
fn test_mined_logs_are_in_block_and_receipt() {
    let chain = chain_with_logs();
    let block: &EthereumBlock = chain.get_block_by_number(3).unwrap();
    let hash = block.transactions()[0].signed.hash;
    let receipt = chain.get_txn_receipt_by_hash(hash).unwrap();
    assert_eq!(receipt.logs, block.logs);
    assert_eq!(block.logs.len(), 3);
    assert_eq!(block.logs[1].entry, log(2, vec![3, 100]));
}

fn signed() -> SignedTransaction {
    SignedTransaction { transaction: decode_transaction(&t1()).unwrap(), sender: SENDER }
}

#[test]
fn test_simulate_and_estimate_gas() {
    let mut chain = chain();
    send(&mut chain, t1()).unwrap();
    let best_hash = chain.get_latest_block().hash();
    let executed = |gas_used: u64, refunded: u64, exception: Option<VmError>| Executed {
        gas_used: U256::from_u64(gas_used),
        refunded: U256::from_u64(refunded),
        exception,
        output: vec![],
    };

    let mut seen = None;
    let res = chain.simulate_transaction(signed(), BlockId::Latest, 77, |env, txn| {
        seen = Some((env, txn));
        Ok(executed(21000, 300, None))
    });
    assert_eq!(res, Ok(executed(21000, 300, None)));
    let (env, txn) = seen.unwrap();
    assert_eq!(env.number, 2);
    assert_eq!(env.timestamp, 77);
    assert_eq!(env.gas_limit, U256::max_value());
    assert_eq!(env.last_hashes, vec![best_hash]);
    assert_eq!(txn, signed());

    let gas = chain.estimate_gas(signed(), BlockId::Latest, 77, |_, _| {
        Ok(executed(21000, 300, None))
    });
    assert_eq!(gas, Ok(U256::from_u64(21300)));

    // A revert still gives an estimate.
    let gas = chain.estimate_gas(signed(), BlockId::Latest, 77, |_, _| {
        Ok(executed(50000, 0, Some(VmError::Reverted)))
    });
    assert_eq!(gas, Ok(U256::from_u64(50000)));
    assert!(executed(1, 1, Some(VmError::Reverted)).stopped_short());
    assert!(executed(1, 1, Some(VmError::OutOfGas)).stopped_short());
    assert!(!executed(1, 1, Some(VmError::Other("bad jump".to_string()))).stopped_short());
    assert!(!executed(1, 1, None).stopped_short());

    let gas = chain.estimate_gas(signed(), BlockId::Latest, 77, |_, _| {
        Err(CallError::StateCorrupt)
    });
    assert_eq!(gas, Err(CallError::StateCorrupt));

    let gas = chain.estimate_gas(signed(), BlockId::Latest, 77, |_, _| {
        Ok(Executed {
            gas_used: U256::max_value(),
            refunded: U256::from_u64(1),
            exception: None,
            output: vec![],
        })
    });
    assert_eq!(gas, Err(CallError::GasOverflow));

    // Nothing was filed.
    assert_eq!(chain.best_block_number(), 1);
}

#[test]
fn test_mine_block_and_apply_outcome() {
    let mut chain = chain();
    let (hash, result) = chain.mine_block(signed(), 5, transfer).unwrap();
    assert_eq!(hash, keccak(&t1()));
    assert_eq!(result.status_code, 1);
    assert_eq!(chain.best_block_number(), 1);

    let res = chain.apply_outcome(&signed(), 6, Err("reverted".to_string()));
    assert_eq!(res, Err(Error::Execution("reverted".to_string())));
    assert_eq!(chain.best_block_number(), 1);

    // The same transaction again: its record and receipt are replaced.
    let (again, _) = chain
        .apply_outcome(&signed(), 6, Ok(outcome(99, vec![])))
        .unwrap();
    assert_eq!(again, hash);
    assert_eq!(chain.best_block_number(), 2);
    assert_eq!(chain.get_txn_by_hash(hash).unwrap().block_number, 2);
    assert_eq!(
        chain.get_txn_receipt_by_hash(hash).unwrap().gas_used,
        U256::from_u64(99)
    );
    assert_eq!(chain.get_txn(BlockId::Number(1), 0).unwrap().block_number, 1);
}

#[test]
fn test_decode_never_panics_on_garbage() {
    let mut state: u64 = 0x9e37_79b9_7f4a_7c15;
    let mut next = move || {
        state ^= state << 13;
        state ^= state >> 7;
        state ^= state << 17;
        state
    };
    let good = t1();
    for round in 0..4000u32 {
        let mut raw = if round % 2 == 0 {
            // A transaction with some bytes struck.
            let mut raw = good.clone();
            for _ in 0..(1 + next() % 3) {
                let at = (next() as usize) % raw.len();
                raw[at] = next() as u8;
            }
            raw
        } else {
            (0..(next() % 40)).map(|_| next() as u8).collect::<Vec<u8>>()
        };
        if round % 5 == 0 {
            raw.truncate((next() as usize) % (raw.len() + 1));
        }
        match decode_transaction(&raw) {
            Ok(t) => assert_eq!(t.hash, keccak(&raw)),
            Err(e) => assert_eq!(e, Error::Decode),
        }
    }
}
