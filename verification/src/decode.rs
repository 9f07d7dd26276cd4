//! Raw transactions: from RLP bytes to the transaction they encode.

use vstd::prelude::*;

use crate::error::Error;
use crate::hashing::{keccak256, keccak256_digest};
use crate::primitives::{lemma_u256_of_value, u256_of, Address, U256};
use crate::transaction::{
    Action, ActionView, Transaction, TransactionView, UnverifiedTransaction,
    UnverifiedTransactionView,
};

verus! {

/// The number of items of the RLP list that `raw` encodes, where it encodes
/// a list.
pub uninterp spec fn rlp_item_count_of(raw: Seq<u8>) -> Option<nat>;

/// The unsigned number of at most 256 bits that item `index` of the RLP
/// list `raw` encodes, where it encodes one.
pub uninterp spec fn rlp_uint_at_of(raw: Seq<u8>, index: nat) -> Option<nat>;

/// The unsigned number of at most 64 bits that item `index` of the RLP list
/// `raw` encodes, where it encodes one.
pub uninterp spec fn rlp_u64_at_of(raw: Seq<u8>, index: nat) -> Option<u64>;

/// The byte string that item `index` of the RLP list `raw` encodes, where
/// it encodes one.
pub uninterp spec fn rlp_bytes_at_of(raw: Seq<u8>, index: nat) -> Option<Seq<u8>>;

/// Calls `rlp::Rlp::item_count` on the bytes: the number of items where the
/// bytes start an RLP list, nothing where they do not. The count is known
/// only as `rlp_item_count_of` of the bytes.
#[verifier::external_body]
pub(crate) fn rlp_item_count(raw: &[u8]) -> (r: Option<usize>)
    ensures
        match r {
            Some(n) => rlp_item_count_of(raw@) == Some(n as nat),
            None => rlp_item_count_of(raw@) is None,
        },
{
    rlp::Rlp::new(raw).item_count().ok()
}

/// Calls `rlp::Rlp::val_at` for a 256-bit unsigned number: the number that
/// the item encodes, nothing where the item is missing or is no such
/// number. The number is known only as `rlp_uint_at_of` of the bytes and
/// the index.
#[verifier::external_body]
pub(crate) fn rlp_uint_at(raw: &[u8], index: usize) -> (r: Option<U256>)
    ensures
        match r {
            Some(u) => rlp_uint_at_of(raw@, index as nat) == Some(u.as_nat()),
            None => rlp_uint_at_of(raw@, index as nat) is None,
        },
{
    match rlp::Rlp::new(raw).val_at::<ethereum_types::U256>(index) {
        Ok(v) => Some(U256 { w0: v.0[0], w1: v.0[1], w2: v.0[2], w3: v.0[3] }),
        Err(_) => None,
    }
}

/// Calls `rlp::Rlp::val_at` for a 64-bit unsigned number: the number that
/// the item encodes, nothing where the item is missing or is no such
/// number. The number is known only as `rlp_u64_at_of` of the bytes and the
/// index.
#[verifier::external_body]
pub(crate) fn rlp_u64_at(raw: &[u8], index: usize) -> (r: Option<u64>)
    ensures
        r == rlp_u64_at_of(raw@, index as nat),
{
    rlp::Rlp::new(raw).val_at::<u64>(index).ok()
}

/// Calls `rlp::Rlp::val_at` for a byte string: the bytes that the item
/// encodes, nothing where the item is missing or is a list. The bytes are
/// known only as `rlp_bytes_at_of` of the bytes and the index.
#[verifier::external_body]
pub(crate) fn rlp_bytes_at(raw: &[u8], index: usize) -> (r: Option<Vec<u8>>)
    ensures
        match r {
            Some(bytes) => rlp_bytes_at_of(raw@, index as nat) == Some(bytes@),
            None => rlp_bytes_at_of(raw@, index as nat) is None,
        },
{
    rlp::Rlp::new(raw).val_at::<Vec<u8>>(index).ok()
}

/// The action that the destination field of a transaction stands for: no
/// bytes create a contract, twenty bytes call that address, anything else
/// is no action.
pub open spec fn decoded_action(to: Seq<u8>) -> Option<ActionView> {
    if to.len() == 0 {
        Some(ActionView::Create)
    } else if to.len() == 20 {
        Some(ActionView::Call(to))
    } else {
        None
    }
}

/// The action that the destination field stands for.
pub fn decode_action(to: &Vec<u8>) -> (r: Option<Action>)
    ensures
        match r {
            Some(action) => decoded_action(to@) == Some(action@),
            None => decoded_action(to@) is None,
        },
{
    if to.len() == 0 {
        Some(Action::Create)
    } else if to.len() == 20 {
        let mut bytes = [0u8; 20];
        let mut i: usize = 0;
        while i < 20
            invariant
                i <= 20,
                to@.len() == 20,
                forall|k: int| 0 <= k < i ==> bytes@[k] == to@[k],
            decreases 20 - i,
        {
            bytes[i] = to[i];
            i += 1;
        }
        let address = Address { bytes };
        assert(address@ =~= to@);
        Some(Action::Call(address))
    } else {
        None
    }
}

/// The transaction that `raw` encodes: an RLP list of nine items, which
/// are nonce, gas price, gas, destination, value, data and the three parts
/// of the signature. The transaction's hash is the Keccak-256 digest of
/// `raw`.
pub open spec fn decoded_transaction(raw: Seq<u8>) -> Option<UnverifiedTransactionView> {
    if rlp_item_count_of(raw) != Some(9nat) {
        None
    } else if rlp_uint_at_of(raw, 0) is None || rlp_uint_at_of(raw, 1) is None || rlp_uint_at_of(
        raw,
        2,
    ) is None || rlp_bytes_at_of(raw, 3) is None || rlp_uint_at_of(raw, 4) is None
        || rlp_bytes_at_of(raw, 5) is None || rlp_u64_at_of(raw, 6) is None || rlp_uint_at_of(
        raw,
        7,
    ) is None || rlp_uint_at_of(raw, 8) is None {
        None
    } else {
        match decoded_action(rlp_bytes_at_of(raw, 3).unwrap()) {
            None => None,
            Some(action) => Some(
                UnverifiedTransactionView {
                    unsigned: TransactionView {
                        nonce: u256_of(rlp_uint_at_of(raw, 0).unwrap()),
                        gas_price: u256_of(rlp_uint_at_of(raw, 1).unwrap()),
                        gas: u256_of(rlp_uint_at_of(raw, 2).unwrap()),
                        action,
                        value: u256_of(rlp_uint_at_of(raw, 4).unwrap()),
                        data: rlp_bytes_at_of(raw, 5).unwrap(),
                    },
                    v: rlp_u64_at_of(raw, 6).unwrap(),
                    r: u256_of(rlp_uint_at_of(raw, 7).unwrap()),
                    s: u256_of(rlp_uint_at_of(raw, 8).unwrap()),
                    hash: keccak256_digest(raw),
                },
            ),
        }
    }
}

/// Decodes a raw transaction, or fails with `Error::Decode` where the bytes
/// encode none.
pub fn decode_transaction(raw: &[u8]) -> (r: Result<UnverifiedTransaction, Error>)
    ensures
        match r {
            Ok(t) => decoded_transaction(raw@) == Some(t@),
            Err(e) => decoded_transaction(raw@) is None && e == Error::Decode,
        },
{
    match rlp_item_count(raw) {
        Some(count) => {
            if count != 9 {
                return Err(Error::Decode);
            }
        },
        None => {
            return Err(Error::Decode);
        },
    }
    let hash = keccak256(raw);
    let nonce = match rlp_uint_at(raw, 0) {
        Some(v) => v,
        None => {
            return Err(Error::Decode);
        },
    };
    let gas_price = match rlp_uint_at(raw, 1) {
        Some(v) => v,
        None => {
            return Err(Error::Decode);
        },
    };
    let gas = match rlp_uint_at(raw, 2) {
        Some(v) => v,
        None => {
            return Err(Error::Decode);
        },
    };
    let to = match rlp_bytes_at(raw, 3) {
        Some(v) => v,
        None => {
            return Err(Error::Decode);
        },
    };
    let action = match decode_action(&to) {
        Some(v) => v,
        None => {
            return Err(Error::Decode);
        },
    };
    let value = match rlp_uint_at(raw, 4) {
        Some(v) => v,
        None => {
            return Err(Error::Decode);
        },
    };
    let data = match rlp_bytes_at(raw, 5) {
        Some(v) => v,
        None => {
            return Err(Error::Decode);
        },
    };
    let v = match rlp_u64_at(raw, 6) {
        Some(v) => v,
        None => {
            return Err(Error::Decode);
        },
    };
    let r = match rlp_uint_at(raw, 7) {
        Some(v) => v,
        None => {
            return Err(Error::Decode);
        },
    };
    let s = match rlp_uint_at(raw, 8) {
        Some(v) => v,
        None => {
            return Err(Error::Decode);
        },
    };
    proof {
        lemma_u256_of_value(nonce);
        lemma_u256_of_value(gas_price);
        lemma_u256_of_value(gas);
        lemma_u256_of_value(value);
        lemma_u256_of_value(r);
        lemma_u256_of_value(s);
    }
    Ok(
        UnverifiedTransaction {
            unsigned: Transaction { nonce, gas_price, gas, action, value, data },
            v,
            r,
            s,
            hash,
        },
    )
}

} // verus!
