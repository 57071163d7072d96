//! Blocks and raw transactions as consensus hands them over.

use vstd::prelude::*;
use crate::primitives::types;
use crate::primitives::types::{Address, BlockHeight, Round};

verus! {

/// Header of a block.
#[derive(Debug, Clone, PartialEq, Eq)]
pub struct BlockHeader {
    /// Height of the block.
    pub height: BlockHeight,
    /// Round within the height.
    pub round: Round,
    /// Hash of the parent header.
    pub parent_hash: types::Hash,
    /// State root after this block.
    pub state_root: types::Hash,
    /// Merkle root of the transaction list.
    pub tx_root: types::Hash,
    /// Address of the proposer.
    pub proposer_id: Address,
    /// Logical time from the consensus header.
    pub block_time: u64,
    /// Chain identifier.
    pub chain_id: Vec<u8>,
}

/// A block: header and ordered transactions.
#[derive(Debug, Clone, PartialEq, Eq)]
pub struct Block {
    /// The header.
    pub header: BlockHeader,
    /// The transactions, in execution order.
    pub transactions: Vec<Transaction>,
}

/// An opaque transaction payload.
#[derive(Debug, Clone, PartialEq, Eq)]
pub struct Transaction {
    /// Raw bytes of the transaction.
    pub data: Vec<u8>,
}

impl Transaction {
    /// Wraps raw bytes.
    pub fn new(data: Vec<u8>) -> (tx: Transaction)
        ensures
            tx.data == data,
    {
        Transaction { data }
    }

    /// Number of bytes.
    pub fn len(&self) -> (n: usize)
        ensures
            n == self.data@.len(),
    {
        self.data.len()
    }

    /// Whether there are no bytes.
    pub fn is_empty(&self) -> (r: bool)
        ensures
            r == (self.data@.len() == 0),
    {
        self.data.len() == 0
    }
}

impl Block {
    /// Number of transactions.
    pub fn tx_count(&self) -> (n: usize)
        ensures
            n == self.transactions@.len(),
    {
        self.transactions.len()
    }

    /// Whether the block has no transactions.
    pub fn is_empty(&self) -> (r: bool)
        ensures
            r == (self.transactions@.len() == 0),
    {
        self.transactions.len() == 0
    }
}

} // verus!
