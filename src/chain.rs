//! Block and transaction data as the indexer reads it.
use vstd::prelude::*;

verus! {

/// A transaction id, in the byte order of its double SHA-256.
pub type Txid = [u8; 32];

/// A reference to an output of an earlier transaction.
#[derive(Clone, Copy, Debug)]
pub struct OutPoint {
    pub txid: Txid,
    pub vout: u32,
}

/// The parts of a transaction that the indexer reads.
pub struct Transaction {
    pub txid: Txid,
    /// The previous outputs that the inputs spend, in input order.
    pub input: Vec<OutPoint>,
}

/// The fields of an 80-byte block header.
#[derive(Clone, Copy, Debug)]
pub struct BlockHeader {
    pub version: i32,
    pub prev_blockhash: [u8; 32],
    pub merkle_root: [u8; 32],
    pub time: u32,
    pub bits: u32,
    pub nonce: u32,
}

/// A block: its header and its transactions in block order.
pub struct BlockData {
    pub header: BlockHeader,
    pub txdata: Vec<Transaction>,
}

/// The null outpoint: an all-zero txid and the largest output index.
pub open spec fn is_null_spec(o: OutPoint) -> bool {
    &&& forall|i: int| 0 <= i < 32 ==> #[trigger] o.txid@[i] == 0u8
    &&& o.vout == u32::MAX
}

/// A coinbase transaction's first input spends the null outpoint.
pub open spec fn is_coinbase_spec(tx: &Transaction) -> bool {
    tx.input@.len() > 0 && is_null_spec(tx.input@[0])
}

impl OutPoint {
    pub fn is_null(&self) -> (r: bool)
        ensures
            r == is_null_spec(*self),
    {
        if self.vout != u32::MAX {
            return false;
        }
        let mut i: usize = 0;
        while i < 32
            invariant
                0 <= i <= 32,
                forall|j: int| 0 <= j < i ==> #[trigger] self.txid@[j] == 0u8,
            decreases 32 - i,
        {
            if self.txid[i] != 0 {
                return false;
            }
            i = i + 1;
        }
        true
    }
}

impl Transaction {
    pub fn is_coinbase(&self) -> (r: bool)
        ensures
            r == is_coinbase_spec(self),
    {
        if self.input.len() == 0 {
            false
        } else {
            self.input[0].is_null()
        }
    }
}

/// The hash of a block header with the given fields.
pub uninterp spec fn block_hash_of(
    version: i32,
    prev_blockhash: Seq<u8>,
    merkle_root: Seq<u8>,
    time: u32,
    bits: u32,
    nonce: u32,
) -> Seq<u8>;

pub open spec fn header_hash_spec(h: BlockHeader) -> Seq<u8> {
    block_hash_of(h.version, h.prev_blockhash@, h.merkle_root@, h.time, h.bits, h.nonce)
}

/// Relies on bitcoin's `Header::block_hash`: the double SHA-256 of the header's
/// consensus encoding, which depends on the header's fields alone.
#[verifier::external_body]
fn header_block_hash(h: &BlockHeader) -> (r: [u8; 32])
    ensures
        r@ == block_hash_of(h.version, h.prev_blockhash@, h.merkle_root@, h.time, h.bits, h.nonce),
{
    let header = bitcoin::blockdata::block::Header {
        version: bitcoin::blockdata::block::Version::from_consensus(h.version),
        prev_blockhash: <bitcoin::BlockHash as bitcoin::hashes::Hash>::from_byte_array(h.prev_blockhash),
        merkle_root: <bitcoin::hash_types::TxMerkleNode as bitcoin::hashes::Hash>::from_byte_array(h.merkle_root),
        time: h.time,
        bits: bitcoin::CompactTarget::from_consensus(h.bits),
        nonce: h.nonce,
    };
    <bitcoin::BlockHash as bitcoin::hashes::Hash>::to_byte_array(header.block_hash())
}

impl BlockHeader {
    /// The block's hash, as bytes in hashing order.
    pub fn block_hash(&self) -> (r: [u8; 32])
        ensures
            r@ == header_hash_spec(*self),
    {
        header_block_hash(self)
    }
}

} // verus!
