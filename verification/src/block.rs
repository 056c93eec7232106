//! A block: a sealed group of transactions with its position in the chain,
//! the nonce that satisfied the puzzle, the content hash of its predecessor
//! and the Merkle root over its transactions. Once appended it is never
//! changed, and its own content hash commits to every field.
use vstd::prelude::*;
use vstd::string::StringExecFns;
use crate::digest::{digest, digest_of};
use crate::text::{dec_of, dec_of_int, i64_to_string, u64_to_string};
use crate::transaction::{duplicate_transactions, Transaction};

verus! {

#[derive(Debug)]
pub struct Block {
    pub index: u64,
    pub timestamp: i64,
    pub transactions: Vec<Transaction>,
    pub proof: u64,
    pub previous_hash: String,
    pub merkle_root: String,
}

/// The field separator in a block's hash preimage.
pub open spec fn sep() -> Seq<char> {
    seq!['|']
}

/// One transaction's contribution to the hash preimage.
pub open spec fn tx_chars(t: Transaction) -> Seq<char> {
    t.sender@ + sep() + t.recipient@ + sep() + dec_of(t.amount as nat) + sep()
}

/// A transaction list's contribution to the hash preimage, in list order.
pub open spec fn txs_chars(ts: Seq<Transaction>) -> Seq<char>
    decreases ts.len(),
{
    if ts.len() == 0 {
        Seq::empty()
    } else {
        txs_chars(ts.drop_last()) + tx_chars(ts.last())
    }
}

/// The hash preimage of a block: every field, separated, the integers in
/// decimal.
pub open spec fn block_chars_of(b: Block) -> Seq<char> {
    dec_of(b.index as nat) + sep() + dec_of_int(b.timestamp as int) + sep() + txs_chars(
        b.transactions@,
    ) + dec_of(b.proof as nat) + sep() + b.previous_hash@ + sep() + b.merkle_root@
}

/// The content hash of a block: the digest of its hash preimage.
pub open spec fn block_hash_of(b: Block) -> Seq<char> {
    digest_of(block_chars_of(b))
}

/// Two blocks that agree on every field, though they may not share storage.
pub open spec fn block_like(a: Block, b: Block) -> bool {
    &&& a.index == b.index
    &&& a.timestamp == b.timestamp
    &&& a.transactions@ == b.transactions@
    &&& a.proof == b.proof
    &&& a.previous_hash@ == b.previous_hash@
    &&& a.merkle_root@ == b.merkle_root@
}

impl Block {
    /// The block's content hash, 64 lowercase hex characters.
    pub fn calculate_hash(&self) -> (r: String)
        ensures
            r@ == block_hash_of(*self),
            r@.len() == 64,
    {
        proof {
            reveal_strlit("|");
        }
        let mut s = u64_to_string(self.index);
        s.append("|");
        let ts_text = i64_to_string(self.timestamp);
        s.append(ts_text.as_str());
        s.append("|");
        let ghost prefix = dec_of(self.index as nat) + sep() + dec_of_int(self.timestamp as int)
            + sep();
        assert(s@ =~= prefix);

        let n = self.transactions.len();
        let mut i: usize = 0;
        while i < n
            invariant
                i <= n,
                n == self.transactions@.len(),
                s@ == prefix + txs_chars(self.transactions@.take(i as int)),
            decreases n - i,
        {
            let t = &self.transactions[i];
            s.append(t.sender.as_str());
            s.append("|");
            s.append(t.recipient.as_str());
            s.append("|");
            let amount_text = u64_to_string(t.amount);
            s.append(amount_text.as_str());
            s.append("|");
            proof {
                reveal_strlit("|");
                let taken = self.transactions@.take(i + 1);
                assert(taken.drop_last() =~= self.transactions@.take(i as int));
                assert(taken.last() == self.transactions@[i as int]);
                assert(s@ =~= prefix + txs_chars(self.transactions@.take(i + 1)));
            }
            i = i + 1;
        }
        assert(self.transactions@.take(n as int) =~= self.transactions@);

        let proof_text = u64_to_string(self.proof);
        s.append(proof_text.as_str());
        s.append("|");
        s.append(self.previous_hash.as_str());
        s.append("|");
        s.append(self.merkle_root.as_str());
        assert(s@ =~= block_chars_of(*self));
        digest(s.as_str())
    }

    /// A copy of the block, equal to it field by field.
    pub fn duplicate(&self) -> (r: Block)
        ensures
            block_like(r, *self),
    {
        Block {
            index: self.index,
            timestamp: self.timestamp,
            transactions: duplicate_transactions(&self.transactions),
            proof: self.proof,
            previous_hash: self.previous_hash.clone(),
            merkle_root: self.merkle_root.clone(),
        }
    }
}

} // verus!
