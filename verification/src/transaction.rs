//! A transaction: an immutable transfer of a non-negative amount between two
//! named parties. Its content hash is the leaf identity in a block's Merkle
//! tree.
use vstd::prelude::*;
use vstd::string::StringExecFns;
use crate::digest::{digest, digest_of};
use crate::text::{dec_of, u64_to_string};

verus! {

#[derive(Debug, PartialEq, Eq, Hash)]
pub struct Transaction {
    pub sender: String,
    pub recipient: String,
    pub amount: u64,
}

/// The content hash of a transaction: the digest of its three fields
/// concatenated in fixed order, the amount in decimal.
pub open spec fn tx_hash_spec(t: Transaction) -> Seq<char> {
    digest_of(t.sender@ + t.recipient@ + dec_of(t.amount as nat))
}

impl Transaction {
    /// The transaction's content hash, 64 lowercase hex characters.
    pub fn to_hash(&self) -> (r: String)
        ensures
            r@ == tx_hash_spec(*self),
            r@.len() == 64,
    {
        let s = self.sender.clone().concat(self.recipient.as_str());
        let amount_text = u64_to_string(self.amount);
        let s = s.concat(amount_text.as_str());
        digest(s.as_str())
    }

    /// A copy of the transaction, equal to it field by field.
    pub fn duplicate(&self) -> (r: Transaction)
        ensures
            r == *self,
    {
        Transaction {
            sender: self.sender.clone(),
            recipient: self.recipient.clone(),
            amount: self.amount,
        }
    }
}

/// A copy of a transaction list that holds the same transactions in the same
/// order.
pub fn duplicate_transactions(ts: &Vec<Transaction>) -> (r: Vec<Transaction>)
    ensures
        r@ == ts@,
{
    let mut r: Vec<Transaction> = Vec::new();
    let mut i: usize = 0;
    while i < ts.len()
        invariant
            i <= ts.len(),
            r@ == ts@.subrange(0, i as int),
        decreases ts.len() - i,
    {
        r.push(ts[i].duplicate());
        assert(r@ =~= ts@.subrange(0, i + 1 as int));
        i = i + 1;
    }
    assert(r@ =~= ts@);
    r
}

} // verus!
