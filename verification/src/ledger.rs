//! The ledger: an ordered chain of sealed blocks and a pool of pending
//! transactions. Sealing a block computes the Merkle root over the pool,
//! solves the proof-of-work puzzle tied to the chain head, appends the new
//! block and clears the pool.
use vstd::prelude::*;
use vstd::string::StringExecFns;
use crate::block::{block_hash_of, block_like, Block};
use crate::digest::{digest, digest_of};
use crate::merkle::{
    build_merkle_tree, fold_path, hash_pair, hashes_of, lemma_fold_path_push, merkle_ok,
    merkle_root_of, views_of,
};
use crate::text::{dec_of, str_eq, str_starts_with, u64_to_string};
use crate::transaction::{tx_hash_spec, Transaction};

verus! {

#[derive(Debug)]
pub struct Blockchain {
    pub chain: Vec<Block>,
    pub current_transactions: Vec<Transaction>,
    pub nodes: Vec<String>,
    pub node_id: String,
}

/// The previous-hash sentinel that the genesis block carries.
pub open spec fn genesis_previous_hash() -> Seq<char> {
    seq!['1']
}

/// Block indices are 1-based and contiguous along the chain.
pub open spec fn indexes_contiguous(chain: Seq<Block>) -> bool {
    forall|i: int|
        0 <= i < chain.len() ==> (#[trigger] chain[i]).index as int == i + 1
}

/// Every non-genesis block names the content hash of its predecessor, and
/// the genesis block names the fixed sentinel: the chain is a singly linked
/// hash list.
pub open spec fn chain_linked(chain: Seq<Block>) -> bool {
    &&& chain.len() >= 1
    &&& chain[0].previous_hash@ == genesis_previous_hash()
    &&& forall|i: int|
        1 <= i < chain.len() ==> (#[trigger] chain[i]).previous_hash@ == block_hash_of(
            chain[i - 1],
        )
}

/// Every sealed block's stored Merkle root is the root over its own
/// transactions.
pub open spec fn merkle_committed(chain: Seq<Block>) -> bool {
    forall|i: int|
        0 <= i < chain.len() ==> (#[trigger] chain[i]).merkle_root@ == merkle_root_of(
            hashes_of(chain[i].transactions@),
        )
}

/// The difficulty predicate's required digest prefix: four zero hex
/// characters.
pub open spec fn pow_prefix() -> Seq<char> {
    seq!['0', '0', '0', '0']
}

/// The proof-of-work predicate: the digest of the last proof, the candidate
/// proof and the last block's hash, concatenated in decimal and in that
/// order, begins with the required run of zeros.
pub open spec fn pow_ok(last_proof: u64, candidate: u64, last_block_hash: Seq<char>) -> bool {
    let d = digest_of(dec_of(last_proof as nat) + dec_of(candidate as nat) + last_block_hash);
    d.len() >= 4 && d.subrange(0, 4) == pow_prefix()
}

/// A transaction with the given content hash stands somewhere in the block.
pub open spec fn block_has_tx(b: Block, h: Seq<char>) -> bool {
    exists|j: int| 0 <= j < b.transactions@.len() && tx_hash_spec(#[trigger] b.transactions@[j]) == h
}

/// Relies on chrono's `Utc::now` and `DateTime::timestamp_millis` for the
/// clock reading. The result depends on the wall clock, so nothing is
/// promised of it.
#[verifier::external_body]
fn now_millis() -> i64 {
    chrono::Utc::now().timestamp_millis()
}

/// Relies on uuid's `Uuid::new_v4` for a fresh random identity, rendered in
/// hex with the hyphens removed. The result is random, so nothing is
/// promised of it.
#[verifier::external_body]
fn new_node_id() -> String {
    uuid::Uuid::new_v4().to_string().replace("-", "")
}

impl Blockchain {
    /// A well-formed ledger: at least the genesis block, contiguous 1-based
    /// indices, and no peer address registered twice.
    pub open spec fn wf(self) -> bool {
        &&& self.chain@.len() >= 1
        &&& indexes_contiguous(self.chain@)
        &&& forall|j: int, k: int|
            0 <= j < k < self.nodes@.len() ==> self.nodes@[j]@ != self.nodes@[k]@
    }

    /// A fresh ledger: empty pool, fresh identity, and a genesis block
    /// sealed with the fixed proof value and the sentinel previous hash.
    pub fn new() -> (bc: Blockchain)
        ensures
            bc.wf(),
            bc.chain@.len() == 1,
            bc.chain@[0].index == 1,
            bc.chain@[0].transactions@.len() == 0,
            bc.chain@[0].previous_hash@ == genesis_previous_hash(),
            bc.chain@[0].proof == 100,
            bc.chain@[0].merkle_root@ == merkle_root_of(hashes_of(bc.chain@[0].transactions@)),
            bc.current_transactions@.len() == 0,
            bc.nodes@.len() == 0,
            chain_linked(bc.chain@),
            merkle_committed(bc.chain@),
    {
        let node_id = new_node_id();
        let mut bc = Blockchain {
            chain: Vec::new(),
            current_transactions: Vec::new(),
            nodes: Vec::new(),
            node_id,
        };
        proof {
            reveal_strlit("1");
            assert("1"@ =~= genesis_previous_hash());
        }
        bc.new_block(100, Some("1".to_owned()));
        proof {
            assert(bc.chain@[0] == bc.chain@.last());
            assert(chain_linked(bc.chain@));
            assert(hashes_of(bc.chain@[0].transactions@) =~= hashes_of(
                Seq::<Transaction>::empty(),
            ));
            assert(merkle_committed(bc.chain@));
        }
        bc
    }

    /// Seals the pending pool into a new block and appends it: the block
    /// takes the next index, the Merkle root over the pool, the given proof,
    /// and the given previous hash — or the chain head's content hash when
    /// none is given. The pool is left empty.
    pub fn new_block(&mut self, proof: u64, previous_hash: Option<String>) -> (b: Block)
        requires
            indexes_contiguous(old(self).chain@),
            old(self).chain@.len() + 1 <= u64::MAX,
            previous_hash is None ==> old(self).chain@.len() >= 1,
        ensures
            final(self).chain@.len() == old(self).chain@.len() + 1,
            forall|i: int|
                0 <= i < old(self).chain@.len() ==> final(self).chain@[i] == old(self).chain@[i],
            indexes_contiguous(final(self).chain@),
            final(self).current_transactions@.len() == 0,
            final(self).nodes == old(self).nodes,
            final(self).node_id == old(self).node_id,
            block_like(b, final(self).chain@.last()),
            b.index as int == old(self).chain@.len() + 1,
            b.transactions@ == old(self).current_transactions@,
            b.proof == proof,
            b.merkle_root@ == merkle_root_of(hashes_of(old(self).current_transactions@)),
            b.previous_hash@ == (match previous_hash {
                Option::Some(s) => s@,
                Option::None => block_hash_of(old(self).chain@.last()),
            }),
    {
        let built = build_merkle_tree(&self.current_transactions);
        let merkle_root = built.0;
        let prev = match previous_hash {
            Option::Some(s) => s,
            Option::None => {
                let n = self.chain.len();
                self.chain[n - 1].calculate_hash()
            },
        };
        let index = self.chain.len() as u64 + 1;
        let timestamp = now_millis();
        let mut txs: Vec<Transaction> = Vec::new();
        core::mem::swap(&mut txs, &mut self.current_transactions);
        let block = Block { index, timestamp, transactions: txs, proof, previous_hash: prev, merkle_root };
        let copy = block.duplicate();
        self.chain.push(block);
        copy
    }

    /// Appends a transaction to the pending pool and returns the index of
    /// the block it is expected to land in: one past the chain head.
    pub fn new_transaction(&mut self, sender: String, recipient: String, amount: u64) -> (idx: u64)
        requires
            old(self).wf(),
            old(self).chain@.len() + 1 <= u64::MAX,
        ensures
            final(self).wf(),
            final(self).chain == old(self).chain,
            final(self).nodes == old(self).nodes,
            final(self).node_id == old(self).node_id,
            final(self).current_transactions@ == old(self).current_transactions@.push(
                (Transaction { sender, recipient, amount }),
            ),
            idx as int == old(self).chain@.len() + 1,
    {
        self.current_transactions.push(Transaction { sender, recipient, amount });
        let n = self.chain.len();
        self.chain[n - 1].index + 1
    }

    /// The chain head: the most recently sealed block.
    pub fn last_block(&self) -> (b: &Block)
        requires
            self.chain@.len() >= 1,
        ensures
            *b == self.chain@.last(),
    {
        let n = self.chain.len();
        &self.chain[n - 1]
    }

    /// A block's content hash.
    pub fn hash(&self, block: &Block) -> (r: String)
        ensures
            r@ == block_hash_of(*block),
            r@.len() == 64,
    {
        block.calculate_hash()
    }

    /// Searches candidate proofs from zero upward and returns the first that
    /// satisfies the difficulty predicate — the smallest solution. Should
    /// every candidate fail, the largest candidate is returned after an
    /// exhaustive search.
    pub fn proof_of_work(&self, last_proof: u64, last_block_hash: &str) -> (r: u64)
        ensures
            forall|q: u64| q < r ==> !pow_ok(last_proof, q, last_block_hash@),
            pow_ok(last_proof, r, last_block_hash@) || r == u64::MAX,
    {
        let mut candidate: u64 = 0;
        loop
            invariant
                forall|q: u64| q < candidate ==> !pow_ok(last_proof, q, last_block_hash@),
            decreases u64::MAX - candidate,
        {
            if self.valid_proof(last_proof, candidate, last_block_hash) {
                return candidate;
            }
            if candidate == u64::MAX {
                return candidate;
            }
            candidate = candidate + 1;
        }
    }

    /// The difficulty predicate, standing alone so that a claimed solution
    /// can be re-checked without a search: true exactly when the digest of
    /// the last proof, the candidate and the last block hash, concatenated,
    /// begins with the required zeros.
    pub fn valid_proof(&self, last_proof: u64, candidate: u64, last_block_hash: &str) -> (r: bool)
        ensures
            r == pow_ok(last_proof, candidate, last_block_hash@),
    {
        let guess = u64_to_string(last_proof).concat(u64_to_string(candidate).as_str()).concat(
            last_block_hash,
        );
        let guess_hash = digest(guess.as_str());
        let r = str_starts_with(guess_hash.as_str(), "0000");
        proof {
            reveal_strlit("0000");
            assert("0000"@ =~= pow_prefix());
        }
        r
    }

    /// Inserts a peer address into the known-peer set; an address already
    /// known is left alone.
    #[verifier::loop_isolation(false)]
    pub fn register_node(&mut self, address: String)
        requires
            old(self).wf(),
        ensures
            final(self).wf(),
            final(self).chain == old(self).chain,
            final(self).current_transactions == old(self).current_transactions,
            final(self).node_id == old(self).node_id,
            (exists|k: int|
                0 <= k < old(self).nodes@.len() && old(self).nodes@[k]@ == address@)
                ==> final(self).nodes@ == old(self).nodes@,
            !(exists|k: int|
                0 <= k < old(self).nodes@.len() && old(self).nodes@[k]@ == address@)
                ==> final(self).nodes@ == old(self).nodes@.push(address),
    {
        let n = self.nodes.len();
        let mut i: usize = 0;
        while i < n
            invariant
                i <= n,
                n == self.nodes@.len(),
                forall|k: int| 0 <= k < i ==> self.nodes@[k]@ != address@,
        decreases n - i,
        {
            if str_eq(self.nodes[i].as_str(), address.as_str()) {
                return;
            }
            i = i + 1;
        }
        self.nodes.push(address);
    }

    /// Conflict resolution is a stub in this scope: no peer's chain is
    /// fetched, and the ledger reports that nothing changed.
    pub fn resolve_conflicts(&mut self) -> (changed: bool)
        ensures
            changed == false,
            *final(self) == *old(self),
    {
        false
    }

    /// Folds the leaf hash up the proof path, pairing canonically at each
    /// step, and compares the result with the root: true exactly when the
    /// path proves the leaf against the root.
    pub fn verify_merkle_proof(merkle_root: &str, tx_hash: &str, proof_path: &[String]) -> (r:
        bool)
        ensures
            r == merkle_ok(merkle_root@, tx_hash@, views_of(proof_path@)),
    {
        let mut current = tx_hash.to_owned();
        let n = proof_path.len();
        let mut i: usize = 0;
        while i < n
            invariant
                i <= n,
                n == proof_path@.len(),
                current@ == fold_path(tx_hash@, views_of(proof_path@.take(i as int))),
            decreases n - i,
        {
            let next = hash_pair(current.as_str(), proof_path[i].as_str());
            proof {
                lemma_fold_path_push(tx_hash@, views_of(proof_path@.take(i as int)), proof_path@[i as int]@);
                assert(views_of(proof_path@.take(i + 1)) =~= views_of(
                    proof_path@.take(i as int),
                ).push(proof_path@[i as int]@));
            }
            current = next;
            i = i + 1;
        }
        assert(proof_path@.take(n as int) =~= proof_path@);
        str_eq(current.as_str(), merkle_root)
    }

    /// Seals a block: reads the chain head, solves the puzzle tied to it,
    /// credits the mining reward to this ledger's identity as one more
    /// pending transaction, and appends a block over the full pool. The new
    /// block extends the hash chain from the old head and carries the Merkle
    /// root over its transactions.
    #[verifier::rlimit(50)]
    pub fn mine(&mut self) -> (b: Block)
        requires
            old(self).wf(),
            old(self).chain@.len() + 1 <= u64::MAX,
        ensures
            final(self).wf(),
            final(self).chain@.len() == old(self).chain@.len() + 1,
            forall|i: int|
                0 <= i < old(self).chain@.len() ==> final(self).chain@[i] == old(self).chain@[i],
            final(self).current_transactions@.len() == 0,
            final(self).nodes == old(self).nodes,
            final(self).node_id == old(self).node_id,
            block_like(b, final(self).chain@.last()),
            b.index as int == old(self).chain@.len() + 1,
            b.transactions@.len() == old(self).current_transactions@.len() + 1,
            b.transactions@.subrange(0, old(self).current_transactions@.len() as int)
                == old(self).current_transactions@,
            b.transactions@.last().sender@ == seq!['0'],
            b.transactions@.last().recipient@ == old(self).node_id@,
            b.transactions@.last().amount == 1,
            b.previous_hash@ == block_hash_of(old(self).chain@.last()),
            b.merkle_root@ == merkle_root_of(hashes_of(b.transactions@)),
            forall|q: u64|
                q < b.proof ==> !pow_ok(
                    old(self).chain@.last().proof,
                    q,
                    block_hash_of(old(self).chain@.last()),
                ),
            pow_ok(old(self).chain@.last().proof, b.proof, block_hash_of(old(self).chain@.last()))
                || b.proof == u64::MAX,
            chain_linked(old(self).chain@) ==> chain_linked(final(self).chain@),
            merkle_committed(old(self).chain@) ==> merkle_committed(final(self).chain@),
    {
        let last_proof = self.last_block().proof;
        let last_block_hash = self.last_block().calculate_hash();
        let pow = self.proof_of_work(last_proof, last_block_hash.as_str());

        let miner_address = self.node_id.clone();
        proof {
            reveal_strlit("0");
        }
        self.new_transaction("0".to_owned(), miner_address, 1);

        let b = self.new_block(pow, Some(last_block_hash));
        proof {
            assert(b.transactions@.subrange(0, old(self).current_transactions@.len() as int)
                =~= old(self).current_transactions@);
        }
        b
    }

    /// Scans the chain in ascending index order for the first block holding
    /// a transaction with the given hash; returns that block's index, its
    /// Merkle root, and a proof path for the transaction, or nothing when no
    /// block holds it.
    #[verifier::loop_isolation(false)]
    pub fn get_merkle_proof(&self, tx_hash: &str) -> (r: Option<(u64, String, Vec<String>)>)
        ensures
            match r {
                Option::None => forall|i: int|
                    0 <= i < self.chain@.len() ==> !block_has_tx(
                        #[trigger] self.chain@[i],
                        tx_hash@,
                    ),
                Option::Some(found) => {
                    &&& exists|i: int|
                        {
                            &&& 0 <= i < self.chain@.len()
                            &&& block_has_tx(#[trigger] self.chain@[i], tx_hash@)
                            &&& forall|i2: int|
                                0 <= i2 < i ==> !block_has_tx(
                                    #[trigger] self.chain@[i2],
                                    tx_hash@,
                                )
                            &&& found.0 == self.chain@[i].index
                            &&& found.1@ == merkle_root_of(hashes_of(self.chain@[i].transactions@))
                        }
                    &&& merkle_ok(found.1@, tx_hash@, views_of(found.2@))
                },
            },
    {
        let n = self.chain.len();
        let mut i: usize = 0;
        while i < n
            invariant
                i <= n,
                n == self.chain@.len(),
                forall|i2: int| 0 <= i2 < i ==> !block_has_tx(#[trigger] self.chain@[i2], tx_hash@),
            decreases n - i,
        {
            let block = &self.chain[i];
            let built = build_merkle_tree(&block.transactions);
            let root = built.0;
            let paths = built.1;
            let m = block.transactions.len();
            let mut j: usize = 0;
            while j < m
                invariant
                    j <= m,
                    m == block.transactions@.len(),
                    forall|j2: int|
                        0 <= j2 < j ==> tx_hash_spec(#[trigger] block.transactions@[j2])
                            != tx_hash@,
                decreases m - j,
            {
                let leaf = block.transactions[j].to_hash();
                if str_eq(leaf.as_str(), tx_hash) {
                    let path = paths[j].clone();
                    proof {
                        assert(views_of(path@) =~= views_of(paths@[j as int]@));
                        assert(tx_hash_spec(block.transactions@[j as int]) == tx_hash@);
                        assert(block_has_tx(self.chain@[i as int], tx_hash@));
                        assert(merkle_ok(
                            root@,
                            hashes_of(block.transactions@)[j as int],
                            views_of(paths@[j as int]@),
                        ));
                    }
                    return Some((block.index, root, path));
                }
                j = j + 1;
            }
            assert(!block_has_tx(self.chain@[i as int], tx_hash@));
            i = i + 1;
        }
        None
    }
}

} // verus!
