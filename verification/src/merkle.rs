//! The Merkle tree over a block's transactions: a root digest, and for each
//! leaf a path of sibling hashes from which the root can be recomputed.
//!
//! Levels are reduced pairwise, left to right. A level of odd length pairs
//! its last hash with itself. Each pair is ordered lexicographically before
//! it is hashed, so a verifier needs no left/right tags: folding a leaf's
//! path with the same ordered pair hash recovers the root.
use vstd::prelude::*;
use vstd::pervasive::VecAdditionalExecFns;
use vstd::string::StringExecFns;
use crate::digest::{digest, digest_of};
use crate::text::{lemma_lex_lt_asymmetric, lemma_lex_lt_connected, lex_lt, str_lt};
use crate::transaction::{tx_hash_spec, Transaction};

verus! {

/// The views of a sequence of strings.
pub open spec fn views_of(ss: Seq<String>) -> Seq<Seq<char>> {
    Seq::new(ss.len(), |i: int| ss[i]@)
}

/// The leaf hashes of a transaction list, in list order.
pub open spec fn hashes_of(ts: Seq<Transaction>) -> Seq<Seq<char>> {
    Seq::new(ts.len(), |i: int| tx_hash_spec(ts[i]))
}

/// The parent hash of two sibling hashes: the digest of their concatenation,
/// the lexicographically smaller one first.
pub open spec fn combine(a: Seq<char>, b: Seq<char>) -> Seq<char> {
    if lex_lt(a, b) {
        digest_of(a + b)
    } else {
        digest_of(b + a)
    }
}

/// One level reduction: hashes are paired left to right, and a lone last
/// hash is paired with itself.
pub open spec fn next_level(level: Seq<Seq<char>>) -> Seq<Seq<char>> {
    Seq::new(
        ((level.len() + 1) / 2) as nat,
        |k: int| if 2 * k + 1 < level.len() {
            combine(level[2 * k], level[2 * k + 1])
        } else {
            combine(level[2 * k], level[2 * k])
        },
    )
}

/// The Merkle root over a sequence of leaf hashes: levels are reduced until
/// one hash remains. An empty sequence has the empty string as its sentinel
/// root.
pub open spec fn merkle_root_of(hashes: Seq<Seq<char>>) -> Seq<char>
    decreases hashes.len(),
{
    if hashes.len() == 0 {
        Seq::empty()
    } else if hashes.len() == 1 {
        hashes[0]
    } else {
        merkle_root_of(next_level(hashes))
    }
}

/// A leaf hash folded up a path of sibling hashes, pairing canonically at
/// each step.
pub open spec fn fold_path(leaf: Seq<char>, path: Seq<Seq<char>>) -> Seq<char>
    decreases path.len(),
{
    if path.len() == 0 {
        leaf
    } else {
        fold_path(combine(leaf, path[0]), path.drop_first())
    }
}

/// A proof path is good for a root exactly when folding the leaf up the path
/// recomputes that root.
pub open spec fn merkle_ok(root: Seq<char>, leaf: Seq<char>, path: Seq<Seq<char>>) -> bool {
    fold_path(leaf, path) == root
}

/// The canonical pair hash does not depend on the order of its arguments.
pub proof fn lemma_combine_comm(a: Seq<char>, b: Seq<char>)
    ensures
        combine(a, b) == combine(b, a),
{
    if lex_lt(a, b) {
        lemma_lex_lt_asymmetric(a, b);
    } else if lex_lt(b, a) {
    } else {
        lemma_lex_lt_connected(a, b);
    }
}

/// Extending a path by one sibling folds that sibling onto the path's result.
pub proof fn lemma_fold_path_push(leaf: Seq<char>, path: Seq<Seq<char>>, sib: Seq<char>)
    ensures
        fold_path(leaf, path.push(sib)) == combine(fold_path(leaf, path), sib),
    decreases path.len(),
{
    if path.len() == 0 {
        assert(path.push(sib)[0] == sib);
        assert(path.push(sib).drop_first() =~= Seq::<Seq<char>>::empty());
        assert(fold_path(combine(leaf, sib), Seq::<Seq<char>>::empty()) == combine(leaf, sib));
        assert(fold_path(leaf, path.push(sib)) == fold_path(
            combine(leaf, sib),
            path.push(sib).drop_first(),
        ));
    } else {
        assert(path.push(sib)[0] == path[0]);
        assert(path.push(sib).drop_first() =~= path.drop_first().push(sib));
        lemma_fold_path_push(combine(leaf, path[0]), path.drop_first(), sib);
        assert(fold_path(leaf, path.push(sib)) == fold_path(
            combine(leaf, path[0]),
            path.drop_first().push(sib),
        ));
        assert(fold_path(leaf, path) == fold_path(combine(leaf, path[0]), path.drop_first()));
    }
}

/// The root is a function of the leaf hashes alone: exchanging two
/// transactions whose hashes agree, in particular two of equal value, leaves
/// it unchanged. The duplicate-last rule for odd levels is untouched by the
/// exchange.
pub proof fn lemma_root_ignores_equal_swap(ts1: Seq<Transaction>, ts2: Seq<Transaction>, i: int, j: int)
    requires
        0 <= i < ts1.len(),
        0 <= j < ts1.len(),
        ts2 == ts1.update(i, ts1[j]).update(j, ts1[i]),
        tx_hash_spec(ts1[i]) == tx_hash_spec(ts1[j]),
    ensures
        merkle_root_of(hashes_of(ts1)) == merkle_root_of(hashes_of(ts2)),
{
    assert(hashes_of(ts1) =~= hashes_of(ts2));
}

/// Law: for a non-empty transaction list, every proof path that
/// `build_merkle_tree` promises verifies against the root it returns —
/// folding the leaf's own hash up its path, which is exactly the check
/// `verify_merkle_proof` performs, recomputes that root.
pub proof fn lemma_build_then_verify(
    ts: Seq<Transaction>,
    root: Seq<char>,
    paths: Seq<Seq<Seq<char>>>,
    i: int,
)
    requires
        ts.len() > 0,
        0 <= i < ts.len(),
        paths.len() == ts.len(),
        root == merkle_root_of(hashes_of(ts)),
        forall|k: int| 0 <= k < ts.len() ==> merkle_ok(root, hashes_of(ts)[k], #[trigger] paths[k]),
    ensures
        merkle_ok(root, tx_hash_spec(ts[i]), paths[i]),
{
    assert(hashes_of(ts)[i] == tx_hash_spec(ts[i]));
}

/// The parent hash of two sibling hashes, smaller first.
pub fn hash_pair(a: &str, b: &str) -> (r: String)
    ensures
        r@ == combine(a@, b@),
        r@.len() == 64,
{
    if str_lt(a, b) {
        let s = a.to_owned().concat(b);
        digest(s.as_str())
    } else {
        let s = b.to_owned().concat(a);
        digest(s.as_str())
    }
}

/// Builds the Merkle tree over a transaction list. Returns the root and, for
/// each transaction in list order, the path of sibling hashes that folds its
/// leaf hash back up to the root. An empty list gives the sentinel empty
/// root and no paths.
#[verifier::loop_isolation(false)]
pub fn build_merkle_tree(transactions: &Vec<Transaction>) -> (r: (String, Vec<Vec<String>>))
    ensures
        r.0@ == merkle_root_of(hashes_of(transactions@)),
        r.1@.len() == transactions@.len(),
        forall|i: int|
            0 <= i < transactions@.len() ==> merkle_ok(
                r.0@,
                hashes_of(transactions@)[i],
                views_of(r.1@[i]@),
            ),
        transactions@.len() == 1 ==> r.1@[0]@.len() == 0,
{
    let ghost hs = hashes_of(transactions@);
    let n = transactions.len();
    if n == 0 {
        return (String::new(), Vec::new());
    }

    let mut level: Vec<String> = Vec::new();
    let mut i: usize = 0;
    while i < n
        invariant
            i <= n,
            level@.len() == i,
            forall|k: int| 0 <= k < i ==> level@[k]@ == hs[k],
        decreases n - i,
    {
        level.push(transactions[i].to_hash());
        i = i + 1;
    }

    let mut paths: Vec<Vec<String>> = Vec::new();
    let mut pos: Vec<usize> = Vec::new();
    i = 0;
    while i < n
        invariant
            i <= n,
            paths@.len() == i,
            pos@.len() == i,
            forall|k: int| 0 <= k < i ==> (#[trigger] paths@[k])@.len() == 0,
            forall|k: int| 0 <= k < i ==> #[trigger] pos@[k] == k,
        decreases n - i,
    {
        let empty_path: Vec<String> = Vec::new();
        assert(empty_path@.len() == 0);
        paths.push(empty_path);
        pos.push(i);
        assert(paths@[i as int]@.len() == 0);
        assert(pos@[i as int] == i);
        i = i + 1;
    }

    assert(views_of(level@) =~= hs);

    while level.len() > 1
        invariant
            1 <= level@.len() <= n,
            paths@.len() == n,
            pos@.len() == n,
            merkle_root_of(views_of(level@)) == merkle_root_of(hs),
            n == 1 ==> paths@[0]@.len() == 0,
            forall|k: int| 0 <= k < n ==> pos@[k] < level@.len(),
            forall|k: int|
                0 <= k < n ==> fold_path(hs[k], #[trigger] views_of(paths@[k]@))
                    == views_of(level@)[pos@[k] as int],
        decreases level@.len(),
    {
        let m = level.len();
        let ghost lv = views_of(level@);

        let mut next: Vec<String> = Vec::new();
        let mut j: usize = 0;
        while j < m
            invariant
                j <= m,
                m == level@.len(),
                lv == views_of(level@),
                next@.len() * 2 == j || (next@.len() * 2 == j + 1 && j == m),
                forall|k: int| 0 <= k < next@.len() ==> next@[k]@ == next_level(lv)[k],
            decreases m - j,
        {
            let parent = if j + 1 < m {
                hash_pair(level[j].as_str(), level[j + 1].as_str())
            } else {
                hash_pair(level[j].as_str(), level[j].as_str())
            };
            next.push(parent);
            j = if j + 1 < m {
                j + 2
            } else {
                j + 1
            };
        }
        assert(next@.len() == next_level(lv).len());
        assert(views_of(next@) =~= next_level(lv));

        let mut k: usize = 0;
        while k < n
            invariant
                k <= n,
                paths@.len() == n,
                pos@.len() == n,
                forall|t: int| k <= t < n ==> pos@[t] < m,
                forall|t: int| 0 <= t < k ==> pos@[t] < next_level(lv).len(),
                forall|t: int|
                    k <= t < n ==> fold_path(hs[t], #[trigger] views_of(paths@[t]@))
                        == lv[pos@[t] as int],
                forall|t: int|
                    0 <= t < k ==> fold_path(hs[t], #[trigger] views_of(paths@[t]@))
                        == next_level(lv)[pos@[t] as int],
            decreases n - k,
        {
            let p = pos[k];
            let sib: usize = if p % 2 == 0 {
                if p + 1 < m {
                    p + 1
                } else {
                    p
                }
            } else {
                p - 1
            };
            let ghost old_path = paths@[k as int]@;
            let mut path_k = paths[k].clone();
            assert(path_k@ =~= old_path);
            path_k.push(level[sib].clone());
            assert(views_of(path_k@) =~= views_of(old_path).push(lv[sib as int]));
            paths.set(k, path_k);
            pos.set(k, p / 2);
            proof {
                lemma_fold_path_push(hs[k as int], views_of(old_path), lv[sib as int]);
                if p % 2 == 1 {
                    lemma_combine_comm(lv[p as int], lv[p - 1]);
                }
                assert(fold_path(hs[k as int], views_of(paths@[k as int]@)) == next_level(lv)[p
                    as int / 2]);
            }
            k = k + 1;
        }

        proof {
            assert(merkle_root_of(lv) == merkle_root_of(next_level(lv)));
        }
        level = next;
    }

    let ghost final_lv = views_of(level@);
    assert(final_lv.len() == 1);
    assert(merkle_root_of(final_lv) == final_lv[0]);
    let root = level[0].clone();
    assert(root@ == final_lv[0]);
    (root, paths)
}

} // verus!
