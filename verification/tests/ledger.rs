use blockchain_backend::ledger::Blockchain;
use blockchain_backend::merkle::build_merkle_tree;
use blockchain_backend::transaction::Transaction;
use sha2::Digest;

fn sha_hex(s: &str) -> String {
    hex::encode(sha2::Sha256::digest(s.as_bytes()))
}

#[test]
fn init_seals_exactly_one_genesis_block() {
    let bc = Blockchain::new();
    assert_eq!(bc.chain.len(), 1);
    let genesis = &bc.chain[0];
    assert_eq!(genesis.index, 1);
    assert!(genesis.transactions.is_empty());
    assert_eq!(genesis.previous_hash, "1");
    assert_eq!(genesis.proof, 100);
    assert_eq!(genesis.merkle_root, "");
    assert!(bc.current_transactions.is_empty());
}

#[test]
fn new_transaction_lands_in_pool_and_names_next_block() {
    let mut bc = Blockchain::new();
    let idx = bc.new_transaction("A".to_string(), "B".to_string(), 10);
    assert_eq!(idx, 2);
    assert_eq!(bc.current_transactions.len(), 1);
    assert_eq!(bc.current_transactions[0].sender, "A");
    assert_eq!(bc.current_transactions[0].recipient, "B");
    assert_eq!(bc.current_transactions[0].amount, 10);
    assert_eq!(bc.chain.len(), 1);
}

#[test]
fn mine_seals_pool_plus_reward_into_next_block() {
    let mut bc = Blockchain::new();
    bc.new_transaction("A".to_string(), "B".to_string(), 10);
    bc.new_transaction("B".to_string(), "C".to_string(), 5);
    let head_hash = bc.hash(&bc.chain[0]);
    let block = bc.mine();

    assert_eq!(bc.chain.len(), 2);
    assert!(bc.current_transactions.is_empty());
    assert_eq!(block.index, 2);
    assert_eq!(block.previous_hash, head_hash);
    assert_eq!(block.transactions.len(), 3);
    assert_eq!(block.transactions[0].sender, "A");
    assert_eq!(block.transactions[1].sender, "B");
    let reward = &block.transactions[2];
    assert_eq!(reward.sender, "0");
    assert_eq!(reward.recipient, bc.node_id);
    assert_eq!(reward.amount, 1);

    let (expected_root, _) = build_merkle_tree(&block.transactions);
    assert_eq!(block.merkle_root, expected_root);
    assert_eq!(bc.chain[1].merkle_root, expected_root);
}

#[test]
fn proof_of_work_finds_the_smallest_solution() {
    let bc = Blockchain::new();
    let last_proof: u64 = 100;
    let last_hash = "abc";
    let solved = bc.proof_of_work(last_proof, last_hash);

    let mut smallest: u64 = 0;
    loop {
        let guess_hash = sha_hex(&format!("{}{}{}", last_proof, smallest, last_hash));
        if guess_hash.starts_with("0000") {
            break;
        }
        smallest += 1;
    }
    assert_eq!(solved, smallest);
    assert!(bc.valid_proof(last_proof, solved, last_hash));
    if solved > 0 {
        assert!(!bc.valid_proof(last_proof, solved - 1, last_hash));
    }
}

#[test]
fn valid_proof_agrees_with_the_digest_prefix_rule() {
    let bc = Blockchain::new();
    for candidate in 0..50u64 {
        let guess_hash = sha_hex(&format!("{}{}{}", 7, candidate, "xyz"));
        assert_eq!(
            bc.valid_proof(7, candidate, "xyz"),
            guess_hash.starts_with("0000")
        );
    }
}

#[test]
fn merkle_proof_query_finds_block_two_not_block_one() {
    let mut bc = Blockchain::new();
    bc.new_transaction("A".to_string(), "B".to_string(), 42);
    bc.mine();

    let wanted = bc.chain[1].transactions[0].to_hash();
    let found = bc.get_merkle_proof(&wanted);
    let (block_index, merkle_root, proof_path) = found.expect("transaction was sealed");
    assert_eq!(block_index, 2);
    assert_eq!(merkle_root, bc.chain[1].merkle_root);
    assert!(Blockchain::verify_merkle_proof(
        &merkle_root,
        &wanted,
        &proof_path
    ));
}

#[test]
fn merkle_proof_query_reports_absence() {
    let mut bc = Blockchain::new();
    bc.new_transaction("A".to_string(), "B".to_string(), 1);
    bc.mine();
    let absent = sha_hex("never submitted");
    assert!(bc.get_merkle_proof(&absent).is_none());
}

#[test]
fn end_to_end_submit_mine_inspect() {
    let mut bc = Blockchain::new();
    bc.new_transaction("A".to_string(), "B".to_string(), 10);
    let first_hash = bc.hash(&bc.chain[0]);
    bc.mine();

    assert_eq!(bc.chain.len(), 2);
    let sealed = &bc.chain[1];
    assert!(sealed
        .transactions
        .iter()
        .any(|t| t.sender == "A" && t.recipient == "B" && t.amount == 10));
    assert!(sealed
        .transactions
        .iter()
        .any(|t| t.sender == "0" && t.recipient == bc.node_id && t.amount == 1));
    assert_eq!(sealed.previous_hash, first_hash);
    assert!(bc.valid_proof(bc.chain[0].proof, sealed.proof, &first_hash));
}

#[test]
fn block_hash_is_deterministic_and_commits_to_fields() {
    let bc = Blockchain::new();
    let genesis = &bc.chain[0];
    assert_eq!(bc.hash(genesis), bc.hash(genesis));
    assert_eq!(genesis.calculate_hash(), bc.hash(genesis));
    let mut other = genesis.duplicate();
    assert_eq!(other.calculate_hash(), bc.hash(genesis));
    other.proof += 1;
    assert_ne!(other.calculate_hash(), bc.hash(genesis));
}

#[test]
fn block_hash_matches_reference_preimage() {
    let b = blockchain_backend::block::Block {
        index: 1,
        timestamp: 5,
        transactions: vec![Transaction {
            sender: "A".to_string(),
            recipient: "B".to_string(),
            amount: 10,
        }],
        proof: 2,
        previous_hash: "p".to_string(),
        merkle_root: "m".to_string(),
    };
    assert_eq!(b.calculate_hash(), sha_hex("1|5|A|B|10|2|p|m"));
}

#[test]
fn register_node_keeps_addresses_unique() {
    let mut bc = Blockchain::new();
    bc.register_node("http://peer-one".to_string());
    bc.register_node("http://peer-two".to_string());
    bc.register_node("http://peer-one".to_string());
    assert_eq!(bc.nodes.len(), 2);
}

#[test]
fn resolve_conflicts_is_a_stub_reporting_no_change() {
    let mut bc = Blockchain::new();
    let before = bc.chain.len();
    assert!(!bc.resolve_conflicts());
    assert_eq!(bc.chain.len(), before);
}

#[test]
fn new_block_defaults_previous_hash_to_the_chain_head() {
    let mut bc = Blockchain::new();
    let head_hash = bc.hash(&bc.chain[0]);
    bc.new_transaction("A".to_string(), "B".to_string(), 3);
    let block = bc.new_block(7, None);
    assert_eq!(block.index, 2);
    assert_eq!(block.proof, 7);
    assert_eq!(block.previous_hash, head_hash);
    assert_eq!(block.transactions.len(), 1);
    assert!(bc.current_transactions.is_empty());

    let explicit = bc.new_block(9, Some("custom".to_string()));
    assert_eq!(explicit.index, 3);
    assert_eq!(explicit.previous_hash, "custom");
    assert_eq!(explicit.merkle_root, "");
}

#[test]
fn last_block_is_the_newest() {
    let mut bc = Blockchain::new();
    bc.new_transaction("A".to_string(), "B".to_string(), 1);
    bc.mine();
    assert_eq!(bc.last_block().index, 2);
}

#[test]
fn node_identity_is_set_at_init() {
    let bc = Blockchain::new();
    assert!(!bc.node_id.is_empty());
    assert!(!bc.node_id.contains('-'));
}
