use blockchain::blocks::blockchain::CURR_BITS;
use blockchain::{hash_to_str, Block, Blockchain, Encode};

fn block_tuple(b: &Block) -> (String, String, u64, String) {
    (b.get_prev_hash(), b.get_data(), b.get_bits() as u64, b.get_hash())
}

#[test]
fn hash_of_empty_input() {
    assert_eq!(
        hash_to_str(&[]),
        "a7ffc6f8bf1ed76651c14756a061d662f580ff4de43b49fa82d80a4b80f8434a"
    );
}

#[test]
fn hash_of_abc() {
    assert_eq!(
        hash_to_str(b"abc"),
        "3a985da74fe225b2045c172d6bd390bd855f086e3e9d525b46bfe24511431532"
    );
}

#[test]
fn block_is_sealed_by_its_contents() {
    let b = Block::new("data", "prev", 8);
    assert_eq!(b.get_data(), "data");
    assert_eq!(b.get_prev_hash(), "prev");
    assert_eq!(b.get_bits(), 8);
    let unsealed = bincode::serialize(&("prev".to_string(), "data".to_string(), 8u64, String::new())).unwrap();
    assert_eq!(b.get_hash(), hash_to_str(&unsealed));
}

#[test]
fn block_bytes_match_bincode() {
    let b = Block::new("x", "y", 3);
    assert_eq!(b.encode(), bincode::serialize(&block_tuple(&b)).unwrap());
}

#[test]
fn block_read_back() {
    let b = Block::new("some data", "abc", 8);
    let mut bytes = b.encode();
    let back = Block::decode(&bytes).unwrap();
    assert_eq!(block_tuple(&back), block_tuple(&b));
    bytes.extend_from_slice(&[1, 2, 3]);
    let back = Block::decode(&bytes).unwrap();
    assert_eq!(block_tuple(&back), block_tuple(&b));
}

#[test]
fn truncated_block_is_refused() {
    let b = Block::new("some data", "abc", 8);
    let bytes = b.encode();
    assert!(Block::decode(&bytes[..bytes.len() - 1]).is_none());
    assert!(Block::decode(&[]).is_none());
    let d = Block::from_bytes(&bytes[..10]);
    assert_eq!(block_tuple(&d), (String::new(), String::new(), 0, String::new()));
}

#[test]
fn invalid_utf8_block_is_refused() {
    let mut bytes = bincode::serialize(&(1u64)).unwrap();
    bytes.push(0xff);
    assert!(Block::decode(&bytes).is_none());
}

#[test]
fn genesis_block() {
    let g = Block::create_genesis_block(8);
    assert_eq!(g.get_prev_hash(), "");
    assert_eq!(g.get_data(), "Genesis Block");
    assert_eq!(g.get_bits(), 8);
    assert_eq!(g.get_hash().len(), 64);
}

#[test]
fn new_chain_holds_genesis() {
    let bc = Blockchain::new();
    let blocks = bc.blocks_info();
    assert_eq!(blocks.len(), 1);
    assert_eq!(block_tuple(&blocks[0]), block_tuple(&Block::create_genesis_block(CURR_BITS)));
}

#[test]
fn mined_blocks_are_linked() {
    let mut bc = Blockchain::new();
    bc.mine_block("shawvyu -> Bob 2 btc");
    bc.mine_block("shawvyu -> Bruce 2 btc");
    let blocks = bc.blocks_info();
    assert_eq!(blocks.len(), 3);
    assert_eq!(blocks[1].get_prev_hash(), blocks[0].get_hash());
    assert_eq!(blocks[2].get_prev_hash(), blocks[1].get_hash());
    assert_eq!(blocks[1].get_data(), "shawvyu -> Bob 2 btc");
    assert_eq!(blocks[2].get_data(), "shawvyu -> Bruce 2 btc");
    let expected = Block::new("shawvyu -> Bruce 2 btc", &blocks[1].get_hash(), CURR_BITS);
    assert_eq!(block_tuple(&blocks[2]), block_tuple(&expected));
}
