use blockchain::storage::records::{
    decode_height, decode_tip, height_record, tip_record, update_records,
};
use blockchain::{get_full_key, Block, Encode, HEIGHT, TABLE_OF_BLOCK, TIP_KEY};

#[test]
fn full_key_joins_with_colon() {
    assert_eq!(get_full_key("blocks", "abc"), "blocks:abc");
    assert_eq!(get_full_key("", ""), ":");
}

#[test]
fn height_read_back() {
    for h in [0usize, 1, 255, 256, 1 << 40] {
        assert_eq!(decode_height(&height_record(h)), Some(h));
    }
    assert_eq!(height_record(258), vec![2, 1, 0, 0, 0, 0, 0, 0]);
    assert_eq!(decode_height(&[1, 2, 3]), None);
}

#[test]
fn tip_read_back() {
    assert_eq!(decode_tip(&tip_record("abcdef")), Some("abcdef".to_string()));
    assert_eq!(decode_tip(&tip_record("")), Some(String::new()));
    assert_eq!(decode_tip(&[5, 0, 0, 0, 0, 0, 0, 0, b'a']), None);
}

#[test]
fn records_of_a_store() {
    let block = Block::new("d", "p", 8);
    let recs = update_records("k1", &block, 7);
    assert_eq!(recs.len(), 3);
    assert_eq!(recs[0].0, TIP_KEY);
    assert_eq!(decode_tip(&recs[0].1), Some("k1".to_string()));
    assert_eq!(recs[1].0, format!("{}:k1", TABLE_OF_BLOCK));
    assert_eq!(recs[1].1, block.encode());
    assert_eq!(recs[2].0, HEIGHT);
    assert_eq!(decode_height(&recs[2].1), Some(7));
}
