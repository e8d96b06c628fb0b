use vstd::prelude::*;

use crate::blocks::block::{Block, BlockView, parse_block, lemma_block_roundtrip};
use crate::utils::serializer::{
    Encode, decode_str_at, decode_u64_at, encode_str, encode_u64, parse_str, parse_u64,
    serialize, str_bytes, str_fits, u64_bytes, lemma_parse_str_bytes, lemma_parse_u64_bytes,
};

verus! {

/// The table that holds the blocks, by hash.
pub const TABLE_OF_BLOCK: &'static str = "blocks";

/// The key of the hash of the last block.
pub const TIP_KEY: &'static str = "tip_hash";

/// The key of the chain's height.
pub const HEIGHT: &'static str = "height";

/// The key of `key` in `table`.
pub open spec fn full_key(table: Seq<char>, key: Seq<char>) -> Seq<char> {
    table + seq![':'] + key
}

/// The key of `key` in `table`: the table's name, a colon, and the key.
pub fn get_full_key(table: &str, key: &str) -> (r: String)
    ensures
        r@ == full_key(table@, key@),
        r@.len() == table@.len() + 1 + key@.len(),
        r@.subrange(0, table@.len() as int) == table@,
        r@[table@.len() as int] == ':',
        r@.subrange(table@.len() + 1int, r@.len() as int) == key@,
{
    let colon = ":";
    proof {
        reveal_strlit(":");
    }
    let mut r = String::from_str(table);
    r.append(colon);
    r.append(key);
    proof {
        lemma_full_key_parts(table@, key@);
    }
    r
}

/// A full key is the table, a colon and the whole key, so that one table's
/// full keys of two keys are equal only where the keys are.
pub proof fn lemma_full_key_parts(table: Seq<char>, key: Seq<char>)
    ensures
        full_key(table, key).len() == table.len() + 1 + key.len(),
        full_key(table, key).subrange(0, table.len() as int) == table,
        full_key(table, key)[table.len() as int] == ':',
        full_key(table, key).subrange(table.len() + 1int, full_key(table, key).len() as int) == key,
        forall|other: Seq<char>| full_key(table, other) == full_key(table, key) ==> other == key,
{
    let f = full_key(table, key);
    assert(f.subrange(0, table.len() as int) =~= table);
    assert(f.subrange(table.len() + 1int, f.len() as int) =~= key);
    assert forall|other: Seq<char>| full_key(table, other) == full_key(table, key) implies other
        == key by {
        let g = full_key(table, other);
        assert(g.subrange(table.len() + 1int, g.len() as int) =~= other);
    }
}

/// The height a height record holds, where it holds one a `usize` can take.
pub open spec fn parse_height(b: Seq<u8>) -> Option<usize> {
    match parse_u64(b) {
        Some((x, _)) => if x <= usize::MAX {
            Some(x as usize)
        } else {
            None
        },
        None => None,
    }
}

/// The hash a tip record holds.
pub open spec fn parse_tip(b: Seq<u8>) -> Option<Seq<char>> {
    match parse_str(b) {
        Some((s, _)) => Some(s),
        None => None,
    }
}

/// The bytes of a height record.
pub fn height_record(height: usize) -> (r: Vec<u8>)
    ensures
        r@ == u64_bytes(height as u64),
{
    encode_u64(height as u64)
}

/// The height a height record holds, or `None` where its bytes are not one.
pub fn decode_height(bytes: &[u8]) -> (r: Option<usize>)
    ensures
        r == parse_height(bytes@),
{
    assert(bytes@.subrange(0, bytes@.len() as int) =~= bytes@);
    match decode_u64_at(bytes, 0) {
        Some((x, _)) => if x <= usize::MAX as u64 {
            Some(x as usize)
        } else {
            None
        },
        None => None,
    }
}

/// The bytes of a tip record.
pub fn tip_record(hash: &str) -> (r: Vec<u8>)
    ensures
        r@ == str_bytes(hash@),
{
    encode_str(hash)
}

/// The hash a tip record holds, or `None` where its bytes are not one.
pub fn decode_tip(bytes: &[u8]) -> (r: Option<String>)
    ensures
        match r {
            Some(s) => parse_tip(bytes@) == Some(s@),
            None => parse_tip(bytes@) is None,
        },
{
    assert(bytes@.subrange(0, bytes@.len() as int) =~= bytes@);
    match decode_str_at(bytes, 0) {
        Some((s, _)) => Some(s),
        None => None,
    }
}

/// The records that storing `block` under `key` at `height` writes, in order:
/// the tip, the block in its table, and the height.
pub open spec fn update_records_spec(key: Seq<char>, block: BlockView, height: usize) -> Seq<
    (Seq<char>, Seq<u8>),
> {
    seq![
        (TIP_KEY@, str_bytes(key)),
        (full_key(TABLE_OF_BLOCK@, key), block.encoded()),
        (HEIGHT@, u64_bytes(height as u64)),
    ]
}

/// The records that storing `block` under `key` at `height` writes: the
/// tip key with `key`, the block's key in the block table with the block,
/// and the height key with `height`.
pub fn update_records(key: &str, block: &Block, height: usize) -> (r: Vec<(String, Vec<u8>)>)
    ensures
        r@.len() == 3,
        r@[0].0@ == TIP_KEY@,
        r@[0].1@ == str_bytes(key@),
        r@[1].0@ == full_key(TABLE_OF_BLOCK@, key@),
        r@[1].1@ == block@.encoded(),
        r@[2].0@ == HEIGHT@,
        r@[2].1@ == u64_bytes(height as u64),
        forall|i: int|
            0 <= i < 3 ==> (#[trigger] r@[i]).0@ == update_records_spec(key@, block@, height)[i].0
                && r@[i].1@ == update_records_spec(key@, block@, height)[i].1,
{
    let tip = (String::from_str(TIP_KEY), tip_record(key));
    let stored = (get_full_key(TABLE_OF_BLOCK, key), serialize(block));
    let h = (String::from_str(HEIGHT), height_record(height));
    let r = vec![tip, stored, h];
    r
}

/// What the records of a store say back: the tip is the key, the block
/// stored under the key is the block, and the height is the height.
pub proof fn lemma_update_records_read_back(key: Seq<char>, block: BlockView, height: usize)
    requires
        str_fits(key),
        block.fits(),
    ensures
        parse_tip(update_records_spec(key, block, height)[0].1) == Some(key),
        parse_block(update_records_spec(key, block, height)[1].1) == Some(block),
        parse_height(update_records_spec(key, block, height)[2].1) == Some(height),
{
    let recs = update_records_spec(key, block, height);
    lemma_parse_str_bytes(key, Seq::empty());
    assert(str_bytes(key) + Seq::<u8>::empty() =~= str_bytes(key));
    lemma_block_roundtrip(block, Seq::empty());
    assert(block.encoded() + Seq::<u8>::empty() =~= block.encoded());
    lemma_parse_u64_bytes(height as u64, Seq::empty());
    assert(u64_bytes(height as u64) + Seq::<u8>::empty() =~= u64_bytes(height as u64));
}

} // verus!
