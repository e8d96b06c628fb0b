use vstd::prelude::*;

use crate::utils::serializer::{
    Encode, append_bytes, decode_str_at, decode_u64_at, encode_str, encode_u64, hash_hex,
    hash_to_str, parse_str, parse_u64, serialize, str_bytes, str_fits, u64_bytes,
    lemma_parse_str_bytes, lemma_parse_u64_bytes,
};

verus! {

/// The data of the first block of every chain.
pub const GENESIS_DATA: &'static str = "Genesis Block";

/// What a block is: the hash of the block before it, its data, its
/// difficulty bits, and its own hash.
pub struct BlockView {
    /// Hash of the previous block (empty for the first block).
    pub prev_hash: Seq<char>,
    /// The data the block records.
    pub data: Seq<char>,
    /// The difficulty the block was made with.
    pub bits: usize,
    /// Hash of the block's bytes taken with an empty hash.
    pub hash: Seq<char>,
}

impl BlockView {
    /// The bytes of the block: its fields in order.
    pub open spec fn encoded(self) -> Seq<u8> {
        str_bytes(self.prev_hash) + str_bytes(self.data) + u64_bytes(self.bits as u64) + str_bytes(
            self.hash,
        )
    }

    /// The hash a block with these contents gets.
    pub open spec fn sealed_hash(self) -> Seq<char> {
        hash_hex(
            BlockView {
                prev_hash: self.prev_hash,
                data: self.data,
                bits: self.bits,
                hash: Seq::empty(),
            }.encoded(),
        )
    }

    /// Whether the block's hash is the hash of its contents.
    pub open spec fn is_sealed(self) -> bool {
        self.hash == self.sealed_hash()
    }

    /// Whether every text of the block has a UTF-8 length that a `u64` holds.
    pub open spec fn fits(self) -> bool {
        str_fits(self.prev_hash) && str_fits(self.data) && str_fits(self.hash)
    }
}

/// The block made of `data` after the block whose hash is `prev_hash`.
pub open spec fn mined(prev_hash: Seq<char>, data: Seq<char>, bits: usize) -> BlockView {
    let v = BlockView { prev_hash: prev_hash, data: data, bits: bits, hash: Seq::empty() };
    BlockView { prev_hash: prev_hash, data: data, bits: bits, hash: v.sealed_hash() }
}

/// The first block of a chain made with `bits`.
pub open spec fn genesis(bits: usize) -> BlockView {
    mined(Seq::empty(), GENESIS_DATA@, bits)
}

/// The block read from the front of `b`, where its bytes are well formed.
pub open spec fn parse_block(b: Seq<u8>) -> Option<BlockView> {
    match parse_str(b) {
        None => None,
        Some((prev_hash, r1)) => match parse_str(r1) {
            None => None,
            Some((data, r2)) => match parse_u64(r2) {
                None => None,
                Some((bits, r3)) => if bits > usize::MAX {
                    None
                } else {
                    match parse_str(r3) {
                        None => None,
                        Some((hash, _)) => Some(
                            BlockView {
                                prev_hash: prev_hash,
                                data: data,
                                bits: bits as usize,
                                hash: hash,
                            },
                        ),
                    }
                },
            },
        },
    }
}

/// The block with every field empty or zero.
pub open spec fn empty_block() -> BlockView {
    BlockView { prev_hash: Seq::empty(), data: Seq::empty(), bits: 0, hash: Seq::empty() }
}

/// A block of the chain.
#[derive(Debug, Clone)]
pub struct Block {
    prev_hash: String,
    data: String,
    bits: usize,
    hash: String,
}

impl View for Block {
    type V = BlockView;

    closed spec fn view(&self) -> BlockView {
        BlockView { prev_hash: self.prev_hash@, data: self.data@, bits: self.bits, hash: self.hash@ }
    }
}

impl Encode for Block {
    open spec fn encoding(&self) -> Seq<u8> {
        self@.encoded()
    }

    fn encode(&self) -> (r: Vec<u8>) {
        let mut out = encode_str(self.prev_hash.as_str());
        append_bytes(&mut out, encode_str(self.data.as_str()));
        append_bytes(&mut out, encode_u64(self.bits as u64));
        append_bytes(&mut out, encode_str(self.hash.as_str()));
        out
    }
}

impl Default for Block {
    /// The block with every field empty or zero.
    fn default() -> (r: Self)
        ensures
            r@ == empty_block(),
    {
        Block { prev_hash: String::new(), data: String::new(), bits: 0, hash: String::new() }
    }
}

impl Block {
    /// The block of `data` after the block whose hash is `prev_hash`,
    /// sealed with the hash of its contents.
    pub fn new(data: &str, prev_hash: &str, bits: usize) -> (r: Self)
        ensures
            r@ == mined(prev_hash@, data@, bits),
            r@.data == data@,
            r@.prev_hash == prev_hash@,
            r@.bits == bits,
            r@.is_sealed(),
    {
        let mut block = Block {
            prev_hash: prev_hash.to_owned(),
            data: data.to_owned(),
            bits,
            hash: String::new(),
        };
        block.set_hash();
        block
    }

    /// The first block of a chain.
    pub fn create_genesis_block(bits: usize) -> (r: Self)
        ensures
            r@ == genesis(bits),
    {
        let empty = "";
        proof {
            reveal_strlit("");
        }
        assert(empty@ == Seq::<char>::empty());
        let r = Block::new(GENESIS_DATA, empty, bits);
        assert(r@.data == GENESIS_DATA@);
        r
    }

    /// Sets the hash to the hash of the block's bytes as they are now.
    fn set_hash(&mut self)
        requires
            old(self)@.hash == Seq::<char>::empty(),
        ensures
            final(self)@ == (BlockView { hash: old(self)@.sealed_hash(), ..old(self)@ }),
    {
        let bytes = serialize(&*self);
        assert(old(self)@ == (BlockView { hash: Seq::empty(), ..old(self)@ }));
        self.hash = hash_to_str(bytes.as_slice());
    }

    /// The block's hash.
    pub fn get_hash(&self) -> (r: String)
        ensures
            r@ == self@.hash,
    {
        self.hash.clone()
    }

    /// Hash of the previous block.
    pub fn get_prev_hash(&self) -> (r: String)
        ensures
            r@ == self@.prev_hash,
    {
        self.prev_hash.clone()
    }

    /// The block's data.
    pub fn get_data(&self) -> (r: String)
        ensures
            r@ == self@.data,
    {
        self.data.clone()
    }

    /// The block's difficulty bits.
    pub fn get_bits(&self) -> (r: usize)
        ensures
            r == self@.bits,
    {
        self.bits
    }

    /// The block whose bytes start `bytes`, or `None` where they are not
    /// well formed. Bytes after the block are ignored.
    pub fn decode(bytes: &[u8]) -> (r: Option<Block>)
        ensures
            match r {
                Some(b) => parse_block(bytes@) == Some(b@),
                None => parse_block(bytes@) is None,
            },
    {
        assert(bytes@.subrange(0, bytes@.len() as int) =~= bytes@);
        let (prev_hash, p1) = match decode_str_at(bytes, 0) {
            Some(x) => x,
            None => return None,
        };
        let (data, p2) = match decode_str_at(bytes, p1) {
            Some(x) => x,
            None => return None,
        };
        let (bits, p3) = match decode_u64_at(bytes, p2) {
            Some(x) => x,
            None => return None,
        };
        if bits > usize::MAX as u64 {
            return None;
        }
        let (hash, _p4) = match decode_str_at(bytes, p3) {
            Some(x) => x,
            None => return None,
        };
        Some(Block { prev_hash, data, bits: bits as usize, hash })
    }

    /// The block that `bytes` hold, or the empty block where they hold none.
    pub fn from_bytes(bytes: &[u8]) -> (r: Block)
        ensures
            r@ == match parse_block(bytes@) {
                Some(v) => v,
                None => empty_block(),
            },
    {
        match Block::decode(bytes) {
            Some(b) => b,
            None => Block::default(),
        }
    }
}

/// A mined block carries the data, the previous hash and the bits it was
/// made with, and its hash is the hash of those contents.
pub proof fn lemma_mined(prev_hash: Seq<char>, data: Seq<char>, bits: usize)
    ensures
        mined(prev_hash, data, bits).data == data,
        mined(prev_hash, data, bits).prev_hash == prev_hash,
        mined(prev_hash, data, bits).bits == bits,
        mined(prev_hash, data, bits).is_sealed(),
{
}

/// Reading a block back from its bytes gives the block.
pub proof fn lemma_block_roundtrip(v: BlockView, rest: Seq<u8>)
    requires
        v.fits(),
    ensures
        parse_block(v.encoded() + rest) == Some(v),
{
    let b3 = str_bytes(v.hash) + rest;
    let b2 = u64_bytes(v.bits as u64) + b3;
    let b1 = str_bytes(v.data) + b2;
    let b0 = str_bytes(v.prev_hash) + b1;
    assert(v.encoded() + rest =~= b0);
    lemma_parse_str_bytes(v.prev_hash, b1);
    lemma_parse_str_bytes(v.data, b2);
    lemma_parse_u64_bytes(v.bits as u64, b3);
    lemma_parse_str_bytes(v.hash, rest);
}

} // verus!
