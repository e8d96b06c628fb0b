use vstd::prelude::*;

use crate::blocks::block::{Block, BlockView, genesis, mined};

verus! {

/// The difficulty bits every block of the chain is made with.
pub const CURR_BITS: usize = 8;

/// Whether `blocks` form a chain: it starts with the genesis block, and
/// every later block is sealed, made with `CURR_BITS`, and names the hash of
/// the block before it.
pub open spec fn is_chain(blocks: Seq<BlockView>) -> bool {
    &&& blocks.len() >= 1
    &&& blocks[0] == genesis(CURR_BITS)
    &&& forall|i: int|
        0 < i < blocks.len() ==> {
            &&& (#[trigger] blocks[i]).prev_hash == blocks[i - 1].hash
            &&& blocks[i].bits == CURR_BITS
            &&& blocks[i].is_sealed()
        }
}

/// A chain of blocks, each linked to the one before it by its hash.
pub struct Blockchain {
    blocks: Vec<Block>,
    height: usize,
}

impl View for Blockchain {
    type V = Seq<BlockView>;

    closed spec fn view(&self) -> Seq<BlockView> {
        self.blocks@.map_values(|b: Block| b@)
    }
}

impl Blockchain {
    /// The chain is well formed, and its height is the number of blocks after the first.
    pub closed spec fn wf(&self) -> bool {
        &&& is_chain(self@)
        &&& self.height + 1 == self.blocks@.len()
    }

    /// The number of blocks after the first.
    pub closed spec fn spec_height(&self) -> nat {
        self.height as nat
    }

    /// A well-formed chain is a chain, and its height counts the blocks after the first.
    pub proof fn lemma_wf(&self)
        requires
            self.wf(),
        ensures
            is_chain(self@),
            self.spec_height() + 1 == self@.len(),
    {
    }

    /// A chain holding the genesis block alone.
    pub fn new() -> (r: Self)
        ensures
            r.wf(),
            is_chain(r@),
            r@ == seq![genesis(CURR_BITS)],
            r.spec_height() == 0,
    {
        let blocks = vec![Block::create_genesis_block(CURR_BITS)];
        let r = Blockchain { blocks, height: 0 };
        assert(r@ =~= seq![genesis(CURR_BITS)]);
        r
    }

    /// Mines a block of `data` onto the chain: the new block names the hash
    /// of the last block and is sealed with the hash of its contents.
    pub fn mine_block(&mut self, data: &str)
        requires
            old(self).wf(),
        ensures
            final(self).wf(),
            is_chain(final(self)@),
            final(self)@ == old(self)@.push(mined(old(self)@.last().hash, data@, CURR_BITS)),
            final(self).spec_height() == old(self).spec_height() + 1,
            final(self)@.len() == old(self)@.len() + 1,
            forall|i: int| 0 <= i < old(self)@.len() ==> final(self)@[i] == old(self)@[i],
            final(self)@.last().data == data@,
            final(self)@.last().prev_hash == old(self)@.last().hash,
            final(self)@.last().bits == CURR_BITS,
            final(self)@.last().is_sealed(),
    {
        let ghost before = self@;
        let last = self.blocks.len() - 1;
        let prev_hash = self.blocks[last].get_hash();
        let block = Block::new(data, prev_hash.as_str(), CURR_BITS);
        self.blocks.push(block);
        self.height += 1;
        proof {
            assert(self@ =~= before.push(block@));
            let after = self@;
            assert forall|i: int| 0 < i < after.len() implies {
                &&& (#[trigger] after[i]).prev_hash == after[i - 1].hash
                &&& after[i].bits == CURR_BITS
                &&& after[i].is_sealed()
            } by {
                if i < before.len() {
                    assert(after[i] == before[i]);
                    assert(after[i - 1] == before[i - 1]);
                }
            }
        }
    }

    /// The blocks of the chain, first to last, as they are shown.
    pub fn blocks_info(&self) -> (r: &[Block])
        ensures
            r@.map_values(|b: Block| b@) == self@,
    {
        self.blocks.as_slice()
    }
}

} // verus!
