use vstd::prelude::*;
use crate::chance::{below, shuffle};

verus! {

broadcast use {vstd::array::group_array_axioms, vstd::seq_lib::group_to_multiset_ensures};

/// Number of blocks of a system: one for each 4-bit input code.
pub const BLOCKS: usize = 16;

/// A rule of a steering system: it fires on the input code `cmp` when
/// `out_on` is set, on every other code when it is not, and then answers
/// `out_val` (0, 1 or 2).
#[derive(Copy, Clone, Debug, PartialEq, Eq, Structural)]
pub struct Block {
    pub cmp: u8,
    pub out_on: bool,
    pub out_val: u8,
}

impl Block {
    /// The block fires on input code `code`.
    pub open spec fn fires(self, code: u8) -> bool {
        self.out_on == (self.cmp == code)
    }

    /// The block compares with a 4-bit code and answers 0, 1 or 2.
    pub open spec fn wf(self) -> bool {
        self.cmp < 16 && self.out_val <= 2
    }

    /// A block for the code in the low four bits of `num`; an answer above 2
    /// becomes 0.
    pub fn new(num: u8, out_on: bool, out_val: u8) -> (r: Self)
        ensures
            r.cmp == num % 16,
            r.out_on == out_on,
            r.out_val == if out_val > 2 {
                0
            } else {
                out_val
            },
    {
        let out_val = if out_val > 2 {
            0
        } else {
            out_val
        };
        let cmp = num & 15;
        assert(num & 15 == num % 16) by (bit_vector);
        Block { cmp, out_on, out_val }
    }
}

impl Default for Block {
    fn default() -> (r: Self)
        ensures
            r == (Block { cmp: 0, out_on: false, out_val: 0 }),
    {
        Block { cmp: 0, out_on: false, out_val: 0 }
    }
}

/// The 4-bit code of four input flags, the first flag the lowest bit.
pub open spec fn code_of(input: [bool; 4]) -> u8 {
    ((if input@[0] { 1u8 } else { 0u8 }) + (if input@[1] { 2u8 } else { 0u8 }) + (if input@[2] {
        4u8
    } else {
        0u8
    }) + (if input@[3] { 8u8 } else { 0u8 })) as u8
}

/// Some block of `blocks` compares with code `c`.
pub open spec fn has_block_for(blocks: Seq<Block>, c: u8) -> bool {
    exists|i: int| 0 <= i < blocks.len() && (#[trigger] blocks[i]).cmp == c
}

/// The answer after the one a punished block gave: 0 becomes 1, 1 becomes 2,
/// anything else 1.
pub open spec fn next_answer(v: u8) -> u8 {
    if v == 0 {
        1
    } else if v == 1 {
        2
    } else {
        1
    }
}

/// A steering system: a list of blocks scanned in order for the first that
/// fires on the input code.
#[derive(Copy, Clone, Debug)]
pub struct System {
    /// The block the last scan stopped at.
    pub pointer: u8,
    pub blocks: [Block; 16],
    /// The code of the last input.
    pub input: u8,
    /// The block that gave the last answer, and whether its answer was
    /// already changed since.
    pub outblock: (u8, bool),
}

impl System {
    /// Every block is sound and the last answering block is one of them.
    pub open spec fn wf(&self) -> bool {
        &&& forall|i: int| 0 <= i < 16 ==> (#[trigger] self.blocks@[i]).wf()
        &&& self.outblock.0 < 16
    }

    /// A system with one block for each of the 16 codes, each with a random
    /// comparison mode and answer, in random order.
    pub fn new() -> (r: Self)
        ensures
            r.wf(),
            r.pointer == 0,
            r.input == 0,
            r.outblock == (0u8, false),
            forall|c: u8| c < 16 ==> #[trigger] has_block_for(r.blocks@, c),
    {
        let mut rng = rand::thread_rng();
        let mut blocks = [Block::default();16];
        let mut i: usize = 0;
        while i < BLOCKS
            invariant
                i <= 16,
                forall|j: int| 0 <= j < i ==> (#[trigger] blocks@[j]).cmp == j && blocks@[j].wf(),
            decreases 16 - i,
        {
            let out_on = below(&mut rng, 2) == 0;
            let out_val = below(&mut rng, 3) as u8;
            blocks[i] = Block::new(i as u8, out_on, out_val);
            i = i + 1;
        }
        let ghost ordered = blocks@;
        shuffle(&mut blocks, &mut rng);
        assert forall|j: int| 0 <= j < 16 implies (#[trigger] blocks@[j]).wf() by {
            assert(blocks@.contains(blocks@[j]));
            assert(ordered.to_multiset().count(blocks@[j]) > 0);
        }
        assert forall|c: u8| c < 16 implies #[trigger] has_block_for(blocks@, c) by {
            assert(ordered.contains(ordered[c as int]));
            assert(blocks@.to_multiset().count(ordered[c as int]) > 0);
            assert(blocks@.contains(ordered[c as int]));
        }
        System { pointer: 0, blocks, input: 0, outblock: (0, false) }
    }

    /// Scans the blocks in order for the first that fires on the code of
    /// `input` and returns its answer, remembering where it stood. When no
    /// block fires (possible when the one block comparing with the code fires
    /// only on other codes and every other block only on its own code), the
    /// scan stops past the last block instead of reading beyond it: the answer
    /// is 0 and the remembered block stays.
    pub fn update(&mut self, input: [bool; 4]) -> (r: u8)
        requires
            old(self).wf(),
        ensures
            final(self).wf(),
            final(self).blocks == old(self).blocks,
            final(self).input == code_of(input),
            final(self).pointer <= 16,
            forall|j: int|
                0 <= j < final(self).pointer ==> !(#[trigger] old(self).blocks@[j]).fires(code_of(input)),
            final(self).pointer < 16 ==> {
                &&& old(self).blocks@[final(self).pointer as int].fires(code_of(input))
                &&& r == old(self).blocks@[final(self).pointer as int].out_val
                &&& final(self).outblock == (final(self).pointer, old(self).outblock.1)
            },
            final(self).pointer == 16 ==> r == 0 && final(self).outblock == old(self).outblock,
    {
        let mut code: u8 = 0;
        if input[0] {
            code = code + 1;
        }
        if input[1] {
            code = code + 2;
        }
        if input[2] {
            code = code + 4;
        }
        if input[3] {
            code = code + 8;
        }
        self.input = code;
        self.pointer = 0;
        let mut out: Option<u8> = None;
        while out.is_none() && (self.pointer as usize) < BLOCKS
            invariant
                self.wf(),
                self.blocks == old(self).blocks,
                self.outblock == old(self).outblock,
                self.input == code,
                code == code_of(input),
                self.pointer <= 16,
                forall|j: int| 0 <= j < self.pointer ==> !(#[trigger] self.blocks@[j]).fires(code),
                out matches Some(v) ==> self.pointer < 16 && self.blocks@[self.pointer as int].fires(
                    code,
                ) && v == self.blocks@[self.pointer as int].out_val,
            decreases 16 - self.pointer + (if out is None { 1int } else { 0int }),
        {
            let block = self.blocks[self.pointer as usize];
            if block.out_on == (block.cmp == self.input) {
                out = Some(block.out_val);
            } else {
                self.pointer = self.pointer + 1;
            }
        }
        match out {
            Some(r) => {
                self.outblock.0 = self.pointer;
                r
            },
            None => 0,
        }
    }

    /// `punish` with the random draw made: `draw` (below 15) picks, among
    /// the other blocks in order, the one the last answering block is
    /// exchanged with.
    pub fn punish_with(&mut self, draw: u8)
        requires
            old(self).wf(),
            draw < 15,
        ensures
            final(self).wf(),
            final(self).pointer == old(self).pointer,
            final(self).input == old(self).input,
            !old(self).outblock.1 ==> {
                let o = old(self).outblock.0 as int;
                &&& final(self).blocks@ == old(self).blocks@.update(
                    o,
                    (Block { out_val: next_answer(old(self).blocks@[o].out_val), ..old(self).blocks@[o] }),
                )
                &&& final(self).outblock == (old(self).outblock.0, true)
            },
            old(self).outblock.1 ==> {
                let o = old(self).outblock.0 as int;
                let k = if draw < o { draw as int } else { draw + 1 };
                &&& final(self).blocks@ == old(self).blocks@.update(o, old(self).blocks@[k]).update(
                    k,
                    old(self).blocks@[o],
                )
                &&& final(self).outblock == old(self).outblock
            },
    {
        let o = self.outblock.0 as usize;
        if !self.outblock.1 {
            let mut block = self.blocks[o];
            block.out_val = if block.out_val == 0 {
                1
            } else if block.out_val == 1 {
                2
            } else {
                1
            };
            self.blocks[o] = block;
            self.outblock.1 = true;
            assert(self.blocks@ =~= old(self).blocks@.update(
                o as int,
                (Block { out_val: next_answer(old(self).blocks@[o as int].out_val), ..old(self).blocks@[o as int] }),
            ));
        } else {
            let swap_with: usize = if (draw as usize) < o {
                draw as usize
            } else {
                draw as usize + 1
            };
            let outblock = self.blocks[o];
            self.blocks[o] = self.blocks[swap_with];
            self.blocks[swap_with] = outblock;
            assert(self.blocks@ =~= old(self).blocks@.update(o as int, old(self).blocks@[swap_with as int]).update(
                swap_with as int,
                old(self).blocks@[o as int],
            ));
        }
    }

    /// Punishes the last answer: the first time, the answering block's answer
    /// changes (see `next_answer`); after that, the block is exchanged with
    /// another block picked at random.
    pub fn punish(&mut self)
        requires
            old(self).wf(),
        ensures
            final(self).wf(),
            final(self).pointer == old(self).pointer,
            final(self).input == old(self).input,
            !old(self).outblock.1 ==> {
                let o = old(self).outblock.0 as int;
                &&& final(self).blocks@ == old(self).blocks@.update(
                    o,
                    (Block { out_val: next_answer(old(self).blocks@[o].out_val), ..old(self).blocks@[o] }),
                )
                &&& final(self).outblock == (old(self).outblock.0, true)
            },
            old(self).outblock.1 ==> exists|k: int|
                0 <= k < 16 && k != old(self).outblock.0 && #[trigger] final(self).blocks@
                    == old(self).blocks@.update(old(self).outblock.0 as int, old(self).blocks@[k]).update(
                    k,
                    old(self).blocks@[old(self).outblock.0 as int],
                ),
            old(self).outblock.1 ==> final(self).outblock == old(self).outblock,
    {
        let draw = if self.outblock.1 {
            let mut rng = rand::thread_rng();
            below(&mut rng, BLOCKS - 1) as u8
        } else {
            0
        };
        self.punish_with(draw);
    }
}

} // verus!
