//! Answering a whole exercise, block by block: the input moves from block to
//! block as each one ends, and the answers are collected at the end.

use crate::blocks::{Block, BlockAnswered};
use crate::choice::OneOfWrapper;
use crate::editor::ResultKind;
use crate::feedback::decimal_of;
use crate::paragraph_input::{blank_texts, ParagraphWrapper};
use vstd::prelude::*;

verus! {

/// A block being answered.
#[derive(Debug)]
pub enum BlockWrapper {
    OneOf(OneOfWrapper),
    Paragraph(ParagraphWrapper),
    Answered(BlockAnswered),
}

/// The blocks that can be answered or shown here: all but orderings and
/// multiple choices.
pub open spec fn supported(block: &Block) -> bool {
    !(block is Order) && !(block is AnyOf)
}

impl BlockWrapper {
    pub open spec fn wf(&self) -> bool {
        match self {
            BlockWrapper::OneOf(o) => o.wf(),
            BlockWrapper::Paragraph(p) => p.wf(),
            BlockWrapper::Answered(_) => true,
        }
    }

    /// The answer that the block gives.
    pub open spec fn answer_spec(&self) -> Seq<Seq<char>> {
        match self {
            BlockWrapper::OneOf(o) => seq![
                decimal_of(
                    match o.selected_spec() {
                        Some(s) => s as nat,
                        None => 0,
                    },
                ),
            ],
            BlockWrapper::Paragraph(p) => blank_texts(p.items_spec()),
            BlockWrapper::Answered(_) => Seq::empty(),
        }
    }

    /// A block ready for answering.
    pub fn from_block(block: Block) -> (r: BlockWrapper)
        requires
            supported(&block),
        ensures
            r.wf(),
            block is OneOf <==> r is OneOf,
            block is Paragraph <==> r is Paragraph,
            block is Answered <==> r is Answered,
    {
        match block {
            Block::OneOf(items) => BlockWrapper::OneOf(OneOfWrapper::new(items)),
            Block::Paragraph(p) => BlockWrapper::Paragraph(ParagraphWrapper::new(p)),
            Block::Answered(a) => BlockWrapper::Answered(a),
            _ => {
                proof {
                    assert(false);
                }
                BlockWrapper::Paragraph(ParagraphWrapper::new(Vec::new()))
            },
        }
    }

    /// The answer of the block: the chosen position, the texts of the
    /// blanks, or nothing for a block that only shows an answer.
    pub fn finalize(self) -> (r: Vec<String>)
        ensures
            r.deep_view() == self.answer_spec(),
    {
        match self {
            BlockWrapper::OneOf(o) => o.finalize(),
            BlockWrapper::Paragraph(p) => p.finalize(),
            BlockWrapper::Answered(_) => {
                let r: Vec<String> = Vec::new();
                assert(r.deep_view() =~= Seq::<Seq<char>>::empty());
                r
            },
        }
    }
}

/// The block after `cursor` among `len`, or `cursor` at the last.
pub open spec fn block_down(cursor: usize, len: nat) -> int {
    if cursor + 1 < len {
        cursor + 1
    } else {
        cursor as int
    }
}

/// The block before `cursor`, or `cursor` at the first.
pub open spec fn block_up(cursor: usize) -> int {
    if cursor > 0 {
        cursor - 1
    } else {
        cursor as int
    }
}

/// An exercise being answered, with the current block, and the side from
/// which that block is entered.
#[derive(Debug)]
pub struct BlocksWrapper {
    items: Vec<BlockWrapper>,
    cursor: usize,
    start_from_left: bool,
}

impl BlocksWrapper {
    pub closed spec fn items_spec(&self) -> Seq<BlockWrapper> {
        self.items@
    }

    pub closed spec fn cursor_spec(&self) -> usize {
        self.cursor
    }

    pub closed spec fn start_from_left_spec(&self) -> bool {
        self.start_from_left
    }

    pub open spec fn wf(&self) -> bool {
        &&& forall|j: int| 0 <= j < self.items_spec().len() ==> (#[trigger] self.items_spec()[j]).wf()
        &&& (self.items_spec().len() > 0 ==> self.cursor_spec() < self.items_spec().len())
        &&& (self.items_spec().len() == 0 ==> self.cursor_spec() == 0)
    }

    /// An exercise ready for answering, from its first block.
    pub fn new(blocks: Vec<Block>) -> (r: BlocksWrapper)
        requires
            forall|j: int| 0 <= j < blocks@.len() ==> supported(&#[trigger] blocks@[j]),
        ensures
            r.wf(),
            r.items_spec().len() == blocks@.len(),
            r.cursor_spec() == 0,
            r.start_from_left_spec(),
    {
        let mut items: Vec<BlockWrapper> = Vec::new();
        let mut rest = blocks;
        let ghost p = rest@;
        let n = rest.len();
        let mut i: usize = 0;
        while i < n
            invariant
                n == p.len(),
                i <= n,
                rest@ == p.subrange(i as int, n as int),
                forall|j: int| 0 <= j < p.len() ==> supported(&#[trigger] p[j]),
                items@.len() == i,
                forall|j: int| 0 <= j < i ==> (#[trigger] items@[j]).wf(),
            decreases n - i,
        {
            let b = rest.remove(0);
            assert(b == p[i as int]);
            items.push(BlockWrapper::from_block(b));
            i += 1;
            proof {
                assert(rest@ =~= p.subrange(i as int, n as int));
            }
        }
        BlocksWrapper { items, cursor: 0, start_from_left: true }
    }

    pub fn cursor(&self) -> (r: usize)
        ensures
            r == self.cursor_spec(),
    {
        self.cursor
    }

    pub fn start_from_left(&self) -> (r: bool)
        ensures
            r == self.start_from_left_spec(),
    {
        self.start_from_left
    }

    /// Goes to the first block; `None` where there is none.
    pub fn select_first_block(&mut self) -> (r: Option<()>)
        requires
            old(self).wf(),
        ensures
            final(self).wf(),
            r is None <==> old(self).items_spec().len() == 0,
            final(self).cursor_spec() == 0,
            final(self).items_spec() == old(self).items_spec(),
            final(self).start_from_left_spec() == old(self).start_from_left_spec(),
    {
        if self.items.len() == 0 {
            None
        } else {
            self.cursor = 0;
            Some(())
        }
    }

    /// Goes to the next block, entered from the left: whether there is one.
    /// At the last block the cursor stays, and the block is entered from the
    /// right. `None` where there are no blocks.
    pub fn select_next_block(&mut self) -> (r: Option<bool>)
        requires
            old(self).wf(),
        ensures
            final(self).wf(),
            final(self).items_spec() == old(self).items_spec(),
            r is None <==> old(self).items_spec().len() == 0,
            r is None ==> *final(self) == *old(self),
            r == Some(true) <==> (old(self).items_spec().len() > 0 && old(self).cursor_spec() + 1
                < old(self).items_spec().len()),
            r == Some(true) ==> final(self).cursor_spec() == old(self).cursor_spec() + 1
                && final(self).start_from_left_spec(),
            r == Some(false) ==> final(self).cursor_spec() == old(self).cursor_spec()
                && !final(self).start_from_left_spec(),
    {
        if self.items.len() == 0 {
            None
        } else if self.cursor + 1 < self.items.len() {
            self.cursor = self.cursor + 1;
            self.start_from_left = true;
            Some(true)
        } else {
            self.start_from_left = false;
            Some(false)
        }
    }

    /// Goes to the block before, entered from the right: whether there is
    /// one. At the first block the cursor stays, and the block is entered
    /// from the left. `None` where there are no blocks.
    pub fn select_prev_block(&mut self) -> (r: Option<bool>)
        requires
            old(self).wf(),
        ensures
            final(self).wf(),
            final(self).items_spec() == old(self).items_spec(),
            r is None <==> old(self).items_spec().len() == 0,
            r is None ==> *final(self) == *old(self),
            r == Some(true) <==> (old(self).items_spec().len() > 0 && old(self).cursor_spec() > 0),
            r == Some(true) ==> final(self).cursor_spec() == old(self).cursor_spec() - 1
                && !final(self).start_from_left_spec(),
            r == Some(false) ==> final(self).cursor_spec() == old(self).cursor_spec()
                && final(self).start_from_left_spec(),
    {
        if self.items.len() == 0 {
            None
        } else if self.cursor > 0 {
            self.cursor = self.cursor - 1;
            self.start_from_left = false;
            Some(true)
        } else {
            self.start_from_left = true;
            Some(false)
        }
    }

    /// What follows the end of the input of the current block: finishing it
    /// goes to the next block, or ends the exercise after the last; moving
    /// forward or back goes to the next or previous block, where there is
    /// one; a cancel ends the exercise.
    pub fn after_block(&mut self, kind: ResultKind) -> (r: Option<ResultKind>)
        requires
            old(self).wf(),
            old(self).items_spec().len() > 0,
        ensures
            final(self).wf(),
            final(self).items_spec() == old(self).items_spec(),
            kind == ResultKind::Canceled ==> r == Some(ResultKind::Canceled),
            kind == ResultKind::Finished ==> (r is Some <==> old(self).cursor_spec() + 1
                == old(self).items_spec().len()) && (r is Some ==> r == Some(ResultKind::Finished)),
            kind == ResultKind::NextBlock ==> (r is None && final(self).cursor_spec() as int
                == block_down(old(self).cursor_spec(), old(self).items_spec().len())),
            kind == ResultKind::PrevBlock ==> (r is None && final(self).cursor_spec() as int
                == block_up(old(self).cursor_spec())),
    {
        match kind {
            ResultKind::Finished => {
                if self.select_next_block() == Some(true) {
                    None
                } else {
                    Some(ResultKind::Finished)
                }
            },
            ResultKind::Canceled => Some(ResultKind::Canceled),
            ResultKind::NextBlock => {
                let moved = self.select_next_block();
                assert(moved == Some(true) || moved == Some(false));
                None
            },
            ResultKind::PrevBlock => {
                let moved = self.select_prev_block();
                assert(moved == Some(true) || moved == Some(false));
                None
            },
        }
    }

    /// The answers of all blocks, in order.
    pub fn finalize(self) -> (r: Vec<Vec<String>>)
        ensures
            r.len() == self.items_spec().len(),
            forall|j: int|
                0 <= j < r.len() ==> (#[trigger] r@[j]).deep_view()
                    == self.items_spec()[j].answer_spec(),
    {
        let mut out: Vec<Vec<String>> = Vec::new();
        let mut rest = self.items;
        let ghost p = rest@;
        let n = rest.len();
        let mut i: usize = 0;
        while i < n
            invariant
                n == p.len(),
                i <= n,
                rest@ == p.subrange(i as int, n as int),
                out.len() == i,
                forall|j: int| 0 <= j < i ==> (#[trigger] out@[j]).deep_view() == p[j].answer_spec(),
            decreases n - i,
        {
            let b = rest.remove(0);
            assert(b == p[i as int]);
            out.push(b.finalize());
            i += 1;
            proof {
                assert(rest@ =~= p.subrange(i as int, n as int));
            }
        }
        out
    }
}

} // verus!
