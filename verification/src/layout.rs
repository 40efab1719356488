//! The order in which a function's blocks are written out. It has no part
//! in the control flow.

use vstd::prelude::*;

use crate::block::Block;
use crate::function_table::FunctionView;
use crate::module::{ordered, Module, ModuleView};

verus! {

/// The order without `block`.
pub open spec fn without(layout: Seq<usize>, block: usize) -> Seq<usize>
    decreases layout.len(),
{
    if layout.len() == 0 {
        seq![]
    } else if layout.last() == block {
        without(layout.drop_last(), block)
    } else {
        without(layout.drop_last(), block).push(layout.last())
    }
}

/// The first position at which `block` stands in the order.
pub open spec fn first_index(layout: Seq<usize>, block: usize) -> Option<int>
    decreases layout.len(),
{
    if layout.len() == 0 {
        None
    } else {
        match first_index(layout.drop_last(), block) {
            Some(at) => Some(at),
            None => if layout.last() == block {
                Some(layout.len() - 1)
            } else {
                None
            },
        }
    }
}

/// What stands first in the beginning of an order stands first in all of it.
pub proof fn lemma_first_index_of_prefix(layout: Seq<usize>, block: usize, length: int)
    requires
        0 <= length <= layout.len(),
        first_index(layout.take(length), block) is Some,
    ensures
        first_index(layout, block) == first_index(layout.take(length), block),
    decreases layout.len(),
{
    if length == layout.len() {
        assert(layout.take(length) =~= layout);
    } else {
        assert(layout.drop_last().take(length) =~= layout.take(length));
        lemma_first_index_of_prefix(layout.drop_last(), block, length);
    }
}

/// The order after `block` was taken out and put back next to `position`:
/// behind it where `after` holds, else in front of it. Nothing moves where
/// one of the two is not in the order, or `position` is the block itself.
pub open spec fn moved_beside(layout: Seq<usize>, block: usize, position: usize, after: bool) -> Seq<
    usize,
> {
    match (first_index(layout, block), first_index(without(layout, block), position)) {
        (Some(_), Some(at)) => without(layout, block).insert(
            if after {
                at + 1
            } else {
                at
            },
            block,
        ),
        _ => layout,
    }
}

/// Whether the order holds each of the positions below `count` once, and
/// nothing else.
pub open spec fn placed(layout: Seq<usize>, count: nat) -> bool {
    &&& layout.len() == count
    &&& forall|j: int, k: int|
        0 <= j < layout.len() && 0 <= k < layout.len() && j != k ==> layout[j] != layout[k]
    &&& forall|k: int| 0 <= k < layout.len() ==> (#[trigger] layout[k]) < count
    &&& forall|b: usize| b < count ==> #[trigger] layout.contains(b)
}

/// A new block is written out last, and once.
pub proof fn lemma_placed_push(layout: Seq<usize>, count: usize)
    requires
        placed(layout, count as nat),
    ensures
        placed(layout.push(count), count as nat + 1),
{
    let next = layout.push(count);
    assert forall|b: usize| b < count + 1 implies #[trigger] next.contains(b) by {
        if b < count {
            assert(layout.contains(b));
            let k = choose|k: int| 0 <= k < layout.len() && layout[k] == b;
            assert(next[k] == b);
        } else {
            assert(next[count as int] == b);
        }
    }
}

/// What is first in an order is in it.
pub proof fn lemma_first_index_is_in(layout: Seq<usize>, block: usize)
    ensures
        first_index(layout, block) matches Some(at) ==> 0 <= at < layout.len() && layout[at]
            == block,
        first_index(layout, block) is None ==> !layout.contains(block),
    decreases layout.len(),
{
    if layout.len() > 0 {
        lemma_first_index_is_in(layout.drop_last(), block);
        if first_index(layout, block) is None {
            assert forall|k: int| 0 <= k < layout.len() implies layout[k] != block by {
                if k < layout.len() - 1 {
                    assert(layout.drop_last()[k] == layout[k]);
                    assert(layout.drop_last().contains(layout[k]));
                }
            }
        }
    }
}

/// The order without a block holds what the order holds but the block, in
/// the same order; it holds nothing twice that the order holds once.
pub proof fn lemma_without(layout: Seq<usize>, block: usize)
    ensures
        !without(layout, block).contains(block),
        forall|other: usize|
            other != block && layout.contains(other) ==> #[trigger] without(
                layout,
                block,
            ).contains(other),
        forall|k: int|
            0 <= k < without(layout, block).len() ==> layout.contains(
                #[trigger] without(layout, block)[k],
            ),
        without(layout, block).len() <= layout.len(),
        (forall|j: int, k: int|
            0 <= j < layout.len() && 0 <= k < layout.len() && j != k ==> layout[j] != layout[k])
            ==> {
            &&& forall|j: int, k: int|
                0 <= j < without(layout, block).len() && 0 <= k < without(layout, block).len()
                    && j != k ==> without(layout, block)[j] != without(layout, block)[k]
            &&& layout.contains(block) ==> without(layout, block).len() == layout.len() - 1
        },
    decreases layout.len(),
{
    let result = without(layout, block);
    if layout.len() > 0 {
        let shorter = layout.drop_last();
        let last = layout.last();
        lemma_without(shorter, block);
        let inner = without(shorter, block);
        assert forall|other: usize| other != block && layout.contains(other) implies #[trigger] result.contains(
            other,
        ) by {
            let k = choose|k: int| 0 <= k < layout.len() && layout[k] == other;
            if k < layout.len() - 1 {
                assert(shorter[k] == other);
                assert(shorter.contains(other));
                assert(inner.contains(other));
                let i = choose|i: int| 0 <= i < inner.len() && inner[i] == other;
                assert(result[i] == other);
            } else {
                assert(result.last() == other);
            }
        }
        assert forall|k: int| 0 <= k < result.len() implies layout.contains(#[trigger] result[k]) by {
            if k < inner.len() {
                assert(result[k] == inner[k]);
                assert(shorter.contains(inner[k]));
                let i = choose|i: int| 0 <= i < shorter.len() && shorter[i] == inner[k];
                assert(layout[i] == inner[k]);
            } else {
                assert(layout[layout.len() - 1] == last);
            }
        }
        if !result.contains(block) {
        } else {
            let k = choose|k: int| 0 <= k < result.len() && result[k] == block;
            if k < inner.len() {
                assert(inner[k] == block);
                assert(inner.contains(block));
            }
            assert(false);
        }
        if forall|j: int, k: int|
            0 <= j < layout.len() && 0 <= k < layout.len() && j != k ==> layout[j] != layout[k] {
            assert forall|j: int, k: int|
                0 <= j < shorter.len() && 0 <= k < shorter.len() && j != k implies shorter[j]
                != shorter[k] by {
                assert(shorter[j] == layout[j]);
                assert(shorter[k] == layout[k]);
            }
            assert forall|j: int, k: int|
                0 <= j < result.len() && 0 <= k < result.len() && j != k implies result[j]
                != result[k] by {
                if j < inner.len() && k < inner.len() {
                    assert(result[j] == inner[j]);
                    assert(result[k] == inner[k]);
                } else if j < inner.len() {
                    // the last of the order stands nowhere before
                    assert(shorter.contains(inner[j]));
                    let i = choose|i: int| 0 <= i < shorter.len() && shorter[i] == inner[j];
                    assert(layout[i] == inner[j]);
                } else if k < inner.len() {
                    assert(shorter.contains(inner[k]));
                    let i = choose|i: int| 0 <= i < shorter.len() && shorter[i] == inner[k];
                    assert(layout[i] == inner[k]);
                }
            }
            if layout.contains(block) {
                if last == block {
                    if shorter.contains(block) {
                        let i = choose|i: int| 0 <= i < shorter.len() && shorter[i] == block;
                        assert(layout[i] == block);
                        assert(false);
                    }
                    lemma_without_nothing(shorter, block);
                } else {
                    let i = choose|i: int| 0 <= i < layout.len() && layout[i] == block;
                    assert(shorter[i] == block);
                    assert(shorter.contains(block));
                }
            }
        }
    }
}

/// The order without a block that is not in it is the order.
pub proof fn lemma_without_nothing(layout: Seq<usize>, block: usize)
    requires
        !layout.contains(block),
    ensures
        without(layout, block) == layout,
    decreases layout.len(),
{
    if layout.len() > 0 {
        assert(layout[layout.len() - 1] == layout.last());
        assert forall|k: int| 0 <= k < layout.len() - 1 implies layout.drop_last()[k] != block by {
            assert(layout[k] == layout.drop_last()[k]);
        }
        lemma_without_nothing(layout.drop_last(), block);
        assert(layout.drop_last().push(layout.last()) =~= layout);
    } else {
        assert(without(layout, block) =~= layout);
    }
}

/// A block that moves in the order stays in it once, and so does every
/// other.
pub proof fn lemma_placed_moved(
    layout: Seq<usize>,
    count: nat,
    block: usize,
    position: usize,
    after: bool,
)
    requires
        placed(layout, count),
    ensures
        placed(moved_beside(layout, block, position, after), count),
{
    let rest = without(layout, block);
    lemma_first_index_is_in(layout, block);
    lemma_first_index_is_in(rest, position);
    lemma_without(layout, block);
    match (first_index(layout, block), first_index(rest, position)) {
        (Some(_), Some(at)) => {
            let to = if after {
                at + 1
            } else {
                at
            };
            let moved = rest.insert(to, block);
            assert(layout.contains(block));
            assert(moved.len() == count);
            assert forall|k: int| 0 <= k < moved.len() implies (#[trigger] moved[k]) < count by {
                if k < to {
                    assert(moved[k] == rest[k]);
                    assert(layout.contains(rest[k]));
                } else if k == to {
                    assert(moved[k] == block);
                } else {
                    assert(moved[k] == rest[k - 1]);
                    assert(layout.contains(rest[k - 1]));
                }
            }
            assert forall|j: int, k: int|
                0 <= j < moved.len() && 0 <= k < moved.len() && j != k implies moved[j]
                != moved[k] by {
                let a = if j < to { j } else { j - 1 };
                let b = if k < to { k } else { k - 1 };
                if j != to {
                    assert(moved[j] == rest[a]);
                    assert(rest.contains(rest[a]));
                }
                if k != to {
                    assert(moved[k] == rest[b]);
                    assert(rest.contains(rest[b]));
                }
            }
            assert forall|b: usize| b < count implies #[trigger] moved.contains(b) by {
                if b == block {
                    assert(moved[to] == b);
                } else {
                    assert(layout.contains(b));
                    assert(rest.contains(b));
                    let k = choose|k: int| 0 <= k < rest.len() && rest[k] == b;
                    if k < to {
                        assert(moved[k] == b);
                    } else {
                        assert(moved[k + 1] == b);
                    }
                }
            }
        },
        _ => {},
    }
}


impl ModuleView {
    /// The module after `block` was moved next to `position` in the order
    /// of their function. Blocks of two functions are left where they are.
    pub open spec fn move_block(self, block: Block, position: Block, after: bool) -> ModuleView {
        if block.parent == position.parent && block.parent < self.functions.len() {
            ModuleView {
                functions: self.functions.update(
                    block.parent as int,
                    FunctionView {
                        layout: moved_beside(
                            self.functions[block.parent as int].layout,
                            block.index,
                            position.index,
                            after,
                        ),
                        ..self.functions[block.parent as int]
                    },
                ),
                ..self
            }
        } else {
            self
        }
    }
}

fn take_out(layout: &Vec<usize>, block: usize) -> (result: Vec<usize>)
    ensures
        result@ == without(layout@, block),
{
    let mut result: Vec<usize> = Vec::new();
    let mut i: usize = 0;
    proof {
        assert(layout@.take(0) =~= seq![]);
    }
    while i < layout.len()
        invariant
            i <= layout@.len(),
            result@ == without(layout@.take(i as int), block),
        decreases layout@.len() - i,
    {
        proof {
            assert(layout@.take(i + 1).drop_last() =~= layout@.take(i as int));
        }
        if layout[i] != block {
            result.push(layout[i]);
        }
        i += 1;
    }
    proof {
        assert(layout@.take(i as int) =~= layout@);
    }
    result
}

fn find_first(layout: &Vec<usize>, block: usize) -> (result: Option<usize>)
    ensures
        result is Some == first_index(layout@, block) is Some,
        result matches Some(at) ==> first_index(layout@, block) == Some(at as int) && at
            < layout@.len(),
{
    let mut i: usize = 0;
    proof {
        assert(layout@.take(0) =~= seq![]);
    }
    while i < layout.len()
        invariant
            i <= layout@.len(),
            first_index(layout@.take(i as int), block) is None,
        decreases layout@.len() - i,
    {
        proof {
            assert(layout@.take(i + 1).drop_last() =~= layout@.take(i as int));
        }
        if layout[i] == block {
            proof {
                lemma_first_index_of_prefix(layout@, block, i + 1);
            }
            return Some(i);
        }
        i += 1;
    }
    proof {
        assert(layout@.take(i as int) =~= layout@);
    }
    None
}

impl Module {
    fn move_block(&mut self, block: Block, position: Block, after: bool)
        ensures
            final(self)@ == old(self)@.move_block(block, position, after),
            final(self)@.terminals() == old(self)@.terminals(),
            old(self)@.wf() ==> final(self)@.wf(),
    {
        proof {
            if old(self)@.wf() {
                lemma_move_keeps_order(old(self)@, block, position, after);
            }
        }
        if block.parent != position.parent || block.parent >= self.function_table.functions.len() {
            return ;
        }
        if find_first(&self.function_table.functions[block.parent].layout, block.index).is_none() {
            proof {
                let before = old(self)@;
                let expected = before.move_block(block, position, after);
                assert(before.functions =~= expected.functions);
            }
            return ;
        }
        let mut layout = take_out(&self.function_table.functions[block.parent].layout, block.index);
        let length = layout.len();
        match find_first(&layout, position.index) {
            Some(at) => {
                layout.insert(if after { at + 1 } else { at }, block.index);
                self.function_table.functions[block.parent].layout = layout;
                proof {
                    let before = old(self)@;
                    let now = final(self)@;
                    let expected = before.move_block(block, position, after);
                    let f = block.parent as int;
                    assert(now.functions[f].blocks =~= before.functions[f].blocks);
                    assert(now.functions =~= expected.functions);
                    assert(now.terminals() =~~= before.terminals());
                }
            },
            None => {
                proof {
                    let before = old(self)@;
                    let expected = before.move_block(block, position, after);
                    assert(before.functions =~= expected.functions);
                }
            },
        }
    }

    /// Has `block` written out directly behind `position`.
    pub fn move_block_after(&mut self, block: Block, position: Block)
        ensures
            final(self)@ == old(self)@.move_block(block, position, true),
            final(self)@.terminals() == old(self)@.terminals(),
            old(self)@.wf() ==> final(self)@.wf(),
    {
        self.move_block(block, position, true);
    }

    /// Has `block` written out directly in front of `position`.
    pub fn move_block_before(&mut self, block: Block, position: Block)
        ensures
            final(self)@ == old(self)@.move_block(block, position, false),
            final(self)@.terminals() == old(self)@.terminals(),
            old(self)@.wf() ==> final(self)@.wf(),
    {
        self.move_block(block, position, false);
    }
}

/// Moving a block keeps a well-formed module well formed.
pub proof fn lemma_move_keeps_order(module: ModuleView, block: Block, position: Block, after: bool)
    requires
        module.wf(),
    ensures
        module.move_block(block, position, after).wf(),
{
    reveal(ordered);
    let moved = module.move_block(block, position, after);
    assert(moved.terminals() =~~= module.terminals());
    if block.parent == position.parent && block.parent < module.functions.len() {
        let f = block.parent as int;
        assert(module.functions[f].function == f);
        lemma_placed_moved(
            module.functions[f].layout,
            module.functions[f].blocks.len(),
            block.index,
            position.index,
            after,
        );
        assert forall|g: int| 0 <= g < moved.functions.len() implies (
        #[trigger] moved.functions[g]).function == g && placed(
            moved.functions[g].layout,
            moved.functions[g].blocks.len(),
        ) by {
            if g != f {
                assert(moved.functions[g] == module.functions[g]);
            }
        }
    }
}

/// In a well-formed module, a block moved next to another block of its
/// function stands directly in front of it, or directly behind it.
pub proof fn lemma_moved_stands_beside(
    module: ModuleView,
    block: Block,
    position: Block,
    after: bool,
)
    requires
        module.wf(),
        module.has_block(block),
        module.has_block(position),
        block.parent == position.parent,
        block.index != position.index,
    ensures
        ({
            let layout = module.move_block(block, position, after).functions[block.parent as int].layout;
            let (first, second) = if after {
                (position.index, block.index)
            } else {
                (block.index, position.index)
            };
            first_index(layout, first) matches Some(at) && at + 1 < layout.len() && layout[at + 1]
                == second
        }),
{
    reveal(ordered);
    let f = block.parent as int;
    let layout = module.functions[f].layout;
    assert(module.functions[f].function == f);
    assert(layout.contains(block.index));
    assert(layout.contains(position.index));
    let rest = without(layout, block.index);
    lemma_first_index_is_in(layout, block.index);
    lemma_without(layout, block.index);
    assert(rest.contains(position.index));
    lemma_first_index_is_in(rest, position.index);
    let at = first_index(rest, position.index).unwrap();
    let moved = module.move_block(block, position, after).functions[f].layout;
    lemma_placed_moved(
        layout,
        module.functions[f].blocks.len(),
        block.index,
        position.index,
        after,
    );
    if after {
        assert(moved == rest.insert(at + 1, block.index));
        assert(moved[at] == position.index);
        assert(moved[at + 1] == block.index);
        assert(moved.contains(position.index));
        lemma_first_index_is_in(moved, position.index);
    } else {
        assert(moved == rest.insert(at, block.index));
        assert(moved[at] == block.index);
        assert(moved[at + 1] == position.index);
        assert(moved.contains(block.index));
        lemma_first_index_is_in(moved, block.index);
    }
}

/// The order in which blocks are written out has no part in the control
/// flow: moving a block changes no terminal.
pub proof fn lemma_move_keeps_terminals(module: ModuleView, block: Block, position: Block, after: bool)
    ensures
        module.move_block(block, position, after).terminals() == module.terminals(),
{
    assert(module.move_block(block, position, after).terminals() =~~= module.terminals());
}

} // verus!
