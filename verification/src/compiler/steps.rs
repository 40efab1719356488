//! What the steps of a compilation keep of the terminals: the relations
//! between the terminals before and after a step, and how the relations of
//! the parts of a step make up the relation of the whole.

use vstd::prelude::*;

use crate::block::{Block, TerminalInstruction};
use crate::module::{all_real, all_settled, settled};

verus! {

/// What every step that compiles into the function of the cursor keeps of
/// the terminals, from those `before` the step with the cursor at `cursor`
/// to those `after` it with the cursor at `exit`:
/// - no other function is touched, and no block is lost;
/// - the cursor stays in its function; it stays where it is or moves to a
///   block that the step made;
/// - of the blocks that were there, only the cursor's terminal may change;
/// - every block that the step made ends in a real terminal, but for the one
///   the cursor is left at;
/// - a block that the cursor has left ends in a real terminal.
#[verifier::opaque]
pub open spec fn lowered(
    before: Seq<Seq<TerminalInstruction>>,
    cursor: Block,
    after: Seq<Seq<TerminalInstruction>>,
    exit: Block,
) -> bool {
    let f = cursor.parent as int;
    let c = cursor.index as int;
    &&& after.len() == before.len()
    &&& exit.parent == cursor.parent
    &&& forall|g: int| 0 <= g < before.len() && g != f ==> after[g] == before[g]
    &&& before[f].len() <= after[f].len()
    &&& exit.index < after[f].len()
    &&& (exit == cursor || exit.index >= before[f].len())
    &&& forall|i: int| 0 <= i < before[f].len() && i != c ==> after[f][i] == before[f][i]
    &&& forall|i: int|
        before[f].len() <= i < after[f].len() && i != exit.index ==> (#[trigger] after[f][i]).is_real()
    &&& (exit != cursor ==> after[f][c].is_real() && settled(after[f][exit.index as int]))
    &&& (exit == cursor ==> after[f][c] == before[f][c] || after[f][c].is_real())
}

/// Two steps in a row keep what each of them keeps.
pub proof fn lemma_lowered_twice(
    first: Seq<Seq<TerminalInstruction>>,
    cursor: Block,
    second: Seq<Seq<TerminalInstruction>>,
    between: Block,
    third: Seq<Seq<TerminalInstruction>>,
    exit: Block,
)
    requires
        cursor.parent < first.len(),
        cursor.index < first[cursor.parent as int].len(),
        lowered(first, cursor, second, between),
        lowered(second, between, third, exit),
    ensures
        lowered(first, cursor, third, exit),
{
    reveal(lowered);
    let f = cursor.parent as int;
    assert forall|g: int| 0 <= g < first.len() && g != f implies third[g] == first[g] by {
        assert(second[g] == first[g]);
    }
    assert forall|i: int| 0 <= i < first[f].len() && i != cursor.index implies third[f][i]
        == first[f][i] by {
        assert(second[f][i] == first[f][i]);
    }
    assert forall|i: int| first[f].len() <= i < third[f].len() && i != exit.index implies (
    #[trigger] third[f][i]).is_real() by {
        if i < second[f].len() {
            if i != between.index {
                assert(second[f][i].is_real());
            }
        }
    }
}

/// A step that starts from settled terminals leaves settled terminals.
pub proof fn lemma_lowered_settled(
    before: Seq<Seq<TerminalInstruction>>,
    cursor: Block,
    after: Seq<Seq<TerminalInstruction>>,
    exit: Block,
)
    requires
        cursor.parent < before.len(),
        cursor.index < before[cursor.parent as int].len(),
        all_settled(before),
        lowered(before, cursor, after, exit),
    ensures
        all_settled(after),
{
    reveal(lowered);
    let f = cursor.parent as int;
    assert forall|g: int, i: int|
        0 <= g < after.len() && 0 <= i < after[g].len() implies settled(
        #[trigger] after[g][i],
    ) by {
        if g != f {
            assert(after[g] == before[g]);
            assert(settled(before[g][i]));
        } else if i < before[f].len() {
            assert(settled(before[f][i]));
            if i != cursor.index {
                assert(after[f][i] == before[f][i]);
            }
        } else if i != exit.index {
            assert(after[f][i].is_real());
        }
    }
}

/// A step that leaves the terminals and the cursor alone keeps everything.
pub proof fn lemma_lowered_nothing(terminals: Seq<Seq<TerminalInstruction>>, cursor: Block)
    requires
        cursor.parent < terminals.len(),
        cursor.index < terminals[cursor.parent as int].len(),
    ensures
        lowered(terminals, cursor, terminals, cursor),
{
    reveal(lowered);
}

/// The state of the terminals in the middle of a step that started from
/// the terminals `before` with the cursor at `cursor`: what `lowered` says,
/// but that any block at a position in `open` may still wait for its real
/// terminal.
#[verifier::opaque]
pub open spec fn region(
    before: Seq<Seq<TerminalInstruction>>,
    cursor: Block,
    now: Seq<Seq<TerminalInstruction>>,
    open: Set<int>,
) -> bool {
    let f = cursor.parent as int;
    let c = cursor.index as int;
    &&& now.len() == before.len()
    &&& 0 <= f < before.len()
    &&& c < before[f].len()
    &&& forall|g: int| 0 <= g < before.len() && g != f ==> now[g] == before[g]
    &&& before[f].len() <= now[f].len()
    &&& forall|i: int| open.contains(i) ==> 0 <= i < now[f].len() && (i == c || before[f].len() <= i)
    &&& forall|i: int| 0 <= i < before[f].len() && i != c ==> now[f][i] == before[f][i]
    &&& forall|i: int|
        before[f].len() <= i < now[f].len() ==> if open.contains(i) {
            settled(#[trigger] now[f][i])
        } else {
            now[f][i].is_real()
        }
    &&& if open.contains(c) {
        now[f][c] == before[f][c] || now[f][c].is_real()
    } else {
        now[f][c].is_real()
    }
}

/// A step starts with the cursor's block open and nothing changed.
pub proof fn lemma_region_start(terminals: Seq<Seq<TerminalInstruction>>, cursor: Block)
    requires
        cursor.parent < terminals.len(),
        cursor.index < terminals[cursor.parent as int].len(),
    ensures
        region(terminals, cursor, terminals, set![cursor.index as int]),
{
    reveal(region);
}

/// A new block is open.
pub proof fn lemma_region_block(
    before: Seq<Seq<TerminalInstruction>>,
    cursor: Block,
    now: Seq<Seq<TerminalInstruction>>,
    open: Set<int>,
    next: Seq<Seq<TerminalInstruction>>,
)
    requires
        region(before, cursor, now, open),
        next == now.update(
            cursor.parent as int,
            now[cursor.parent as int].push(TerminalInstruction::Default),
        ),
    ensures
        region(before, cursor, next, open.insert(now[cursor.parent as int].len() as int)),
{
    reveal(region);
    let f = cursor.parent as int;
    let added = open.insert(now[f].len() as int);
    assert forall|i: int| before[f].len() <= i < next[f].len() implies if added.contains(i) {
        settled(#[trigger] next[f][i])
    } else {
        next[f][i].is_real()
    } by {
        if i < now[f].len() {
            assert(next[f][i] == now[f][i]);
        }
    }
}

/// A block of the step that gets a real terminal is open no more.
pub proof fn lemma_region_terminal(
    before: Seq<Seq<TerminalInstruction>>,
    cursor: Block,
    now: Seq<Seq<TerminalInstruction>>,
    open: Set<int>,
    block: Block,
    terminal: TerminalInstruction,
    next: Seq<Seq<TerminalInstruction>>,
)
    requires
        region(before, cursor, now, open),
        block.parent == cursor.parent,
        block.index < now[cursor.parent as int].len(),
        block.index == cursor.index || block.index >= before[cursor.parent as int].len(),
        terminal.is_real(),
        next == now.update(
            cursor.parent as int,
            now[cursor.parent as int].update(block.index as int, terminal),
        ),
    ensures
        region(before, cursor, next, open.remove(block.index as int)),
{
    reveal(region);
    let f = cursor.parent as int;
    let closed = open.remove(block.index as int);
    assert forall|i: int| before[f].len() <= i < next[f].len() implies if closed.contains(i) {
        settled(#[trigger] next[f][i])
    } else {
        next[f][i].is_real()
    } by {
        if i != block.index {
            assert(next[f][i] == now[f][i]);
        }
    }
}

/// A block of the step that has a real terminal need not be open.
pub proof fn lemma_region_real(
    before: Seq<Seq<TerminalInstruction>>,
    cursor: Block,
    now: Seq<Seq<TerminalInstruction>>,
    open: Set<int>,
    block: Block,
)
    requires
        region(before, cursor, now, open),
        block.parent == cursor.parent,
        block.index < now[cursor.parent as int].len(),
        now[cursor.parent as int][block.index as int].is_real(),
    ensures
        region(before, cursor, now, open.remove(block.index as int)),
{
    reveal(region);
    let f = cursor.parent as int;
    let closed = open.remove(block.index as int);
    assert forall|i: int| before[f].len() <= i < now[f].len() implies if closed.contains(i) {
        settled(#[trigger] now[f][i])
    } else {
        now[f][i].is_real()
    } by {}
}

/// A step inside the step, from an open block `from` to the block `exit`:
/// `from` is open no more, and `exit` is.
pub proof fn lemma_region_step(
    before: Seq<Seq<TerminalInstruction>>,
    cursor: Block,
    now: Seq<Seq<TerminalInstruction>>,
    open: Set<int>,
    from: Block,
    next: Seq<Seq<TerminalInstruction>>,
    exit: Block,
)
    requires
        region(before, cursor, now, open),
        from.parent == cursor.parent,
        from.index < now[cursor.parent as int].len(),
        from.index == cursor.index || from.index >= before[cursor.parent as int].len(),
        open.contains(from.index as int),
        lowered(now, from, next, exit),
    ensures
        region(before, cursor, next, open.remove(from.index as int).insert(exit.index as int)),
{
    reveal(region);
    reveal(lowered);
    let f = cursor.parent as int;
    let c = cursor.index as int;
    let moved = open.remove(from.index as int).insert(exit.index as int);
    assert forall|g: int| 0 <= g < before.len() && g != f implies next[g] == before[g] by {
        assert(now[g] == before[g]);
    }
    assert forall|i: int| 0 <= i < before[f].len() && i != c implies next[f][i]
        == before[f][i] by {
        assert(now[f][i] == before[f][i]);
        if i != from.index {
            assert(next[f][i] == now[f][i]);
        }
    }
    assert forall|i: int| before[f].len() <= i < next[f].len() implies if moved.contains(i) {
        settled(#[trigger] next[f][i])
    } else {
        next[f][i].is_real()
    } by {
        if i < now[f].len() {
            if i != from.index {
                assert(next[f][i] == now[f][i]);
                assert(if open.contains(i) {
                    settled(now[f][i])
                } else {
                    now[f][i].is_real()
                });
            } else {
                assert(settled(now[f][i]));
            }
        }
    }
    if c != from.index {
        assert(next[f][c] == now[f][c]);
    }
}

/// In the middle of a step no block is lost.
pub proof fn lemma_region_grows(
    before: Seq<Seq<TerminalInstruction>>,
    cursor: Block,
    now: Seq<Seq<TerminalInstruction>>,
    open: Set<int>,
)
    requires
        region(before, cursor, now, open),
    ensures
        now.len() == before.len(),
        cursor.parent < before.len(),
        cursor.index < before[cursor.parent as int].len(),
        before[cursor.parent as int].len() <= now[cursor.parent as int].len(),
{
    reveal(region);
}

/// An open block is a block of the module.
pub proof fn lemma_region_open(
    before: Seq<Seq<TerminalInstruction>>,
    cursor: Block,
    now: Seq<Seq<TerminalInstruction>>,
    open: Set<int>,
    block: Block,
)
    requires
        region(before, cursor, now, open),
        block.parent == cursor.parent,
        open.contains(block.index as int),
    ensures
        block.parent < now.len(),
        block.index < now[block.parent as int].len(),
        block.index == cursor.index || before[cursor.parent as int].len() <= block.index,
{
    reveal(region);
}

/// Where a step ends there is a block, and the blocks that were there
/// before the step are still there.
pub proof fn lemma_lowered_blocks(
    before: Seq<Seq<TerminalInstruction>>,
    cursor: Block,
    after: Seq<Seq<TerminalInstruction>>,
    exit: Block,
)
    requires
        lowered(before, cursor, after, exit),
    ensures
        after.len() == before.len(),
        exit.parent == cursor.parent,
        forall|g: int| 0 <= g < before.len() ==> before[g].len() <= (#[trigger] after[g]).len(),
        cursor.parent < before.len() ==> exit.index < after[exit.parent as int].len(),
        exit == cursor || before[cursor.parent as int].len() <= exit.index,
{
    reveal(lowered);
}

/// A step inside the step that ends in a real terminal: the block it
/// started from is open no more, and none is opened.
pub proof fn lemma_region_ended(
    before: Seq<Seq<TerminalInstruction>>,
    cursor: Block,
    now: Seq<Seq<TerminalInstruction>>,
    open: Set<int>,
    from: Block,
    next: Seq<Seq<TerminalInstruction>>,
    exit: Block,
)
    requires
        region(before, cursor, now, open),
        from.parent == cursor.parent,
        from.index == cursor.index || from.index >= before[cursor.parent as int].len(),
        open.contains(from.index as int),
        lowered(now, from, next, exit),
        next[exit.parent as int][exit.index as int].is_real(),
    ensures
        region(before, cursor, next, open.remove(from.index as int)),
{
    lemma_region_open(before, cursor, now, open, from);
    lemma_region_step(before, cursor, now, open, from, next, exit);
    lemma_lowered_blocks(now, from, next, exit);
    let moved = open.remove(from.index as int).insert(exit.index as int);
    lemma_region_real(before, cursor, next, moved, exit);
    if exit == from {
        assert(moved.remove(exit.index as int) =~= open.remove(from.index as int));
    } else {
        reveal(lowered);
        reveal(region);
        assert(!open.contains(exit.index as int));
        assert(moved.remove(exit.index as int) =~= open.remove(from.index as int));
    }
}

/// A step inside the step that starts from a new block of its own and
/// leaves the blocks in `inner` open: they are open in the step around it
/// too, and nothing else changes.
pub proof fn lemma_region_nested(
    before: Seq<Seq<TerminalInstruction>>,
    cursor: Block,
    now: Seq<Seq<TerminalInstruction>>,
    open: Set<int>,
    from: Block,
    next: Seq<Seq<TerminalInstruction>>,
    inner: Set<int>,
)
    requires
        region(before, cursor, now, open),
        from.parent == cursor.parent,
        from.index == now[cursor.parent as int].len(),
        region(
            now.update(
                cursor.parent as int,
                now[cursor.parent as int].push(TerminalInstruction::Default),
            ),
            from,
            next,
            inner,
        ),
    ensures
        region(before, cursor, next, open.union(inner)),
        now[cursor.parent as int].len() < next[cursor.parent as int].len(),
        forall|i: int|
            inner.contains(i) ==> now[cursor.parent as int].len() <= i
                < next[cursor.parent as int].len(),
{
    reveal(region);
    let f = cursor.parent as int;
    let c = cursor.index as int;
    let base = now.update(f, now[f].push(TerminalInstruction::Default));
    let both = open.union(inner);
    assert forall|g: int| 0 <= g < before.len() && g != f implies next[g] == before[g] by {
        assert(base[g] == now[g]);
    }
    assert forall|i: int| 0 <= i < before[f].len() && i != c implies next[f][i]
        == before[f][i] by {
        assert(base[f][i] == now[f][i]);
        assert(next[f][i] == base[f][i]);
    }
    assert(next[f][c] == now[f][c]) by {
        assert(base[f][c] == now[f][c]);
        assert(next[f][c] == base[f][c]);
    }
    assert forall|i: int| before[f].len() <= i < next[f].len() implies if both.contains(i) {
        settled(#[trigger] next[f][i])
    } else {
        next[f][i].is_real()
    } by {
        if i < now[f].len() {
            assert(base[f][i] == now[f][i]);
            assert(next[f][i] == base[f][i]);
            assert(if open.contains(i) {
                settled(now[f][i])
            } else {
                now[f][i].is_real()
            });
        } else if i == now[f].len() {
            assert(base[f][i] is Default);
        }
    }
}

/// A step with one block left open, where the cursor is, is `lowered`.
pub proof fn lemma_region_finish(
    before: Seq<Seq<TerminalInstruction>>,
    cursor: Block,
    now: Seq<Seq<TerminalInstruction>>,
    open: Set<int>,
    exit: Block,
)
    requires
        region(before, cursor, now, open),
        forall|i: int| open.contains(i) ==> i == exit.index,
        exit.parent == cursor.parent,
        exit.index < now[cursor.parent as int].len(),
        exit == cursor || exit.index >= before[cursor.parent as int].len(),
        open.contains(exit.index as int) || now[cursor.parent as int][exit.index as int].is_real(),
    ensures
        lowered(before, cursor, now, exit),
{
    reveal(region);
    reveal(lowered);
    let f = cursor.parent as int;
    assert forall|i: int|
        before[f].len() <= i < now[f].len() && i != exit.index implies (
    #[trigger] now[f][i]).is_real() by {
        assert(!open.contains(i));
    }
}

/// What a step outside every function keeps of the terminals: the
/// functions that were there are as they were, and every function that the
/// step added is finished, each of its blocks ending in a real terminal.
pub open spec fn declared(
    before: Seq<Seq<TerminalInstruction>>,
    after: Seq<Seq<TerminalInstruction>>,
) -> bool {
    &&& before.len() <= after.len()
    &&& forall|g: int| 0 <= g < before.len() ==> after[g] == before[g]
    &&& forall|g: int, i: int|
        before.len() <= g < after.len() && 0 <= i < after[g].len() ==> (
        #[trigger] after[g][i]).is_real()
}

/// A function whose body is lowered from its entry block on to a block
/// with a real terminal is finished, and no other function is touched.
pub proof fn lemma_declared_function(
    before: Seq<Seq<TerminalInstruction>>,
    entry: Block,
    after: Seq<Seq<TerminalInstruction>>,
    exit: Block,
)
    requires
        entry.parent == before.len(),
        entry.index == 0,
        lowered(before.push(seq![TerminalInstruction::Default]), entry, after, exit),
        after[exit.parent as int][exit.index as int].is_real(),
    ensures
        declared(before, after),
{
    reveal(lowered);
    let base = before.push(seq![TerminalInstruction::Default]);
    let f = entry.parent as int;
    assert forall|g: int| 0 <= g < before.len() implies after[g] == before[g] by {
        assert(base[g] == before[g]);
    }
    assert forall|g: int, i: int|
        before.len() <= g < after.len() && 0 <= i < after[g].len() implies (
    #[trigger] after[g][i]).is_real() by {
        assert(g == f);
        assert(base[f].len() == 1);
    }
}

/// Where every block ended in a real terminal before functions were
/// declared, every block does so after.
pub proof fn lemma_declared_finished(
    before: Seq<Seq<TerminalInstruction>>,
    after: Seq<Seq<TerminalInstruction>>,
)
    requires
        declared(before, after),
        all_real(before),
    ensures
        all_real(after),
{
    assert forall|g: int, i: int|
        0 <= g < after.len() && 0 <= i < after[g].len() implies (#[trigger] after[g][i]).is_real() by {
        if g < before.len() {
            assert(after[g] == before[g]);
            assert(before[g][i].is_real());
        }
    }
}

} // verus!
