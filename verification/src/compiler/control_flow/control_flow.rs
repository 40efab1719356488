//! The arms of a conditional chain, and the pass that stitches them
//! together once all of them are compiled.

use vstd::prelude::*;

use crate::block::{Block, TerminalInstruction, Value};
use crate::compiler::steps::{lowered, region};
use crate::layout::lemma_move_keeps_terminals;
use crate::math::lemma_decide_keeps_terminals;
use crate::module::{all_settled, lemma_settled_terminal, lemma_terminal_replaced, settled, Module, ModuleView};

verus! {

/// The first arm of a chain. Its condition is lowered in the block the
/// chain is entered from.
#[derive(Clone, Copy, Debug, PartialEq, Eq, Structural)]
pub struct IfStatement {
    /// The block where the lowering of the body ended.
    pub body_block: Block,
    /// The block where the lowering of the condition ended.
    pub conditional_block: Block,
    pub conditional_value: Value,
    /// The block where the body starts.
    pub start_block: Block,
}

/// An arm with a condition of its own, which is lowered from a block of
/// its own on.
#[derive(Clone, Copy, Debug, PartialEq, Eq, Structural)]
pub struct ElseIfStatement {
    /// The block where the lowering of the body ended.
    pub body_block: Block,
    /// The block where the lowering of the condition ended.
    pub conditional_block: Block,
    pub conditional_value: Value,
    /// The block where the condition starts.
    pub entry_block: Block,
    /// The block where the body starts.
    pub start_block: Block,
}

/// The arm without a condition.
#[derive(Clone, Copy, Debug, PartialEq, Eq, Structural)]
pub struct ElseStatement {
    /// The block where the lowering of the body ended.
    pub body: Block,
    /// The block where the body starts.
    pub start_block: Block,
}

/// One arm of a conditional chain.
#[derive(Clone, Copy, Debug, PartialEq, Eq, Structural)]
pub enum ControlFlow {
    If(IfStatement),
    ElseIf(ElseIfStatement),
    Else(ElseStatement),
}

impl ControlFlow {
    /// The block where the arm's body starts.
    pub open spec fn start_block(self) -> Block {
        match self {
            ControlFlow::If(arm) => arm.start_block,
            ControlFlow::ElseIf(arm) => arm.start_block,
            ControlFlow::Else(arm) => arm.start_block,
        }
    }

    /// The block where the lowering of the arm's body ended.
    pub open spec fn body_block(self) -> Block {
        match self {
            ControlFlow::If(arm) => arm.body_block,
            ControlFlow::ElseIf(arm) => arm.body_block,
            ControlFlow::Else(arm) => arm.body,
        }
    }

    /// The block where the lowering of the arm's condition ended, if the arm
    /// has a condition.
    pub open spec fn conditional_block(self) -> Option<Block> {
        match self {
            ControlFlow::If(arm) => Some(arm.conditional_block),
            ControlFlow::ElseIf(arm) => Some(arm.conditional_block),
            ControlFlow::Else(_) => None,
        }
    }

    pub open spec fn conditional_value(self) -> Option<Value> {
        match self {
            ControlFlow::If(arm) => Some(arm.conditional_value),
            ControlFlow::ElseIf(arm) => Some(arm.conditional_value),
            ControlFlow::Else(_) => None,
        }
    }

    /// The block through which control enters the arm from the arm before:
    /// where its condition starts, or its body where it has no condition.
    pub open spec fn entry_block(self) -> Block {
        match self {
            ControlFlow::If(arm) => arm.conditional_block,
            ControlFlow::ElseIf(arm) => arm.entry_block,
            ControlFlow::Else(arm) => arm.start_block,
        }
    }

    /// Whether the arm's blocks are blocks of the module and its condition
    /// is a number.
    pub open spec fn fits(self, module: ModuleView) -> bool {
        &&& module.has_block(self.body_block())
        &&& self.conditional_block() matches Some(block) ==> module.has_block(block)
            && self.conditional_value().unwrap().type_enum.resolved().decides()
    }

    /// Whether the stitching of the arm writes the terminal of block `i` of
    /// function `g`.
    pub open spec fn touches(self, g: int, i: int) -> bool {
        ||| (self.body_block().parent == g && self.body_block().index == i)
        ||| (self.conditional_block() matches Some(block) && block.parent == g && block.index
            == i)
    }

    pub fn get_start_block(&self) -> (result: Block)
        ensures
            result == self.start_block(),
    {
        match self {
            ControlFlow::If(arm) => arm.start_block,
            ControlFlow::ElseIf(arm) => arm.start_block,
            ControlFlow::Else(arm) => arm.start_block,
        }
    }

    pub fn get_body_block(&self) -> (result: Block)
        ensures
            result == self.body_block(),
    {
        match self {
            ControlFlow::If(arm) => arm.body_block,
            ControlFlow::ElseIf(arm) => arm.body_block,
            ControlFlow::Else(arm) => arm.body,
        }
    }

    pub fn get_conditional_block(&self) -> (result: Option<Block>)
        ensures
            result == self.conditional_block(),
    {
        match self {
            ControlFlow::If(arm) => Some(arm.conditional_block),
            ControlFlow::ElseIf(arm) => Some(arm.conditional_block),
            ControlFlow::Else(_) => None,
        }
    }

    pub fn get_conditional_value(&self) -> (result: Option<Value>)
        ensures
            result == self.conditional_value(),
    {
        match self {
            ControlFlow::If(arm) => Some(arm.conditional_value),
            ControlFlow::ElseIf(arm) => Some(arm.conditional_value),
            ControlFlow::Else(_) => None,
        }
    }

    pub fn get_entry_block(&self) -> (result: Block)
        ensures
            result == self.entry_block(),
    {
        match self {
            ControlFlow::If(arm) => arm.conditional_block,
            ControlFlow::ElseIf(arm) => arm.entry_block,
            ControlFlow::Else(arm) => arm.start_block,
        }
    }
}

/// Where arm `at` of the chain leads if its condition does not hold: into
/// the next arm, or behind the chain if it is the last.
pub open spec fn false_target(chain: Seq<ControlFlow>, at: int, continued: Block) -> Block {
    if at + 1 < chain.len() {
        chain[at + 1].entry_block()
    } else {
        continued
    }
}

/// Whether the stitching of the chain writes the terminal of block `i` of
/// function `g`.
pub open spec fn touches(chain: Seq<ControlFlow>, g: int, i: int) -> bool
    decreases chain.len(),
{
    if chain.len() == 0 {
        false
    } else {
        touches(chain.drop_last(), g, i) || chain.last().touches(g, i)
    }
}

impl ModuleView {
    /// The module after one arm was stitched: an arm with a condition
    /// branches on it, to its own body if it holds and to `if_false` if not;
    /// a body that still carries the placeholder where it ends branches to
    /// `continued`, and any other is left alone; `continued` is written out
    /// behind the body.
    pub open spec fn stitch_arm(self, arm: ControlFlow, if_false: Block, continued: Block) -> ModuleView {
        let branched = match arm.conditional_block() {
            Some(block) => self.add_branch_if_true(
                block,
                arm.conditional_value().unwrap(),
                arm.start_block(),
                if_false,
            ),
            None => self,
        };
        let closed = if branched.terminal(arm.body_block()) is Default {
            branched.with_terminal(
                arm.body_block(),
                TerminalInstruction::Branch { target: continued },
            )
        } else {
            branched
        };
        closed.move_block(continued, arm.body_block(), true)
    }

    /// The module after the arms of the chain from `from` on were stitched,
    /// in one sweep from the first to the last.
    pub open spec fn stitch(self, chain: Seq<ControlFlow>, from: int, continued: Block) -> ModuleView
        decreases chain.len() - from,
    {
        if 0 <= from < chain.len() {
            self.stitch_arm(chain[from], false_target(chain, from, continued), continued).stitch(
                chain,
                from + 1,
                continued,
            )
        } else {
            self
        }
    }
}

/// What the stitching of a chain keeps of the terminals: no block is made
/// or lost, only blocks of the arms are written, and each of those ends in
/// a real terminal if the terminals were settled.
pub open spec fn stitched(
    before: Seq<Seq<TerminalInstruction>>,
    chain: Seq<ControlFlow>,
    after: Seq<Seq<TerminalInstruction>>,
) -> bool {
    &&& after.len() == before.len()
    &&& forall|g: int| 0 <= g < before.len() ==> (#[trigger] after[g]).len() == before[g].len()
    &&& forall|g: int, i: int|
        0 <= g < before.len() && 0 <= i < before[g].len() && !touches(chain, g, i)
            ==> #[trigger] after[g][i] == before[g][i]
    &&& all_settled(before) ==> all_settled(after) && forall|g: int, i: int|
        0 <= g < before.len() && 0 <= i < before[g].len() && touches(chain, g, i) ==> (
        #[trigger] after[g][i]).is_real()
}

impl Module {
    fn stitch_arm(&mut self, arm: ControlFlow, if_false: Block, continued_block: Block)
        requires
            arm.fits(old(self)@),
        ensures
            final(self)@ == old(self)@.stitch_arm(arm, if_false, continued_block),
            stitched(old(self)@.terminals(), seq![arm], final(self)@.terminals()),
            old(self)@.wf() ==> final(self)@.wf(),
    {
        let ghost before = self@.terminals();
        if let Some(conditional_block) = arm.get_conditional_block() {
            let ghost now = self@.terminals();
            self.add_branch_if_true(
                conditional_block,
                arm.get_conditional_value().unwrap(),
                arm.get_start_block(),
                if_false,
            );
            proof {
                if all_settled(now) {
                    lemma_settled_terminal(
                        now,
                        conditional_block,
                        self@.terminal(conditional_block),
                    );
                }
            }
        }
        let body_block = arm.get_body_block();
        let ghost branched = self@.terminals();
        let ghost was_default = self@.terminal(body_block) is Default;
        proof {
            if all_settled(before) {
                assert(all_settled(branched));
                if arm.conditional_block() is Some {
                    let block = arm.conditional_block().unwrap();
                    assert(branched[block.parent as int][block.index as int].is_real());
                }
            }
        }
        if self.has_default_block_terminal(body_block) {
            self.add_branch(body_block, continued_block);
            proof {
                if all_settled(branched) {
                    lemma_settled_terminal(
                        branched,
                        body_block,
                        TerminalInstruction::Branch { target: continued_block },
                    );
                }
            }
        }
        self.move_block_after(continued_block, body_block);
        proof {
            let after = self@.terminals();
            assert(seq![arm].drop_last() =~= Seq::<ControlFlow>::empty());
            assert forall|g: int, i: int|
                0 <= g < before.len() && 0 <= i < before[g].len() implies (touches(seq![arm], g, i)
                == arm.touches(g, i)) by {
                assert(seq![arm].last() == arm);
                assert(!touches(Seq::<ControlFlow>::empty(), g, i));
            }
            if all_settled(before) {
                assert forall|g: int, i: int|
                    0 <= g < before.len() && 0 <= i < before[g].len() && touches(
                        seq![arm],
                        g,
                        i,
                    ) implies (#[trigger] after[g][i]).is_real() by {
                    assert(settled(branched[g][i]));
                    assert(arm.touches(g, i));
                    if body_block.parent == g && body_block.index == i {
                        if was_default {
                            assert(after[g][i] == (TerminalInstruction::Branch {
                                target: continued_block,
                            }));
                        } else {
                            assert(after[g][i] == branched[g][i]);
                        }
                    } else {
                        let block = arm.conditional_block().unwrap();
                        assert(block.parent == g && block.index == i);
                        assert(after[g][i] == branched[g][i]);
                    }
                }
            }
        }
    }

    /// Stitches the arms of a chain together, in one sweep from the first
    /// to the last, with `continued_block` as the block behind the chain.
    pub fn stitch(&mut self, chain: &Vec<ControlFlow>, continued_block: Block)
        requires
            forall|at: int| 0 <= at < chain@.len() ==> (#[trigger] chain@[at]).fits(old(self)@),
        ensures
            final(self)@ == old(self)@.stitch(chain@, 0, continued_block),
            stitched(old(self)@.terminals(), chain@, final(self)@.terminals()),
            old(self)@.wf() ==> final(self)@.wf(),
    {
        let ghost before = self@;
        let mut i: usize = 0;
        proof {
            assert(chain@.take(0) =~= Seq::<ControlFlow>::empty());
        }
        while i < chain.len()
            invariant
                i <= chain@.len(),
                before == old(self)@,
                forall|at: int| 0 <= at < chain@.len() ==> (#[trigger] chain@[at]).fits(before),
                before.stitch(chain@, 0, continued_block) == self@.stitch(
                    chain@,
                    i as int,
                    continued_block,
                ),
                stitched(before.terminals(), chain@.take(i as int), self@.terminals()),
                before.wf() ==> self@.wf(),
            decreases chain@.len() - i,
        {
            let arm = chain[i];
            let if_false = if i + 1 < chain.len() {
                chain[i + 1].get_entry_block()
            } else {
                continued_block
            };
            let ghost now = self@.terminals();
            proof {
                assert(chain@[i as int].fits(before));
                assert(arm.fits(self@));
            }
            self.stitch_arm(arm, if_false, continued_block);
            proof {
                let after = self@.terminals();
                let first = before.terminals();
                let done = chain@.take(i as int);
                let more = chain@.take(i + 1);
                assert(more.drop_last() =~= done);
                assert(more.last() == arm);
                assert(seq![arm].drop_last() =~= Seq::<ControlFlow>::empty());
                assert forall|g: int, k: int| touches(seq![arm], g, k) == arm.touches(g, k) by {
                    assert(seq![arm].last() == arm);
                    assert(!touches(Seq::<ControlFlow>::empty(), g, k));
                }
                assert forall|g: int, k: int|
                    0 <= g < first.len() && 0 <= k < first[g].len() && !touches(
                        more,
                        g,
                        k,
                    ) implies #[trigger] after[g][k] == first[g][k] by {
                    assert(now[g].len() == first[g].len());
                    assert(after[g][k] == now[g][k]);
                    assert(now[g][k] == first[g][k]);
                }
                assert forall|g: int| 0 <= g < first.len() implies (#[trigger] after[g]).len()
                    == first[g].len() by {
                    assert(now[g].len() == first[g].len());
                }
                if all_settled(first) {
                    assert forall|g: int, k: int|
                        0 <= g < first.len() && 0 <= k < first[g].len() && touches(
                            more,
                            g,
                            k,
                        ) implies (#[trigger] after[g][k]).is_real() by {
                        assert(now[g].len() == first[g].len());
                        if arm.touches(g, k) {
                        } else {
                            assert(after[g][k] == now[g][k]);
                            assert(now[g][k].is_real());
                        }
                    }
                }
            }
            i += 1;
        }
        proof {
            assert(chain@.take(i as int) =~= chain@);
        }
    }
}

/// The stitching of a chain writes what the stitching of each of its arms
/// writes.
pub proof fn lemma_touches_arm(chain: Seq<ControlFlow>, at: int, g: int, i: int)
    requires
        0 <= at < chain.len(),
        chain[at].touches(g, i),
    ensures
        touches(chain, g, i),
    decreases chain.len(),
{
    if at < chain.len() - 1 {
        lemma_touches_arm(chain.drop_last(), at, g, i);
    }
}

/// The stitching of a chain ends a step: where all blocks that the step
/// left open are blocks of the chain's arms, but for the block behind the
/// chain, the terminals are `lowered` with the cursor behind the chain.
pub proof fn lemma_region_stitched(
    before: Seq<Seq<TerminalInstruction>>,
    cursor: Block,
    now: Seq<Seq<TerminalInstruction>>,
    open: Set<int>,
    chain: Seq<ControlFlow>,
    next: Seq<Seq<TerminalInstruction>>,
    continued: Block,
)
    requires
        region(before, cursor, now, open),
        all_settled(now),
        stitched(now, chain, next),
        continued.parent == cursor.parent,
        open.contains(continued.index as int),
        continued != cursor,
        !touches(chain, continued.parent as int, continued.index as int),
        forall|g: int, k: int| #[trigger]
            touches(chain, g, k) ==> g == cursor.parent && 0 <= k
                < now[cursor.parent as int].len() && (k == cursor.index
                || before[cursor.parent as int].len() <= k),
        forall|k: int|
            open.contains(k) ==> k == continued.index || touches(chain, cursor.parent as int, k),
    ensures
        lowered(before, cursor, next, continued),
{
    reveal(region);
    reveal(lowered);
    let f = cursor.parent as int;
    let c = cursor.index as int;
    assert forall|g: int| 0 <= g < before.len() && g != f implies next[g] == before[g] by {
        assert(next[g].len() == now[g].len());
        assert forall|k: int| 0 <= k < now[g].len() implies next[g][k] == now[g][k] by {
            assert(!touches(chain, g, k));
        }
        assert(next[g] =~= now[g]);
    }
    assert(next[f].len() == now[f].len());
    assert forall|i: int| 0 <= i < before[f].len() && i != c implies next[f][i]
        == before[f][i] by {
        assert(!touches(chain, f, i));
    }
    assert forall|i: int|
        before[f].len() <= i < next[f].len() && i != continued.index implies (
    #[trigger] next[f][i]).is_real() by {
        if touches(chain, f, i) {
        } else {
            assert(next[f][i] == now[f][i]);
            assert(!open.contains(i));
        }
    }
    if touches(chain, f, c) {
        assert(next[f][c].is_real());
    } else {
        assert(next[f][c] == now[f][c]);
        assert(!open.contains(c));
    }
    assert(next[f][continued.index as int] == now[f][continued.index as int]);
}

/// The condition on which an arm with a condition branches: the arm's
/// value, brought to one bit in the block where the condition ended.
pub open spec fn decision(module: ModuleView, arm: ControlFlow, if_false: Block) -> TerminalInstruction {
    TerminalInstruction::ConditionalBranch {
        condition: module.decide(
            arm.conditional_block().unwrap(),
            arm.conditional_value().unwrap(),
        ).1.value,
        target_if_false: if_false,
        target_if_true: arm.start_block(),
    }
}

/// What the stitching of one arm does to the terminals: the block where
/// the arm's condition ended gets its branch; then the block where its body
/// ended gets a branch behind the chain, if it still carries the
/// placeholder. No other terminal changes.
pub proof fn lemma_stitch_arm(module: ModuleView, arm: ControlFlow, if_false: Block, continued: Block)
    requires
        module.has_block(arm.body_block()),
        arm.conditional_block() matches Some(block) ==> module.has_block(block),
    ensures
        ({
            let after = module.stitch_arm(arm, if_false, continued).terminals();
            let branched = match arm.conditional_block() {
                Some(block) => module.terminals_with(block, decision(module, arm, if_false)),
                None => module.terminals(),
            };
            let body = arm.body_block();
            after == if branched[body.parent as int][body.index as int] is Default {
                branched.update(
                    body.parent as int,
                    branched[body.parent as int].update(
                        body.index as int,
                        TerminalInstruction::Branch { target: continued },
                    ),
                )
            } else {
                branched
            }
        }),
{
    let branched = match arm.conditional_block() {
        Some(block) => module.add_branch_if_true(
            block,
            arm.conditional_value().unwrap(),
            arm.start_block(),
            if_false,
        ),
        None => module,
    };
    match arm.conditional_block() {
        Some(block) => {
            let value = arm.conditional_value().unwrap();
            lemma_decide_keeps_terminals(module, block, value);
            lemma_terminal_replaced(
                module.decide(block, value).0,
                block,
                decision(module, arm, if_false),
            );
        },
        None => {},
    }
    let body = arm.body_block();
    assert(branched.has_block(body));
    lemma_terminal_replaced(branched, body, TerminalInstruction::Branch { target: continued });
    let closed = if branched.terminal(body) is Default {
        branched.with_terminal(body, TerminalInstruction::Branch { target: continued })
    } else {
        branched
    };
    lemma_move_keeps_terminals(closed, continued, body, true);
}

/// A chain of one arm, which is an `if` without `else`: the block where
/// the condition ended has its two edges, to the body and behind the chain;
/// and a body that fell through leads behind the chain, where both edges
/// meet again. A body that ended on its own is left as it ended.
pub proof fn lemma_if_only(module: ModuleView, arm: IfStatement, continued: Block)
    requires
        module.has_block(arm.conditional_block),
        module.has_block(arm.body_block),
        arm.conditional_block != arm.body_block,
    ensures
        ({
            let after = module.stitch(seq![ControlFlow::If(arm)], 0, continued);
            &&& after.terminal(arm.conditional_block) is ConditionalBranch
            &&& after.terminal(arm.conditional_block).successors() == set![
                arm.start_block,
                continued,
            ]
            &&& after.terminal(arm.body_block) == if module.terminal(arm.body_block) is Default {
                TerminalInstruction::Branch { target: continued }
            } else {
                module.terminal(arm.body_block)
            }
        }),
{
    let chain = seq![ControlFlow::If(arm)];
    lemma_stitch_arm(module, chain[0], continued, continued);
    let stitched = module.stitch_arm(chain[0], false_target(chain, 0, continued), continued);
    assert(module.stitch(chain, 0, continued) == stitched.stitch(chain, 1, continued));
    assert(stitched.stitch(chain, 1, continued) == stitched);
}

/// The stitching of the arms from `from` on leaves every block alone that
/// is no block of theirs, and loses no block.
pub proof fn lemma_stitch_keeps(
    module: ModuleView,
    chain: Seq<ControlFlow>,
    from: int,
    continued: Block,
    block: Block,
)
    requires
        0 <= from,
        module.has_block(block),
        forall|at: int|
            from <= at < chain.len() ==> {
                &&& module.has_block((#[trigger] chain[at]).body_block())
                &&& chain[at].conditional_block() matches Some(other) ==> module.has_block(other)
                &&& !chain[at].touches(block.parent as int, block.index as int)
            },
    ensures
        module.stitch(chain, from, continued).has_block(block),
        module.stitch(chain, from, continued).terminal(block) == module.terminal(block),
    decreases chain.len() - from,
{
    if from < chain.len() {
        let arm = chain[from];
        let next = module.stitch_arm(arm, false_target(chain, from, continued), continued);
        lemma_stitch_arm(module, arm, false_target(chain, from, continued), continued);
        assert(!arm.touches(block.parent as int, block.index as int));
        assert forall|at: int| from + 1 <= at < chain.len() implies {
            &&& next.has_block((#[trigger] chain[at]).body_block())
            &&& chain[at].conditional_block() matches Some(other) ==> next.has_block(other)
            &&& !chain[at].touches(block.parent as int, block.index as int)
        } by {
            assert(module.has_block(chain[at].body_block()));
        }
        lemma_stitch_keeps(next, chain, from + 1, continued, block);
    }
}

/// Whether a terminal is a branch on a condition with these two edges.
pub open spec fn decides_between(terminal: TerminalInstruction, if_true: Block, if_false: Block) -> bool {
    terminal matches TerminalInstruction::ConditionalBranch { target_if_true, target_if_false, .. }
        && target_if_true == if_true && target_if_false == if_false
}

/// In a stitched chain every condition has its two edges: the block where
/// the condition of arm `at` ended, if it is no other block of the chain,
/// leads to the body of the arm where the condition holds, and where it
/// does not, into the next arm or, behind the last arm, behind the chain.
pub proof fn lemma_conditions_branch(
    module: ModuleView,
    chain: Seq<ControlFlow>,
    from: int,
    continued: Block,
    at: int,
)
    requires
        0 <= from <= at < chain.len(),
        chain[at].conditional_block() is Some,
        forall|k: int|
            from <= k < chain.len() ==> {
                &&& module.has_block((#[trigger] chain[k]).body_block())
                &&& chain[k].conditional_block() matches Some(other) ==> module.has_block(other)
                &&& Some(chain[k].body_block()) != chain[at].conditional_block()
                &&& k != at ==> chain[k].conditional_block() != chain[at].conditional_block()
            },
    ensures
        decides_between(
            module.stitch(chain, from, continued).terminal(chain[at].conditional_block().unwrap()),
            chain[at].start_block(),
            false_target(chain, at, continued),
        ),
    decreases chain.len() - from,
{
    let arm = chain[from];
    let block = chain[at].conditional_block().unwrap();
    let if_false = false_target(chain, from, continued);
    let next = module.stitch_arm(arm, if_false, continued);
    lemma_stitch_arm(module, arm, if_false, continued);
    assert(module.has_block(chain[at].body_block()));
    assert forall|k: int| from + 1 <= k < chain.len() implies {
        &&& next.has_block((#[trigger] chain[k]).body_block())
        &&& chain[k].conditional_block() matches Some(other) ==> next.has_block(other)
    } by {
        assert(module.has_block(chain[k].body_block()));
    }
    if from == at {
        assert(next.terminal(block) == decision(module, arm, if_false));
        assert forall|k: int| from + 1 <= k < chain.len() implies !(#[trigger] chain[k]).touches(
            block.parent as int,
            block.index as int,
        ) by {
            assert(chain[k].conditional_block() != Some(block));
        }
        lemma_stitch_keeps(next, chain, from + 1, continued, block);
    } else {
        lemma_conditions_branch(next, chain, from + 1, continued, at);
    }
}

/// In a stitched chain every body that fell through leads behind the
/// chain: the block where the body of arm `at` ended, if it carried the
/// placeholder and is no other block of the chain, ends in a branch to the
/// one block behind the chain.
pub proof fn lemma_bodies_meet(
    module: ModuleView,
    chain: Seq<ControlFlow>,
    from: int,
    continued: Block,
    at: int,
)
    requires
        0 <= from <= at < chain.len(),
        forall|k: int|
            from <= k < chain.len() ==> {
                &&& module.has_block((#[trigger] chain[k]).body_block())
                &&& chain[k].conditional_block() matches Some(other) ==> module.has_block(other)
                &&& chain[k].conditional_block() != Some(chain[at].body_block())
                &&& k != at ==> chain[k].body_block() != chain[at].body_block()
            },
        module.terminal(chain[at].body_block()) is Default,
    ensures
        module.stitch(chain, from, continued).terminal(chain[at].body_block())
            == (TerminalInstruction::Branch { target: continued }),
    decreases chain.len() - from,
{
    let arm = chain[from];
    let body = chain[at].body_block();
    let next = module.stitch_arm(arm, false_target(chain, from, continued), continued);
    lemma_stitch_arm(module, arm, false_target(chain, from, continued), continued);
    assert forall|k: int| from + 1 <= k < chain.len() implies {
        &&& next.has_block((#[trigger] chain[k]).body_block())
        &&& chain[k].conditional_block() matches Some(other) ==> next.has_block(other)
    } by {
        assert(module.has_block(chain[k].body_block()));
    }
    if from == at {
        assert(next.terminal(body) == (TerminalInstruction::Branch { target: continued }));
        assert forall|k: int| from + 1 <= k < chain.len() implies !(#[trigger] chain[k]).touches(
            body.parent as int,
            body.index as int,
        ) by {
            assert(chain[k].body_block() != body);
        }
        lemma_stitch_keeps(next, chain, from + 1, continued, body);
    } else {
        assert(chain[from].body_block() != body);
        assert(next.terminal(body) is Default);
        lemma_bodies_meet(next, chain, from + 1, continued, at);
    }
}

} // verus!
