//! Conditional chains: `if`, any number of `else if`, and `else`.

use vstd::prelude::*;

use crate::block::{Block, TerminalInstruction};
use crate::compiler::compile::{compile_pairs, compile_test, same_function, stepped, CompilationContext, ContextView};
use crate::compiler::control_flow::control_flow::{decides_between, decision, false_target, lemma_bodies_meet, lemma_conditions_branch, lemma_region_stitched, lemma_stitch_arm, lemma_stitch_keeps, lemma_touches_arm, touches, ControlFlow, ElseIfStatement, ElseStatement, IfStatement};
use crate::compiler::steps::{lemma_lowered_blocks, lemma_region_block, lemma_region_grows, lemma_region_nested, lemma_region_open, lemma_region_start, lemma_region_step, lowered, region};
use crate::parser::{Node, Rule};
use crate::types::{MathError, MathErrorView};

verus! {

impl ControlFlow {
    /// The positions of the blocks that the arm leaves open until the chain
    /// is stitched.
    pub open spec fn open_blocks(self) -> Set<int> {
        match self.conditional_block() {
            Some(block) => set![block.index as int, self.body_block().index as int],
            None => set![self.body_block().index as int],
        }
    }

    /// Whether the arm's blocks are among the first `count` blocks of
    /// function `function`, and its condition is a number.
    pub open spec fn within(self, function: usize, count: int) -> bool {
        &&& self.body_block().parent == function
        &&& self.body_block().index < count
        &&& self.conditional_block() matches Some(block) ==> block.parent == function
            && block.index < count && self.conditional_value().unwrap().type_enum.resolved().decides()
    }
}

/// A chain whose arms are compiled and wait to be stitched: its first arm,
/// all of its arms, and the block behind it.
pub struct Chain {
    pub first: IfStatement,
    pub arms: Seq<ControlFlow>,
    pub continued: Block,
}

/// The chain that the arms make which were compiled behind the first arm.
pub open spec fn chain_of(
    armed: (ContextView, Result<Seq<ControlFlow>, MathErrorView>),
    first: IfStatement,
    continued: Block,
) -> (ContextView, Result<Chain, MathErrorView>) {
    match armed.1 {
        Err(error) => (armed.0, Err(error)),
        Ok(arms) => (armed.0, Ok(Chain { first, arms, continued })),
    }
}

/// Whether no block is shared in the chain: the blocks where the bodies of
/// two arms ended are two blocks, so are the blocks where the conditions
/// of two arms ended, and no condition ended where a body did.
pub open spec fn distinct_arms(arms: Seq<ControlFlow>) -> bool {
    forall|j: int, k: int|
        0 <= j < arms.len() && 0 <= k < arms.len() ==> {
            &&& (#[trigger] arms[j]).conditional_block() != Some((#[trigger] arms[k]).body_block())
            &&& j != k ==> arms[j].body_block() != arms[k].body_block()
            &&& j != k && arms[j].conditional_block() is Some ==> arms[j].conditional_block()
                != arms[k].conditional_block()
        }
}

impl ContextView {
    /// The context after an arm behind the first was compiled, and the arm.
    pub open spec fn compile_arm(self, pair: Node) -> (
        ContextView,
        Result<ControlFlow, MathErrorView>,
    )
        decreases pair, 4nat, 0nat,
    {
        match pair.rule {
            Rule::ElseIfStatement => {
                let (after, arm) = self.compile_else_if(pair);
                match arm {
                    Err(error) => (after, Err(error)),
                    Ok(arm) => (after, Ok(ControlFlow::ElseIf(arm))),
                }
            },
            Rule::ElseStatement => {
                let (after, arm) = self.compile_else(pair);
                match arm {
                    Err(error) => (after, Err(error)),
                    Ok(arm) => (after, Ok(ControlFlow::Else(arm))),
                }
            },
            _ => (self, Err(MathErrorView::UnknownSyntaxForm)),
        }
    }

    /// The context after the children of `pair` from `from` on were
    /// compiled as arms of a chain, and the chain: those arms behind the
    /// arms in `chain`.
    pub open spec fn compile_arms(self, pair: Node, from: int, chain: Seq<ControlFlow>) -> (
        ContextView,
        Result<Seq<ControlFlow>, MathErrorView>,
    )
        decreases pair, 5nat, pair.children@.len() - from,
    {
        if 0 <= from < pair.children@.len() {
            let (after, arm) = self.compile_arm(pair.children@[from]);
            match arm {
                Err(error) => (after, Err(error)),
                Ok(arm) => after.compile_arms(pair, from + 1, chain.push(arm)),
            }
        } else {
            (self, Ok(chain))
        }
    }

    /// The context after a conditional chain was compiled, and its first
    /// arm: the arms are compiled, then they are stitched, and the cursor
    /// is left behind the chain.
    pub open spec fn compile_if(self, pair: Node) -> (
        ContextView,
        Result<IfStatement, MathErrorView>,
    )
        decreases pair, 7nat, 0nat,
    {
        let (armed, chain) = self.compile_chain(pair);
        match chain {
            Err(error) => (armed, Err(error)),
            Ok(chain) => (
                armed.with_module(armed.module.stitch(chain.arms, 0, chain.continued)).at(
                    chain.continued,
                ),
                Ok(chain.first),
            ),
        }
    }

    /// The context after the arms of a conditional chain were compiled, and
    /// the chain. The condition of the first arm is lowered from the cursor
    /// on; the block where that ends is split, which gives the block behind
    /// the chain; the body of the first arm and every further arm are
    /// lowered into blocks of their own.
    pub open spec fn compile_chain(self, pair: Node) -> (ContextView, Result<Chain, MathErrorView>)
        decreases pair, 6nat, 0nat,
    {
        if self.current_block is None || pair.children@.len() < 2 {
            (self, Err(MathErrorView::UnknownSyntaxForm))
        } else {
            let (tested, value) = self.compile_test(pair.children@[0]);
            match (value, tested.current_block) {
                (Err(error), _) => (tested, Err(error)),
                (Ok(_), None) => (tested, Err(MathErrorView::UnknownSyntaxForm)),
                (Ok(conditional_value), Some(conditional_block)) => {
                    let f = conditional_block.parent as int;
                    let start_block = tested.module.next_block(f);
                    let with_body = tested.module.with_new_block(f, "if_body"@);
                    let continued = with_body.next_block(f);
                    let split = with_body.with_new_block(
                        f,
                        with_body.block(conditional_block).name + "cont"@,
                    );
                    let (bodied, result) = tested.with_module(split).at(
                        start_block,
                    ).compile_pairs(pair.children@[1], 0);
                    match (result, bodied.current_block) {
                        (Err(error), _) => (bodied, Err(error)),
                        (Ok(_), None) => (bodied, Err(MathErrorView::UnknownSyntaxForm)),
                        (Ok(_), Some(body_block)) => {
                            let first = IfStatement {
                                body_block,
                                conditional_block,
                                conditional_value,
                                start_block,
                            };
                            chain_of(
                                bodied.compile_arms(pair, 2, seq![ControlFlow::If(first)]),
                                first,
                                continued,
                            )
                        },
                    }
                },
            }
        }
    }
}

/// A step that starts from a block of its own and is `lowered` leaves the
/// block open where it ends.
proof fn lemma_region_lowered(
    base: Seq<Seq<TerminalInstruction>>,
    start: Block,
    next: Seq<Seq<TerminalInstruction>>,
    exit: Block,
)
    requires
        start.parent < base.len(),
        start.index < base[start.parent as int].len(),
        lowered(base, start, next, exit),
    ensures
        region(base, start, next, set![exit.index as int]),
{
    lemma_region_start(base, start);
    lemma_region_step(base, start, base, set![start.index as int], start, next, exit);
    assert(set![start.index as int].remove(start.index as int).insert(exit.index as int)
        =~= set![exit.index as int]);
}

impl IfStatement {
    fn compile_arm(context: &mut CompilationContext, pair: &Node) -> (result: Result<
        ControlFlow,
        MathError,
    >)
        requires
            old(context)@.wf(),
        ensures
            final(context)@ == old(context)@.compile_arm(*pair).0,
            match result {
                Ok(arm) => old(context)@.compile_arm(*pair).1 == Ok::<ControlFlow, MathErrorView>(
                    arm,
                ),
                Err(error) => old(context)@.compile_arm(*pair).1 == Err::<
                    ControlFlow,
                    MathErrorView,
                >(error@),
            },
            result matches Ok(arm) ==> {
                &&& old(context)@.current_block matches Some(cursor)
                &&& final(context)@.wf()
                &&& same_function(old(context)@, final(context)@)
                &&& final(context)@.current_block is Some
                &&& arm.entry_block().parent == cursor.parent
                &&& arm.entry_block().index == old(context)@.module.terminals()[cursor.parent as int].len()
                &&& arm.conditional_block() != Some(arm.body_block())
                &&& arm.within(
                    cursor.parent,
                    final(context)@.module.terminals()[cursor.parent as int].len() as int,
                )
                &&& region(
                    old(context)@.module.terminals_with_block(cursor.parent as int),
                    arm.entry_block(),
                    final(context)@.module.terminals(),
                    arm.open_blocks(),
                )
            },
        decreases pair, 4nat, 0nat,
    {
        match pair.rule {
            Rule::ElseIfStatement => match ElseIfStatement::compile(context, pair) {
                Ok(arm) => {
                    proof {
                        let cursor = old(context)@.current_block.unwrap();
                        let base = old(context)@.module.terminals_with_block(cursor.parent as int);
                        let next = context@.module.terminals();
                        lemma_region_open(
                            base,
                            arm.entry_block,
                            next,
                            ControlFlow::ElseIf(arm).open_blocks(),
                            arm.conditional_block,
                        );
                        lemma_region_open(
                            base,
                            arm.entry_block,
                            next,
                            ControlFlow::ElseIf(arm).open_blocks(),
                            arm.body_block,
                        );
                    }
                    Ok(ControlFlow::ElseIf(arm))
                },
                Err(error) => Err(error),
            },
            Rule::ElseStatement => match ElseStatement::compile(context, pair) {
                Ok(arm) => {
                    proof {
                        let cursor = old(context)@.current_block.unwrap();
                        let base = old(context)@.module.terminals_with_block(cursor.parent as int);
                        let next = context@.module.terminals();
                        lemma_lowered_blocks(base, arm.start_block, next, arm.body);
                        lemma_region_lowered(base, arm.start_block, next, arm.body);
                        lemma_region_open(
                            base,
                            arm.start_block,
                            next,
                            ControlFlow::Else(arm).open_blocks(),
                            arm.body,
                        );
                    }
                    Ok(ControlFlow::Else(arm))
                },
                Err(error) => Err(error),
            },
            _ => Err(MathError::UnknownSyntaxForm),
        }
    }

    pub fn compile(context: &mut CompilationContext, pair: &Node) -> (result: Result<
        IfStatement,
        MathError,
    >)
        requires
            old(context)@.wf(),
        ensures
            final(context)@ == old(context)@.compile_if(*pair).0,
            match result {
                Ok(arm) => old(context)@.compile_if(*pair).1 == Ok::<IfStatement, MathErrorView>(
                    arm,
                ),
                Err(error) => old(context)@.compile_if(*pair).1 == Err::<
                    IfStatement,
                    MathErrorView,
                >(error@),
            },
            result is Ok ==> old(context)@.current_block is Some && stepped(
                old(context)@,
                final(context)@,
            ),
            // every body that fell through leads behind the chain, where all
            // of them meet
            result is Ok ==> ({
                let (armed, chain) = old(context)@.compile_chain(*pair);
                &&& chain matches Ok(chain)
                &&& distinct_arms(chain.arms)
                &&& final(context)@.current_block == Some(chain.continued)
                &&& forall|at: int|
                    0 <= at < chain.arms.len() && armed.module.terminal(
                        (#[trigger] chain.arms[at]).body_block(),
                    ) is Default ==> final(context)@.module.terminal(chain.arms[at].body_block())
                        == (TerminalInstruction::Branch { target: chain.continued })
            }),
            // the block where the condition of an arm ended has its two
            // edges: to the body of the arm, and into the next arm or, behind
            // the last arm, behind the chain
            result is Ok ==> ({
                let (armed, chain) = old(context)@.compile_chain(*pair);
                &&& chain matches Ok(chain)
                &&& forall|at: int|
                    0 <= at < chain.arms.len() && (#[trigger] chain.arms[at]).conditional_block()
                        is Some ==> decides_between(
                        final(context)@.module.terminal(
                            chain.arms[at].conditional_block().unwrap(),
                        ),
                        chain.arms[at].start_block(),
                        false_target(chain.arms, at, chain.continued),
                    )
            }),
            // the block where the first condition ended has its two edges: to
            // the body of the first arm, and into the next arm or, where there
            // is none, behind the chain
            result matches Ok(arm) ==> final(context)@.module.terminal(
                arm.conditional_block,
            ) matches TerminalInstruction::ConditionalBranch { target_if_true, target_if_false, .. }
                && target_if_true == arm.start_block && (pair.children@.len() == 2
                ==> Some(target_if_false) == final(context)@.current_block),
            result matches Ok(arm) ==> final(context)@.module.terminal(arm.body_block).is_real(),
        decreases pair, 7nat, 0nat,
    {
        let cursor = match context.current_block {
            Some(cursor) => cursor,
            None => { return Err(MathError::UnknownSyntaxForm); },
        };
        if pair.children.len() < 2 {
            return Err(MathError::UnknownSyntaxForm);
        }
        let ghost f = cursor.parent as int;
        let ghost before = context@.module.terminals();
        let ghost mut now = before;
        let ghost mut open = set![cursor.index as int];
        proof {
            lemma_region_start(before, cursor);
        }
        let conditional_value = match compile_test(context, &pair.children[0]) {
            Ok(value) => value,
            Err(error) => { return Err(error); },
        };
        let tail = match context.current_block {
            Some(tail) => tail,
            None => { return Err(MathError::UnknownSyntaxForm); },
        };
        proof {
            lemma_lowered_blocks(now, cursor, context@.module.terminals(), tail);
            lemma_region_step(before, cursor, now, open, cursor, context@.module.terminals(), tail);
            open = open.remove(cursor.index as int).insert(tail.index as int);
            now = context@.module.terminals();
        }
        // the body block, and the block that control reaches behind the chain
        let body_block = context.module.new_block_at("if_body", tail.parent);
        proof {
            lemma_region_block(before, cursor, now, open, context@.module.terminals());
            open = open.insert(body_block.index as int);
            now = context@.module.terminals();
        }
        let mut continued_block = tail;
        let conditional_block = context.module.split_block_in_place(&mut continued_block);
        proof {
            lemma_region_block(before, cursor, now, open, context@.module.terminals());
            open = open.insert(continued_block.index as int);
            now = context@.module.terminals();
            lemma_region_open(before, cursor, now, open, body_block);
        }

        context.current_block = Some(body_block);
        match compile_pairs(context, &pair.children[1]) {
            Ok(_) => {},
            Err(error) => { return Err(error); },
        }
        let exit = match context.current_block {
            Some(exit) => exit,
            None => { return Err(MathError::UnknownSyntaxForm); },
        };
        let first = IfStatement {
            body_block: exit,
            conditional_block,
            conditional_value,
            start_block: body_block,
        };
        let mut chain: Vec<ControlFlow> = Vec::new();
        chain.push(ControlFlow::If(first));
        proof {
            lemma_lowered_blocks(now, body_block, context@.module.terminals(), exit);
            lemma_region_step(
                before,
                cursor,
                now,
                open,
                body_block,
                context@.module.terminals(),
                exit,
            );
            open = open.remove(body_block.index as int).insert(exit.index as int);
            now = context@.module.terminals();
            lemma_region_open(before, cursor, now, open, exit);
            lemma_region_open(before, cursor, now, open, conditional_block);
            lemma_region_open(before, cursor, now, open, continued_block);
            assert(chain@ =~= seq![ControlFlow::If(first)]);
            assert(chain@.drop_last() =~= Seq::<ControlFlow>::empty());
            assert(conditional_block != exit);
            assert(distinct_arms(chain@));
            assert forall|g: int, k: int| touches(chain@, g, k) == ControlFlow::If(first).touches(
                g,
                k,
            ) by {
                assert(!touches(Seq::<ControlFlow>::empty(), g, k));
            }
        }

        // any else-if and else arms behind the first arm
        let mut i: usize = 2;
        while i < pair.children.len()
            invariant
                2 <= i <= pair.children@.len(),
                f == cursor.parent as int,
                before == old(context)@.module.terminals(),
                old(context)@.current_block == Some(cursor),
                old(context)@.wf(),
                context@.wf(),
                same_function(old(context)@, context@),
                context@.current_block is Some,
                context@.current_block.unwrap().parent == cursor.parent,
                now == context@.module.terminals(),
                region(before, cursor, now, open),
                continued_block.parent == cursor.parent,
                continued_block != cursor,
                continued_block.index < now[f].len(),
                open.contains(continued_block.index as int),
                !touches(chain@, f, continued_block.index as int),
                chain@.len() == i - 1,
                chain@[0] == ControlFlow::If(first),
                conditional_block.parent == cursor.parent,
                conditional_block.index < now[f].len(),
                forall|at: int|
                    1 <= at < chain@.len() ==> !(#[trigger] chain@[at]).touches(
                        f,
                        conditional_block.index as int,
                    ),
                forall|g: int, k: int| #[trigger]
                    touches(chain@, g, k) ==> g == f && 0 <= k < now[f].len() && (k
                        == cursor.index || before[f].len() <= k),
                forall|k: int|
                    open.contains(k) ==> k == continued_block.index || touches(chain@, f, k),
                forall|at: int|
                    0 <= at < chain@.len() ==> (#[trigger] chain@[at]).within(
                        cursor.parent,
                        now[f].len() as int,
                    ),
                old(context)@.compile_chain(*pair) == chain_of(
                    context@.compile_arms(*pair, i as int, chain@),
                    first,
                    continued_block,
                ),
                distinct_arms(chain@),
            decreases pair.children@.len() - i,
        {
            let ghost entered = context@.current_block.unwrap();
            let ghost earlier = chain@;
            let arm = match Self::compile_arm(context, &pair.children[i]) {
                Ok(arm) => arm,
                Err(error) => { return Err(error); },
            };
            chain.push(arm);
            proof {
                let next = context@.module.terminals();
                lemma_region_nested(
                    before,
                    cursor,
                    now,
                    open,
                    arm.entry_block(),
                    next,
                    arm.open_blocks(),
                );
                lemma_region_grows(before, cursor, now, open);
                assert(chain@.drop_last() =~= earlier);
                assert(chain@.last() == arm);
                assert(arm.within(cursor.parent, next[f].len() as int));
                assert forall|g: int, k: int| #[trigger]
                    touches(chain@, g, k) implies g == f && 0 <= k < next[f].len() && (k
                    == cursor.index || before[f].len() <= k) by {
                    if touches(earlier, g, k) {
                    } else {
                        assert(arm.touches(g, k));
                        assert(g == f);
                        assert(arm.open_blocks().contains(k));
                    }
                }
                assert forall|at: int| 0 <= at < chain@.len() implies (#[trigger] chain@[at]).within(
                    cursor.parent,
                    next[f].len() as int,
                ) by {
                    if at < earlier.len() {
                        assert(chain@[at] == earlier[at]);
                        assert(earlier[at].within(cursor.parent, now[f].len() as int));
                    }
                }
                assert forall|k: int| open.union(arm.open_blocks()).contains(k) implies k
                    == continued_block.index || touches(chain@, f, k) by {
                    if arm.open_blocks().contains(k) {
                        assert(arm.touches(f, k));
                    }
                }
                assert(!arm.touches(f, continued_block.index as int)) by {
                    if arm.touches(f, continued_block.index as int) {
                        assert(arm.open_blocks().contains(continued_block.index as int));
                    }
                }
                assert(distinct_arms(chain@)) by {
                    assert forall|j: int, k: int|
                        0 <= j < chain@.len() && 0 <= k < chain@.len() implies {
                        &&& (#[trigger] chain@[j]).conditional_block() != Some(
                            (#[trigger] chain@[k]).body_block(),
                        )
                        &&& j != k ==> chain@[j].body_block() != chain@[k].body_block()
                        &&& j != k && chain@[j].conditional_block() is Some
                            ==> chain@[j].conditional_block() != chain@[k].conditional_block()
                    } by {
                        let last = earlier.len() as int;
                        if j < last {
                            assert(chain@[j] == earlier[j]);
                            assert(earlier[j].within(cursor.parent, now[f].len() as int));
                        }
                        if k < last {
                            assert(chain@[k] == earlier[k]);
                            assert(earlier[k].within(cursor.parent, now[f].len() as int));
                        }
                        if j == last || k == last {
                            assert(arm.open_blocks().contains(arm.body_block().index as int));
                            if arm.conditional_block() is Some {
                                assert(arm.open_blocks().contains(
                                    arm.conditional_block().unwrap().index as int,
                                ));
                            }
                        }
                    }
                }
                assert(!arm.touches(f, conditional_block.index as int)) by {
                    if arm.touches(f, conditional_block.index as int) {
                        assert(arm.open_blocks().contains(conditional_block.index as int));
                    }
                }
                assert forall|at: int| 1 <= at < chain@.len() implies !(#[trigger] chain@[at]).touches(
                    f,
                    conditional_block.index as int,
                ) by {
                    if at < earlier.len() {
                        assert(chain@[at] == earlier[at]);
                    }
                }
                open = open.union(arm.open_blocks());
                now = next;
            }
            i += 1;
        }

        // stitch together the branches of the chain
        proof {
            assert forall|at: int| 0 <= at < chain@.len() implies (#[trigger] chain@[at]).fits(
                context@.module,
            ) by {
                assert(chain@[at].within(cursor.parent, now[f].len() as int));
            }
        }
        let ghost armed = context@.module;
        context.module.stitch(&chain, continued_block);
        proof {
            let arm = chain@[0];
            let if_false = false_target(chain@, 0, continued_block);
            let next = armed.stitch_arm(arm, if_false, continued_block);
            assert(arm.fits(armed));
            lemma_stitch_arm(armed, arm, if_false, continued_block);
            assert(next.terminal(conditional_block) == decision(armed, arm, if_false));
            assert forall|at: int| 1 <= at < chain@.len() implies {
                &&& next.has_block((#[trigger] chain@[at]).body_block())
                &&& chain@[at].conditional_block() matches Some(other) ==> next.has_block(other)
                &&& !chain@[at].touches(
                    conditional_block.parent as int,
                    conditional_block.index as int,
                )
            } by {
                assert(chain@[at].fits(armed));
            }
            lemma_stitch_keeps(next, chain@, 1, continued_block, conditional_block);
            lemma_touches_arm(chain@, 0, f, exit.index as int);
            assert forall|at: int|
                0 <= at < chain@.len() && armed.terminal(
                    (#[trigger] chain@[at]).body_block(),
                ) is Default implies context@.module.terminal(chain@[at].body_block())
                == (TerminalInstruction::Branch { target: continued_block }) by {
                assert forall|k: int| 0 <= k < chain@.len() implies {
                    &&& armed.has_block((#[trigger] chain@[k]).body_block())
                    &&& chain@[k].conditional_block() matches Some(other) ==> armed.has_block(
                        other,
                    )
                    &&& chain@[k].conditional_block() != Some(chain@[at].body_block())
                    &&& k != at ==> chain@[k].body_block() != chain@[at].body_block()
                } by {
                    assert(chain@[k].fits(armed));
                }
                lemma_bodies_meet(armed, chain@, 0, continued_block, at);
            }
            assert forall|at: int|
                0 <= at < chain@.len() && (#[trigger] chain@[at]).conditional_block()
                    is Some implies decides_between(
                context@.module.terminal(chain@[at].conditional_block().unwrap()),
                chain@[at].start_block(),
                false_target(chain@, at, continued_block),
            ) by {
                assert forall|k: int| 0 <= k < chain@.len() implies {
                    &&& armed.has_block((#[trigger] chain@[k]).body_block())
                    &&& chain@[k].conditional_block() matches Some(other) ==> armed.has_block(
                        other,
                    )
                    &&& Some(chain@[k].body_block()) != chain@[at].conditional_block()
                    &&& k != at ==> chain@[k].conditional_block() != chain@[at].conditional_block()
                } by {
                    assert(chain@[k].fits(armed));
                }
                lemma_conditions_branch(armed, chain@, 0, continued_block, at);
            }
            lemma_region_stitched(
                before,
                cursor,
                now,
                open,
                chain@,
                context@.module.terminals(),
                continued_block,
            );
        }
        context.current_block = Some(continued_block);
        proof {
            crate::compiler::steps::lemma_lowered_settled(
                before,
                cursor,
                context@.module.terminals(),
                continued_block,
            );
            lemma_lowered_blocks(before, cursor, context@.module.terminals(), continued_block);
        }
        Ok(first)
    }
}

} // verus!
