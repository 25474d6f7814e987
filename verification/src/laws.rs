//! What holds of every move: laws of the machine and of the game, proved
//! from the definitions in [`crate::board`].

use vstd::prelude::*;
use crate::board::BoardView;
use crate::bucket::BucketOp;
use crate::error::EvalError;
use crate::program::{tokenize, BrainfuckToken, Command};

verus! {

/// A move counts as a whole. If it fails, the board is exactly the board
/// before the move: every bucket, the position and the turn. If it succeeds,
/// exactly one turn has passed.
pub proof fn lemma_eval_is_atomic(board: BoardView, symbols: Seq<char>, steps: nat)
    ensures
        board.eval(symbols, steps).1 is Err ==> board.eval(symbols, steps).0 == board,
        board.eval(symbols, steps).1 is Ok ==> board.eval(symbols, steps).0.turn == board.turn + 1,
{
    if let Ok(tokens) = tokenize(symbols) {
        if board.admits(tokens.len()) {
            board.lemma_run_keeps_turn(tokens, 0, steps);
        }
    }
}

/// An instruction run on a well-formed board changes neither the number of
/// buckets nor their capacities, and leaves the board well formed unless it
/// fails.
pub proof fn lemma_step_keeps_row(board: BoardView, token: BrainfuckToken, pc: nat)
    requires
        board.wf(),
    ensures
        board.step(token, pc).0.capacities() == board.capacities(),
        board.step(token, pc).1 is Ok ==> board.step(token, pc).0.wf(),
{
    let after = board.step(token, pc).0;
    if board.step(token, pc).1 is Ok {
        assert forall|i: int| 0 <= i < after.buckets.len() implies (#[trigger] after.buckets[
            i
        ]).wf() by {
            if i == board.position {
                if token == (BrainfuckToken::Command { cmd: Command::Increment }) {
                    board.active().lemma_apply_wf(BucketOp::Push(board.mover()));
                }
            }
        }
    }
}

/// A run on a well-formed board changes neither the number of buckets nor
/// their capacities, however it ends, and leaves the board well formed if it
/// succeeds.
pub proof fn lemma_run_keeps_row(
    board: BoardView,
    tokens: Seq<BrainfuckToken>,
    pc: nat,
    budget: nat,
)
    requires
        board.wf(),
    ensures
        board.run(tokens, pc, budget).0.capacities() == board.capacities(),
        board.run(tokens, pc, budget).1 is Ok ==> board.run(tokens, pc, budget).0.wf(),
    decreases budget,
{
    if pc < tokens.len() && budget > 0 {
        lemma_step_keeps_row(board, tokens[pc as int], pc);
        if let (after, Ok(next)) = board.step(tokens[pc as int], pc) {
            lemma_run_keeps_row(after, tokens, next, (budget - 1) as nat);
        }
    }
}

/// A move changes neither the number of buckets nor their capacities nor
/// the players nor the number of buffer buckets, and leaves a well-formed
/// board well formed.
pub proof fn lemma_eval_keeps_setup(board: BoardView, symbols: Seq<char>, steps: nat)
    requires
        board.wf(),
    ensures
        board.eval(symbols, steps).0.wf(),
        board.eval(symbols, steps).0.capacities() == board.capacities(),
        board.eval(symbols, steps).0.buckets.len() == board.buckets.len(),
        board.eval(symbols, steps).0.players == board.players,
        board.eval(symbols, steps).0.buffer_buckets == board.buffer_buckets,
{
    let after = board.eval(symbols, steps).0;
    if let Ok(tokens) = tokenize(symbols) {
        if board.admits(tokens.len()) {
            board.lemma_run_keeps_turn(tokens, 0, steps);
            lemma_run_keeps_row(board, tokens, 0, steps);
            let ran = board.run(tokens, 0, steps).0;
        }
    }
    assert(board.capacities().len() == board.buckets.len());
}

/// A run never fails for the length of the program: that is decided before
/// the first instruction runs.
pub proof fn lemma_run_never_fails_with_length(
    board: BoardView,
    tokens: Seq<BrainfuckToken>,
    pc: nat,
    budget: nat,
)
    ensures
        !(board.run(tokens, pc, budget).1 matches Err(EvalError::Length { .. })),
    decreases budget,
{
    if pc < tokens.len() && budget > 0 {
        if let (after, Ok(next)) = board.step(tokens[pc as int], pc) {
            lemma_run_never_fails_with_length(after, tokens, next, (budget - 1) as nat);
        }
    }
}

/// A program of `k` instructions is accepted on turn `t` exactly if
/// `k <= t + 1`: the first move may hold one instruction, and each turn
/// allows one more. A longer program is rejected with `Length`, which reports
/// `k` and `t + 1`.
pub proof fn lemma_length_law(board: BoardView, symbols: Seq<char>, steps: nat)
    requires
        symbols.len() <= usize::MAX,
        board.turn < usize::MAX,
        tokenize(symbols) is Ok,
    ensures
        board.eval(symbols, steps).1 matches Err(EvalError::Length { .. }) <==> symbols.len()
            > board.turn + 1,
        symbols.len() > board.turn + 1 ==> board.eval(symbols, steps).1 == Err::<(), EvalError>(
            EvalError::Length { len: symbols.len() as usize, turn: (board.turn + 1) as usize },
        ),
{
    let tokens = tokenize(symbols)->Ok_0;
    lemma_run_never_fails_with_length(board, tokens, 0, steps);
}

/// The steps of a run can be taken in two parts.
proof fn lemma_advance_splits(
    board: BoardView,
    tokens: Seq<BrainfuckToken>,
    pc: nat,
    n: nat,
    m: nat,
)
    requires
        n <= m,
        board.advance(tokens, pc, m) is Some,
    ensures
        board.advance(tokens, pc, n) matches Some((middle, at)) && middle.advance(
            tokens,
            at,
            (m - n) as nat,
        ) == board.advance(tokens, pc, m),
    decreases n,
{
    if n > 0 {
        if let (after, Ok(next)) = board.step(tokens[pc as int], pc) {
            lemma_advance_splits(after, tokens, next, (n - 1) as nat, (m - 1) as nat);
        }
    }
}

/// A program that is still inside its instructions after `n` steps, run with
/// a budget of `n`, runs exactly those `n` steps and then fails with
/// `MaxSteps`, leaving the board as the `n` steps left it.
pub proof fn lemma_budget_is_exact(
    board: BoardView,
    tokens: Seq<BrainfuckToken>,
    pc: nat,
    n: nat,
)
    requires
        board.advance(tokens, pc, n) matches Some((_, at)) && at < tokens.len(),
    ensures
        board.advance(tokens, pc, n) matches Some((after, _)) && board.run(tokens, pc, n) == (
            after,
            Err::<(), EvalError>(EvalError::MaxSteps),
        ),
    decreases n,
{
    if n > 0 {
        if let (after, Ok(next)) = board.step(tokens[pc as int], pc) {
            lemma_budget_is_exact(after, tokens, next, (n - 1) as nat);
        }
    }
}

/// A program that is still inside its instructions after `m` steps fails
/// alike with every budget up to `m`: with `MaxSteps`.
pub proof fn lemma_smaller_budget_fails_alike(
    board: BoardView,
    tokens: Seq<BrainfuckToken>,
    pc: nat,
    n: nat,
    m: nat,
)
    requires
        n <= m,
        board.advance(tokens, pc, m) matches Some((_, at)) && at < tokens.len(),
    ensures
        board.run(tokens, pc, n).1 == Err::<(), EvalError>(EvalError::MaxSteps),
        board.run(tokens, pc, m).1 == Err::<(), EvalError>(EvalError::MaxSteps),
{
    lemma_advance_splits(board, tokens, pc, n, m);
    lemma_budget_is_exact(board, tokens, pc, n);
    lemma_budget_is_exact(board, tokens, pc, m);
}

/// With the first bucket active, a move that begins with `<` fails with
/// `UnderBounds`, if it is a program that the turn admits and it is given a
/// step to run.
pub proof fn lemma_left_of_first_bucket(board: BoardView, symbols: Seq<char>, steps: nat)
    requires
        board.position == 0,
        tokenize(symbols) is Ok,
        0 < symbols.len() <= board.turn + 1,
        symbols[0] == '<',
        steps > 0,
    ensures
        board.eval(symbols, steps) == (board, Err::<(), EvalError>(EvalError::UnderBounds)),
{
}

/// On a board of one bucket, a move that begins with `>` fails with
/// `OverBounds`, if it is a program that the turn admits and it is given a
/// step to run.
pub proof fn lemma_right_of_only_bucket(board: BoardView, symbols: Seq<char>, steps: nat)
    requires
        board.wf(),
        board.buckets.len() == 1,
        tokenize(symbols) is Ok,
        0 < symbols.len() <= board.turn + 1,
        symbols[0] == '>',
        steps > 0,
    ensures
        board.eval(symbols, steps) == (board, Err::<(), EvalError>(EvalError::OverBounds)),
{
}

} // verus!
