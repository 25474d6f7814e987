//! Programs: the instructions of a move, with brackets resolved into jumps.

use std::collections::VecDeque;
use vstd::prelude::*;
use crate::error::{EvalError, EvalResult};
use crate::symbols::{symbols, symbols_of};

verus! {

/// An instruction that acts on the board.
#[derive(Clone, Copy, Debug, PartialEq, Eq, Structural)]
pub enum Command {
    /// Add a counter of the moving player to the active bucket.
    Increment,
    /// Remove the last counter from the active bucket.
    Decrement,
    /// Make the bucket to the left the active one.
    MoveLeft,
    /// Make the bucket to the right the active one.
    MoveRight,
}

/// One instruction of a program.
#[derive(Clone, Copy, Debug, PartialEq, Eq, Structural)]
pub enum BrainfuckToken {
    /// Run a command, then go on with the next instruction.
    Command { cmd: Command },
    /// Go to `target` if the active bucket is empty, else to the next
    /// instruction. Stands for `[`; `target` is the index of its `]`.
    JumpIfZero { target: usize },
    /// Go to `target` if the active bucket is not empty, else to the next
    /// instruction. Stands for `]`; `target` is the index of its `[`.
    JumpIfNonzero { target: usize },
}

impl From<Command> for BrainfuckToken {
    /// The instruction that runs `cmd`.
    fn from(cmd: Command) -> (token: Self) {
        BrainfuckToken::Command { cmd }
    }
}

impl vstd::std_specs::convert::FromSpecImpl<Command> for BrainfuckToken {
    open spec fn obeys_from_spec() -> bool {
        true
    }

    open spec fn from_spec(cmd: Command) -> BrainfuckToken {
        BrainfuckToken::Command { cmd }
    }
}

/// Whether `c` is one of the six symbols of the language.
pub open spec fn is_instruction(c: char) -> bool {
    c == '+' || c == '-' || c == '<' || c == '>' || c == '[' || c == ']'
}

/// By how much a symbol changes the nesting depth.
pub open spec fn rise(c: char) -> int {
    if c == '[' {
        1
    } else if c == ']' {
        -1
    } else {
        0
    }
}

/// The nesting depth in front of symbol `n`: the number of `[` less the
/// number of `]` among the first `n` symbols.
pub open spec fn depth(s: Seq<char>, n: int) -> int
    decreases n,
{
    if n <= 0 {
        0
    } else {
        depth(s, n - 1) + rise(s[n - 1])
    }
}

/// Symbol `i` cannot be tokenized: it is no instruction, or it is a `]` with
/// no `[` open.
pub open spec fn fault_at(s: Seq<char>, i: int) -> bool {
    !is_instruction(s[i]) || (s[i] == ']' && depth(s, i) <= 0)
}

/// The index of the first symbol from `from` on that cannot be tokenized, or
/// the length of `s` if there is none.
pub open spec fn first_fault(s: Seq<char>, from: int) -> int
    decreases s.len() - from,
{
    if from >= s.len() {
        s.len() as int
    } else if fault_at(s, from) {
        from
    } else {
        first_fault(s, from + 1)
    }
}

/// The least `m` with `from <= m <= s.len()` in front of which the depth is
/// `level`, or `s.len() + 1` if there is none.
pub open spec fn next_at_level(s: Seq<char>, from: int, level: int) -> int
    decreases s.len() + 1 - from,
{
    if from > s.len() {
        from
    } else if depth(s, from) == level {
        from
    } else {
        next_at_level(s, from + 1, level)
    }
}

/// The greatest `i` with `0 <= i < before` in front of which the depth is
/// `level`, or `-1` if there is none.
pub open spec fn prev_at_level(s: Seq<char>, before: int, level: int) -> int
    decreases before,
{
    if before <= 0 {
        -1
    } else if depth(s, before - 1) == level {
        before - 1
    } else {
        prev_at_level(s, before - 1, level)
    }
}

/// The index of the `]` that closes the `[` at `open`: the last symbol before
/// the depth first returns to what it was in front of `open`.
pub open spec fn closer(s: Seq<char>, open: int) -> int {
    next_at_level(s, open + 1, depth(s, open)) - 1
}

/// The index of the `[` that the `]` at `close` closes: the last place before
/// `close` where the depth was what it is behind `close`.
pub open spec fn opener(s: Seq<char>, close: int) -> int {
    prev_at_level(s, close, depth(s, close + 1))
}

/// The index of the first `[` that is never closed: the last place where
/// nothing was open.
pub open spec fn oldest_open(s: Seq<char>) -> int {
    prev_at_level(s, s.len() as int, 0)
}

/// The instruction that symbol `i` of `s` stands for.
pub open spec fn token_at(s: Seq<char>, i: int) -> BrainfuckToken {
    let c = s[i];
    if c == '+' {
        BrainfuckToken::Command { cmd: Command::Increment }
    } else if c == '-' {
        BrainfuckToken::Command { cmd: Command::Decrement }
    } else if c == '<' {
        BrainfuckToken::Command { cmd: Command::MoveLeft }
    } else if c == '>' {
        BrainfuckToken::Command { cmd: Command::MoveRight }
    } else if c == '[' {
        BrainfuckToken::JumpIfZero { target: closer(s, i) as usize }
    } else {
        BrainfuckToken::JumpIfNonzero { target: opener(s, i) as usize }
    }
}

/// The program that the symbols `s` stand for, or why they stand for none.
///
/// The first symbol that cannot be tokenized decides the error:
/// `InvalidChar` if it is no instruction, `MismatchedRight` if it is a `]`
/// with nothing open. If every symbol can be tokenized and a `[` is left
/// open, the error is `MismatchedLeft` with the first `[` that is never
/// closed. Otherwise each symbol gives one instruction, and each bracket
/// jumps to its partner.
pub open spec fn tokenize(s: Seq<char>) -> Result<Seq<BrainfuckToken>, EvalError> {
    let fault = first_fault(s, 0);
    if fault < s.len() {
        if is_instruction(s[fault]) {
            Err(EvalError::MismatchedRight { idx: fault as usize })
        } else {
            Err(EvalError::InvalidChar { c: s[fault], idx: fault as usize })
        }
    } else if depth(s, s.len() as int) > 0 {
        Err(EvalError::MismatchedLeft { idx: oldest_open(s) as usize })
    } else {
        Ok(Seq::new(s.len(), |i: int| token_at(s, i)))
    }
}

/// The instruction at `i` is no jump, or it is a jump whose target lies
/// inside the program and holds the jump back: the target of a `JumpIfZero`
/// at `i` is a `JumpIfNonzero` whose target is `i`, and the other way round.
pub open spec fn paired_at(tokens: Seq<BrainfuckToken>, i: int) -> bool {
    match tokens[i] {
        BrainfuckToken::JumpIfZero { target } => target < tokens.len() && tokens[target as int]
            == (BrainfuckToken::JumpIfNonzero { target: i as usize }),
        BrainfuckToken::JumpIfNonzero { target } => target < tokens.len() && tokens[target as int]
            == (BrainfuckToken::JumpIfZero { target: i as usize }),
        BrainfuckToken::Command { .. } => true,
    }
}

/// Every jump of the program is paired with the jump at its target (see
/// [`paired_at`]).
pub open spec fn well_linked(tokens: Seq<BrainfuckToken>) -> bool {
    forall|i: int| 0 <= i < tokens.len() ==> #[trigger] paired_at(tokens, i)
}

/// Symbol `m` changes the depth by its rise.
proof fn lemma_depth_step(s: Seq<char>, m: int)
    requires
        0 <= m,
    ensures
        depth(s, m + 1) == depth(s, m) + rise(s[m]),
{
}

/// Every symbol before the first fault can be tokenized.
proof fn lemma_no_fault_before(s: Seq<char>, from: int, j: int)
    requires
        0 <= from <= j < first_fault(s, from),
    ensures
        j < s.len(),
        !fault_at(s, j),
    decreases j - from,
{
    if from < j {
        lemma_no_fault_before(s, from + 1, j);
    }
}

/// The first fault is at `at` if no symbol before `at` has a fault and the
/// symbol at `at`, if there is one, has.
proof fn lemma_first_fault_is(s: Seq<char>, from: int, at: int)
    requires
        0 <= from <= at <= s.len(),
        forall|j: int| from <= j < at ==> !fault_at(s, j),
        at < s.len() ==> fault_at(s, at),
    ensures
        first_fault(s, from) == at,
    decreases at - from,
{
    if from < at {
        lemma_first_fault_is(s, from + 1, at);
    }
}

/// Up to the first fault the depth is never negative.
proof fn lemma_depth_nonnegative(s: Seq<char>, m: int)
    requires
        0 <= m <= first_fault(s, 0),
    ensures
        depth(s, m) >= 0,
    decreases m,
{
    if m > 0 {
        lemma_depth_nonnegative(s, m - 1);
        lemma_no_fault_before(s, 0, m - 1);
    }
}

/// What [`next_at_level`] finds is at the level, and nothing before it is.
proof fn lemma_next_found(s: Seq<char>, from: int, level: int)
    requires
        0 <= from,
    ensures
        from <= next_at_level(s, from, level),
        next_at_level(s, from, level) <= s.len() ==> depth(s, next_at_level(s, from, level))
            == level,
        forall|k: int|
            from <= k < next_at_level(s, from, level) && k <= s.len() ==> depth(s, k) != level,
    decreases s.len() + 1 - from,
{
    if from <= s.len() && depth(s, from) != level {
        lemma_next_found(s, from + 1, level);
    }
}

/// The first place at a level is found by [`next_at_level`].
proof fn lemma_next_is(s: Seq<char>, from: int, level: int, m: int)
    requires
        0 <= from <= m <= s.len(),
        depth(s, m) == level,
        forall|k: int| from <= k < m ==> depth(s, k) != level,
    ensures
        next_at_level(s, from, level) == m,
    decreases m - from,
{
    if from < m {
        lemma_next_is(s, from + 1, level, m);
    }
}

/// The depth changes by at most one a symbol, so between a place above a
/// level and a later place at or below it there is a place at the level.
proof fn lemma_next_bound(s: Seq<char>, a: int, b: int, level: int)
    requires
        0 <= a < b <= s.len(),
        depth(s, a) > level,
        depth(s, b) <= level,
    ensures
        next_at_level(s, a, level) <= b,
    decreases b - a,
{
    lemma_depth_step(s, a);
    if depth(s, a + 1) != level {
        lemma_next_bound(s, a + 1, b, level);
    } else {
        assert(next_at_level(s, a + 1, level) == a + 1);
    }
}

/// What [`prev_at_level`] finds is at the level, and nothing behind it is.
proof fn lemma_prev_found(s: Seq<char>, before: int, level: int)
    ensures
        prev_at_level(s, before, level) < before || before <= 0,
        -1 <= prev_at_level(s, before, level),
        prev_at_level(s, before, level) >= 0 ==> depth(s, prev_at_level(s, before, level))
            == level,
        forall|k: int|
            prev_at_level(s, before, level) < k < before && 0 <= k ==> depth(s, k) != level,
    decreases before,
{
    if before > 0 && depth(s, before - 1) != level {
        lemma_prev_found(s, before - 1, level);
    }
}

/// The last place at a level is found by [`prev_at_level`].
proof fn lemma_prev_is(s: Seq<char>, before: int, level: int, i: int)
    requires
        0 <= i < before,
        depth(s, i) == level,
        forall|k: int| i < k < before ==> depth(s, k) != level,
    ensures
        prev_at_level(s, before, level) == i,
    decreases before - i,
{
    if i < before - 1 {
        lemma_prev_is(s, before - 1, level, i);
    }
}

/// Between a place at or below a level and a later place above it there is
/// a place at the level.
proof fn lemma_prev_bound(s: Seq<char>, a: int, b: int, level: int)
    requires
        0 <= a < b,
        depth(s, a) <= level,
        depth(s, b) > level,
    ensures
        prev_at_level(s, b, level) >= a,
    decreases b - a,
{
    lemma_depth_step(s, b - 1);
    if depth(s, b - 1) != level {
        lemma_prev_bound(s, a, b - 1, level);
    }
}

/// Between two places, the depth stays above a level that it starts above
/// and never takes.
proof fn lemma_stays_above(s: Seq<char>, a: int, b: int, level: int)
    requires
        0 <= a <= b,
        depth(s, a) > level,
        forall|k: int| a <= k <= b ==> depth(s, k) != level,
    ensures
        depth(s, b) > level,
    decreases b - a,
{
    if a < b {
        lemma_stays_above(s, a, b - 1, level);
        lemma_depth_step(s, b - 1);
    }
}

/// Backwards from a place, the depth stays above a level that it is above
/// there and never takes before.
proof fn lemma_stayed_above(s: Seq<char>, a: int, b: int, level: int)
    requires
        0 <= a <= b,
        depth(s, b) > level,
        forall|k: int| a <= k <= b ==> depth(s, k) != level,
    ensures
        depth(s, a) > level,
    decreases b - a,
{
    if a < b {
        lemma_stayed_above(s, a + 1, b, level);
        lemma_depth_step(s, a);
    }
}

/// In symbols that can all be tokenized and leave nothing open, the `[` at
/// `i` has a `]` behind it that closes it and that it opens.
proof fn lemma_open_has_partner(s: Seq<char>, i: int)
    requires
        first_fault(s, 0) >= s.len(),
        depth(s, s.len() as int) <= 0,
        0 <= i < s.len(),
        s[i] == '[',
    ensures
        i < closer(s, i) < s.len(),
        s[closer(s, i)] == ']',
        opener(s, closer(s, i)) == i,
{
    let n = s.len() as int;
    let d = depth(s, i);
    lemma_depth_step(s, i);
    lemma_depth_nonnegative(s, i);
    lemma_depth_nonnegative(s, n);
    let m = next_at_level(s, i + 1, d);
    if i + 1 < n {
        lemma_next_bound(s, i + 1, n, d);
    }
    lemma_next_found(s, i + 1, d);
    let j = m - 1;
    assert forall|k: int| i + 1 <= k <= j implies depth(s, k) != d by {}
    lemma_stays_above(s, i + 1, j, d);
    lemma_depth_step(s, j);
    lemma_prev_is(s, j, d, i);
}

/// In symbols that can all be tokenized, the `]` at `j` has a `[` in front
/// of it that it closes and that is closed by it.
proof fn lemma_close_has_partner(s: Seq<char>, j: int)
    requires
        first_fault(s, 0) >= s.len(),
        0 <= j < s.len(),
        s[j] == ']',
    ensures
        0 <= opener(s, j) < j,
        s[opener(s, j)] == '[',
        closer(s, opener(s, j)) == j,
{
    lemma_no_fault_before(s, 0, j);
    lemma_depth_step(s, j);
    let level = depth(s, j + 1);
    let i = prev_at_level(s, j, level);
    lemma_prev_bound(s, 0, j, level);
    lemma_prev_found(s, j, level);
    assert forall|k: int| i + 1 <= k <= j implies depth(s, k) != level by {}
    lemma_stayed_above(s, i + 1, j, level);
    lemma_depth_step(s, i);
    lemma_next_is(s, i + 1, level, j + 1);
}

/// The jumps of every tokenized program are paired: the instruction at the
/// target of a `JumpIfZero` at `i` is the `JumpIfNonzero` with target `i`,
/// and the instruction at the target of a `JumpIfNonzero` at `i` is the
/// `JumpIfZero` with target `i`.
pub proof fn lemma_jump_targets_are_dual(s: Seq<char>)
    requires
        s.len() <= usize::MAX,
        tokenize(s) is Ok,
    ensures
        tokenize(s) matches Ok(tokens) && tokens.len() == s.len() && well_linked(tokens),
{
    let tokens = Seq::new(s.len(), |i: int| token_at(s, i));
    assert forall|i: int| 0 <= i < tokens.len() implies #[trigger] paired_at(tokens, i) by {
        lemma_no_fault_before(s, 0, i);
        if s[i] == '[' {
            lemma_open_has_partner(s, i);
        } else if s[i] == ']' {
            lemma_close_has_partner(s, i);
        }
    }
}

/// What a program holds: its instructions and the index of the next one to
/// run.
pub struct ProgramView {
    pub tokens: Seq<BrainfuckToken>,
    pub pointer: nat,
}

/// A tokenized move: the instructions with their jumps resolved, and the
/// index of the instruction that runs next.
#[derive(Debug)]
pub struct Brainfuck {
    tokens: Vec<BrainfuckToken>,
    pointer: usize,
}

impl View for Brainfuck {
    type V = ProgramView;

    closed spec fn view(&self) -> ProgramView {
        ProgramView { tokens: self.tokens@, pointer: self.pointer as nat }
    }
}

impl Brainfuck {
    /// The jumps are paired (see [`well_linked`]).
    pub open spec fn wf(&self) -> bool {
        well_linked(self@.tokens)
    }

    /// Tokenizes the text of a move. White space is skipped; what is left is
    /// tokenized as [`Brainfuck::parse`] does.
    pub fn new(str: &str) -> (r: EvalResult<Self>)
        ensures
            match tokenize(symbols_of(str@)) {
                Ok(tokens) => r matches Ok(bf) && bf@ == (ProgramView { tokens, pointer: 0 })
                    && bf.wf(),
                Err(e) => r matches Err(f) && f == e,
            },
    {
        let symbols = symbols(str);
        Self::parse(&symbols)
    }

    /// Tokenizes the symbols of a move in one pass from left to right (see
    /// [`tokenize`]). On success the pointer is at the first instruction.
    pub fn parse(symbols: &Vec<char>) -> (r: EvalResult<Self>)
        ensures
            match tokenize(symbols@) {
                Ok(tokens) => r matches Ok(bf) && bf@ == (ProgramView { tokens, pointer: 0 })
                    && bf.wf(),
                Err(e) => r matches Err(f) && f == e,
            },
    {
        let ghost s = symbols@;
        let n: usize = symbols.len();
        let mut pending: VecDeque<usize> = VecDeque::new();
        let mut tokens: Vec<BrainfuckToken> = Vec::new();
        let mut pos: usize = 0;
        while pos < n
            invariant
                s == symbols@,
                n == s.len(),
                pos <= n,
                tokens@.len() == pos,
                forall|j: int| 0 <= j < pos ==> !fault_at(s, j),
                pending@.len() == depth(s, pos as int),
                forall|k: int|
                    0 <= k < pending@.len() ==> {
                        &&& (#[trigger] pending@[k]) < pos
                        &&& s[pending@[k] as int] == '['
                        &&& depth(s, pending@[k] as int) == k
                    },
                forall|k: int, m: int|
                    0 <= k < pending@.len() && (#[trigger] pending@[k]) < m <= pos
                        ==> #[trigger] depth(s, m) > k,
                forall|i: int|
                    0 <= i < pos ==> pending@.contains(i as usize) || #[trigger] tokens@[i]
                        == token_at(s, i),
            decreases n - pos,
        {
            let c: char = symbols[pos];
            let ghost before = pending@;
            proof {
                lemma_depth_step(s, pos as int);
            }
            if c == '+' {
                tokens.push(BrainfuckToken::from(Command::Increment));
            } else if c == '-' {
                tokens.push(BrainfuckToken::from(Command::Decrement));
            } else if c == '<' {
                tokens.push(BrainfuckToken::from(Command::MoveLeft));
            } else if c == '>' {
                tokens.push(BrainfuckToken::from(Command::MoveRight));
            } else if c == '[' {
                tokens.push(BrainfuckToken::JumpIfZero { target: 0 });
                pending.push_back(pos);
                proof {
                    assert(pending@[before.len() as int] == pos);
                    assert forall|i: int| 0 <= i < pos + 1 implies pending@.contains(i as usize)
                        || #[trigger] tokens@[i] == token_at(s, i) by {
                        if i < pos && before.contains(i as usize) {
                            let k = choose|k: int| 0 <= k < before.len() && before[k] == i as usize;
                            assert(pending@[k] == i as usize);
                        }
                    }
                }
            } else if c == ']' {
                match pending.pop_back() {
                    Some(open) => {
                        let ghost level = before.len() - 1;
                        proof {
                            assert forall|k: int| open < k < pos implies depth(s, k) != level by {}
                            lemma_prev_is(s, pos as int, level, open as int);
                            assert forall|k: int| open + 1 <= k < pos + 1 implies depth(s, k)
                                != level by {}
                            lemma_next_is(s, open + 1, level, pos + 1);
                        }
                        tokens.push(BrainfuckToken::JumpIfNonzero { target: open });
                        tokens.set(open, BrainfuckToken::JumpIfZero { target: pos });
                        proof {
                            assert forall|i: int| 0 <= i < pos + 1 implies pending@.contains(
                                i as usize,
                            ) || #[trigger] tokens@[i] == token_at(s, i) by {
                                if i < pos && i != open && before.contains(i as usize) {
                                    let k = choose|k: int|
                                        0 <= k < before.len() && before[k] == i as usize;
                                    assert(pending@[k] == i as usize);
                                }
                            }
                        }
                    },
                    None => {
                        proof {
                            lemma_first_fault_is(s, 0, pos as int);
                        }
                        return Err(EvalError::MismatchedRight { idx: pos });
                    },
                }
            } else {
                proof {
                    lemma_first_fault_is(s, 0, pos as int);
                }
                return Err(EvalError::InvalidChar { c, idx: pos });
            }
            pos = pos + 1;
        }
        proof {
            lemma_first_fault_is(s, 0, n as int);
        }
        match pending.pop_front() {
            Some(open) => {
                proof {
                    assert forall|k: int| open < k < n implies depth(s, k) != 0 by {}
                    lemma_prev_is(s, n as int, 0, open as int);
                }
                Err(EvalError::MismatchedLeft { idx: open })
            },
            None => {
                proof {
                    assert(tokens@ == Seq::new(s.len(), |i: int| token_at(s, i)));
                    lemma_jump_targets_are_dual(s);
                }
                Ok(Brainfuck { tokens, pointer: 0 })
            },
        }
    }

    /// The instructions, in order.
    pub fn tokens(&self) -> (t: &Vec<BrainfuckToken>)
        ensures
            t@ == self@.tokens,
    {
        &self.tokens
    }

    /// The index of the instruction that runs next.
    pub fn pointer(&self) -> (p: usize)
        ensures
            p == self@.pointer,
    {
        self.pointer
    }

    /// The number of instructions.
    pub fn len(&self) -> (n: usize)
        ensures
            n == self@.tokens.len(),
    {
        self.tokens.len()
    }

    /// The instruction at the pointer, or `None` once the pointer is behind
    /// the last instruction.
    pub fn read(&self) -> (t: Option<BrainfuckToken>)
        ensures
            t == if self@.pointer < self@.tokens.len() {
                Some(self@.tokens[self@.pointer as int])
            } else {
                None
            },
    {
        if self.pointer < self.tokens.len() {
            Some(self.tokens[self.pointer])
        } else {
            None
        }
    }

    /// Moves the pointer to the next instruction.
    pub fn advance(&mut self)
        requires
            old(self)@.pointer < usize::MAX,
        ensures
            final(self)@ == (ProgramView { pointer: old(self)@.pointer + 1, ..old(self)@ }),
    {
        self.pointer = self.pointer + 1;
    }

    /// Moves the pointer to `target`.
    pub fn jump(&mut self, target: usize)
        ensures
            final(self)@ == (ProgramView { pointer: target as nat, ..old(self)@ }),
    {
        self.pointer = target;
    }
}

} // verus!
