//! The board: a row of buckets, the active bucket, the turn and the players,
//! and the machine that runs a move against them.

use vstd::prelude::*;
use vstd::std_specs::iter::IteratorSpec;
use vstd::string::*;
use crate::bucket::{Bucket, BucketView};
use crate::error::{EvalError, EvalResult};
use crate::player::{valid_roster, Player, Players};
use crate::program::{tokenize, Brainfuck, BrainfuckToken, Command, ProgramView};
use crate::symbols::{symbols, symbols_of};
use crate::text::{decimal, push_decimal};

verus! {

/// What a board holds.
pub struct BoardView {
    /// The buckets, from left to right.
    pub buckets: Seq<BucketView>,
    /// The index of the active bucket.
    pub position: nat,
    /// The number of moves committed so far.
    pub turn: nat,
    /// The players, in the order in which they move.
    pub players: Seq<Player>,
    /// The number of buckets that may stay unlocked when the game is won.
    pub buffer_buckets: nat,
}

impl BoardView {
    /// The board at the start of a game: every bucket empty and unlocked, the
    /// first bucket active, no move made.
    pub open spec fn fresh(
        capacities: Seq<nat>,
        players: Seq<Player>,
        buffer_buckets: nat,
    ) -> BoardView {
        BoardView {
            buckets: Seq::new(capacities.len(), |i: int| BucketView::empty(capacities[i])),
            position: 0,
            turn: 0,
            players,
            buffer_buckets,
        }
    }

    /// There is a bucket, the active bucket is one of them, every bucket is
    /// well formed, and the players can seat a game.
    pub open spec fn wf(self) -> bool {
        &&& self.position < self.buckets.len()
        &&& forall|i: int| 0 <= i < self.buckets.len() ==> (#[trigger] self.buckets[i]).wf()
        &&& valid_roster(self.players)
    }

    /// The capacities of the buckets, from left to right.
    pub open spec fn capacities(self) -> Seq<nat> {
        Seq::new(self.buckets.len(), |i: int| self.buckets[i].capacity)
    }

    /// The player on move.
    pub open spec fn mover(self) -> Player {
        Players::on_move(self.players, self.turn)
    }

    /// The active bucket.
    pub open spec fn active(self) -> BucketView {
        self.buckets[self.position as int]
    }

    /// The board with `bucket` in place of the active bucket.
    pub open spec fn with_active(self, bucket: BucketView) -> BoardView {
        BoardView { buckets: self.buckets.update(self.position as int, bucket), ..self }
    }

    /// The board after `cmd`, and why `cmd` failed if it did. A refused push
    /// or pop and a move left from the first bucket leave the board as it is;
    /// a move right from the last bucket leaves the position behind the last
    /// bucket.
    pub open spec fn exec(self, cmd: Command) -> (BoardView, Option<EvalError>) {
        match cmd {
            Command::Increment => match self.active().push_error(self.position as usize) {
                Some(e) => (self, Some(e)),
                None => (self.with_active(self.active().pushed(self.mover())), None),
            },
            Command::Decrement => match self.active().pop_error(self.position as usize) {
                Some(e) => (self, Some(e)),
                None => (self.with_active(self.active().popped()), None),
            },
            Command::MoveLeft => if self.position == 0 {
                (self, Some(EvalError::UnderBounds))
            } else {
                (BoardView { position: (self.position - 1) as nat, ..self }, None)
            },
            Command::MoveRight => (
                BoardView { position: self.position + 1, ..self },
                if self.position + 1 == self.buckets.len() {
                    Some(EvalError::OverBounds)
                } else {
                    None
                },
            ),
        }
    }

    /// One step of the machine: the board after the instruction `token` at
    /// index `pc`, and the index of the instruction to run next or the error
    /// that stops the run.
    pub open spec fn step(self, token: BrainfuckToken, pc: nat) -> (
        BoardView,
        Result<nat, EvalError>,
    ) {
        match token {
            BrainfuckToken::Command { cmd } => {
                let (after, error) = self.exec(cmd);
                match error {
                    Some(e) => (after, Err(e)),
                    None => (after, Ok(pc + 1)),
                }
            },
            BrainfuckToken::JumpIfZero { target } => (
                self,
                Ok(
                    if self.active().counters.len() == 0 {
                        target as nat
                    } else {
                        pc + 1
                    },
                ),
            ),
            BrainfuckToken::JumpIfNonzero { target } => (
                self,
                Ok(
                    if self.active().counters.len() != 0 {
                        target as nat
                    } else {
                        pc + 1
                    },
                ),
            ),
        }
    }

    /// The board and the pointer after exactly `n` steps from the instruction
    /// at `pc`, if the program neither halts nor fails before they are done.
    pub open spec fn advance(self, tokens: Seq<BrainfuckToken>, pc: nat, n: nat) -> Option<
        (BoardView, nat),
    >
        decreases n,
    {
        if n == 0 {
            Some((self, pc))
        } else if pc >= tokens.len() {
            None
        } else {
            match self.step(tokens[pc as int], pc) {
                (after, Ok(next)) => after.advance(tokens, next, (n - 1) as nat),
                (_, Err(_)) => None,
            }
        }
    }

    /// Runs `tokens` from the instruction at `pc` for at most `budget` steps.
    /// The run halts with success once the pointer is behind the last
    /// instruction; each instruction run costs one step, whichever way it
    /// goes. An instruction that fails stops the run with its error and
    /// leaves the board as that instruction left it. A program that is still
    /// inside its instructions when the budget is used up fails with
    /// `MaxSteps`.
    pub open spec fn run(self, tokens: Seq<BrainfuckToken>, pc: nat, budget: nat) -> (
        BoardView,
        Result<(), EvalError>,
    )
        decreases budget,
    {
        if pc >= tokens.len() {
            (self, Ok(()))
        } else if budget == 0 {
            (self, Err(EvalError::MaxSteps))
        } else {
            match self.step(tokens[pc as int], pc) {
                (after, Ok(next)) => after.run(tokens, next, (budget - 1) as nat),
                (after, Err(e)) => (after, Err(e)),
            }
        }
    }

    /// Running a program changes neither the turn nor the players nor the
    /// number of buffer buckets, however the run ends.
    pub proof fn lemma_run_keeps_turn(self, tokens: Seq<BrainfuckToken>, pc: nat, budget: nat)
        ensures
            self.run(tokens, pc, budget).0.turn == self.turn,
            self.run(tokens, pc, budget).0.players == self.players,
            self.run(tokens, pc, budget).0.buffer_buckets == self.buffer_buckets,
        decreases budget,
    {
        if pc < tokens.len() && budget > 0 {
            let (after, next) = self.step(tokens[pc as int], pc);
            if let Ok(next) = next {
                after.lemma_run_keeps_turn(tokens, next, (budget - 1) as nat);
            }
        }
    }

    /// Whether a program of `len` instructions may be played on this turn:
    /// one instruction on the first turn, and one more on each turn after.
    pub open spec fn admits(self, len: nat) -> bool {
        len <= self.turn + 1
    }

    /// Checks the length of `program` against the turn, then runs it from its
    /// pointer. A program that is too long fails with `Length`, which reports
    /// its length and the length allowed, and the board stays as it is.
    pub open spec fn run_program(self, program: ProgramView, steps: nat) -> (
        BoardView,
        Result<(), EvalError>,
    ) {
        if self.admits(program.tokens.len()) {
            self.run(program.tokens, program.pointer, steps)
        } else {
            (
                self,
                Err(
                    EvalError::Length {
                        len: program.tokens.len() as usize,
                        turn: (self.turn + 1) as usize,
                    },
                ),
            )
        }
    }

    /// Plays the move written by `symbols`: tokenizes it, checks its length
    /// and runs it. If all of that succeeds the board is the one the run left
    /// with one more turn made; if anything fails the board is the one
    /// before the move.
    pub open spec fn eval(self, symbols: Seq<char>, steps: nat) -> (
        BoardView,
        Result<(), EvalError>,
    ) {
        match tokenize(symbols) {
            Err(e) => (self, Err(e)),
            Ok(tokens) => {
                let (after, result) = self.run_program(ProgramView { tokens, pointer: 0 }, steps);
                match result {
                    Ok(()) => (BoardView { turn: after.turn + 1, ..after }, Ok(())),
                    Err(e) => (self, Err(e)),
                }
            },
        }
    }
}

impl BoardView {
    /// The text of the first `n` buckets, one line each: a pointer in front
    /// of the active bucket and two spaces in front of the others, then the
    /// bucket.
    pub open spec fn rendered_rows(self, n: nat) -> Seq<char>
        decreases n,
    {
        if n == 0 {
            Seq::empty()
        } else {
            let i = (n - 1) as nat;
            self.rendered_rows(i) + if i == self.position {
                "> "@
            } else {
                "  "@
            } + self.buckets[i as int].rendered() + "\n"@
        }
    }

    /// The text of the board: a line with the number of the turn, counted
    /// from one, and the player on move, then one line for each bucket.
    pub open spec fn rendered(self) -> Seq<char> {
        "Turn "@ + decimal(self.turn + 1) + " -- "@.push(self.mover().0) + " to move\n"@
            + self.rendered_rows(self.buckets.len())
    }
}

/// The state of a game: the row of buckets, the active bucket, the number of
/// moves made, the players and the number of buffer buckets.
#[derive(Debug)]
pub struct GameBoard {
    buckets: Vec<Bucket>,
    position: usize,
    turn: usize,
    players: Players,
    buffer_buckets: u16,
}

impl View for GameBoard {
    type V = BoardView;

    closed spec fn view(&self) -> BoardView {
        BoardView {
            buckets: Seq::new(self.buckets@.len(), |i: int| self.buckets@[i]@),
            position: self.position as nat,
            turn: self.turn as nat,
            players: self.players@,
            buffer_buckets: self.buffer_buckets as nat,
        }
    }
}

/// The capacities in `capacities`, as numbers.
pub open spec fn as_nats(capacities: Seq<usize>) -> Seq<nat> {
    Seq::new(capacities.len(), |i: int| capacities[i] as nat)
}

/// One empty bucket for each capacity.
fn empty_buckets(capacities: &Vec<usize>) -> (buckets: Vec<Bucket>)
    ensures
        buckets@.len() == capacities@.len(),
        forall|i: int|
            0 <= i < buckets@.len() ==> (#[trigger] buckets@[i])@ == BucketView::empty(
                capacities@[i] as nat,
            ),
{
    let mut buckets: Vec<Bucket> = Vec::new();
    let mut i: usize = 0;
    while i < capacities.len()
        invariant
            i <= capacities@.len(),
            buckets@.len() == i,
            forall|k: int|
                0 <= k < i ==> (#[trigger] buckets@[k])@ == BucketView::empty(
                    capacities@[k] as nat,
                ),
        decreases capacities@.len() - i,
    {
        buckets.push(Bucket::new(capacities[i]));
        i = i + 1;
    }
    buckets
}

impl GameBoard {
    /// See [`BoardView::wf`].
    pub open spec fn wf(&self) -> bool {
        self@.wf()
    }

    /// Creates the board for a new game between `X` and `O`, with one empty
    /// bucket for each capacity.
    pub fn new(capacities: Vec<usize>, buffer_buckets: u16) -> (board: Self)
        requires
            capacities@.len() > 0,
        ensures
            board@ == BoardView::fresh(
                as_nats(capacities@),
                seq![Player('X'), Player('O')],
                buffer_buckets as nat,
            ),
            board.wf(),
    {
        let board = GameBoard {
            buckets: empty_buckets(&capacities),
            position: 0,
            turn: 0,
            players: Players::default(),
            buffer_buckets,
        };
        assert(board@.buckets == BoardView::fresh(
            as_nats(capacities@),
            seq![Player('X'), Player('O')],
            buffer_buckets as nat,
        ).buckets);
        board
    }

    /// Starts the game over: every bucket is emptied and unlocked, the first
    /// bucket is active and no move is made. Capacities, players and buffer
    /// buckets stay.
    pub fn reset(&mut self)
        requires
            old(self).wf(),
        ensures
            final(self)@ == BoardView::fresh(
                old(self)@.capacities(),
                old(self)@.players,
                old(self)@.buffer_buckets,
            ),
            final(self).wf(),
    {
        let mut i: usize = 0;
        while i < self.buckets.len()
            invariant
                i <= self.buckets@.len(),
                self.buckets@.len() == old(self).buckets@.len(),
                self.players == old(self).players,
                self.buffer_buckets == old(self).buffer_buckets,
                forall|k: int|
                    0 <= k < i ==> (#[trigger] self.buckets@[k])@ == BucketView::empty(
                        old(self).buckets@[k]@.capacity,
                    ),
                forall|k: int|
                    i <= k < self.buckets@.len() ==> (#[trigger] self.buckets@[k])@.capacity
                        == old(self).buckets@[k]@.capacity,
            decreases self.buckets@.len() - i,
        {
            self.buckets[i].empty();
            i = i + 1;
        }
        self.position = 0;
        self.turn = 0;
        assert(self@.buckets == BoardView::fresh(
            old(self)@.capacities(),
            old(self)@.players,
            old(self)@.buffer_buckets,
        ).buckets);
    }

    /// Starts the game over on a new row of buckets, one for each capacity.
    /// Players and buffer buckets stay.
    pub fn reset_with(&mut self, capacities: Vec<usize>)
        requires
            old(self).wf(),
            capacities@.len() > 0,
        ensures
            final(self)@ == BoardView::fresh(
                as_nats(capacities@),
                old(self)@.players,
                old(self)@.buffer_buckets,
            ),
            final(self).wf(),
    {
        self.buckets = empty_buckets(&capacities);
        self.position = 0;
        self.turn = 0;
        assert(self@.buckets == BoardView::fresh(
            as_nats(capacities@),
            old(self)@.players,
            old(self)@.buffer_buckets,
        ).buckets);
    }

    /// Seats other players. The buckets, the position and the turn stay.
    pub fn set_players(&mut self, players: Players)
        requires
            old(self).wf(),
            players.wf(),
        ensures
            final(self)@ == (BoardView { players: players@, ..old(self)@ }),
            final(self).wf(),
    {
        self.players = players;
    }

    /// Sets the number of buckets that may stay unlocked when the game is
    /// won.
    pub fn set_buffer_buckets(&mut self, buffer_buckets: u16)
        requires
            old(self).wf(),
        ensures
            final(self)@ == (BoardView { buffer_buckets: buffer_buckets as nat, ..old(self)@ }),
            final(self).wf(),
    {
        self.buffer_buckets = buffer_buckets;
    }

    /// The active bucket.
    pub fn bucket(&self) -> (b: &Bucket)
        requires
            self.wf(),
        ensures
            b@ == self@.active(),
    {
        &self.buckets[self.position]
    }

    /// The active bucket, to be changed in place.
    fn bucket_mut(&mut self) -> (b: &mut Bucket)
        requires
            old(self).wf(),
        ensures
            b@ == old(self)@.active(),
            final(self)@.buckets == old(self)@.with_active(final(b)@).buckets,
            final(self)@ == (BoardView { buckets: final(self)@.buckets, ..old(self)@ }),
    {
        let position = self.position;
        &mut self.buckets[position]
    }

    /// The number of buckets.
    pub fn bucket_count(&self) -> (n: usize)
        ensures
            n == self@.buckets.len(),
    {
        self.buckets.len()
    }

    /// The buckets, from left to right.
    pub fn buckets(&self) -> (b: &Vec<Bucket>)
        ensures
            b@.len() == self@.buckets.len(),
            forall|i: int| 0 <= i < b@.len() ==> (#[trigger] b@[i])@ == self@.buckets[i],
    {
        &self.buckets
    }

    /// An iterator over the buckets, from left to right.
    pub fn iter(&self) -> (it: std::slice::Iter<'_, Bucket>)
        ensures
            IteratorSpec::remaining(&it).len() == self@.buckets.len(),
            forall|i: int|
                0 <= i < self@.buckets.len() ==> (#[trigger] IteratorSpec::remaining(&it)[i])@
                    == self@.buckets[i],
            IteratorSpec::decrease(&it) is Some,
            IteratorSpec::initial_value_relation(&it, &it),
    {
        self.buckets.iter()
    }

    /// The index of the active bucket.
    pub fn position(&self) -> (p: usize)
        ensures
            p == self@.position,
    {
        self.position
    }

    /// The number of moves committed so far.
    pub fn turn(&self) -> (t: usize)
        ensures
            t == self@.turn,
    {
        self.turn
    }

    /// The number of buckets that may stay unlocked when the game is won.
    pub fn buffer_buckets(&self) -> (n: u16)
        ensures
            n == self@.buffer_buckets,
    {
        self.buffer_buckets
    }

    /// The players, in the order in which they move.
    pub fn players(&self) -> (p: &Players)
        ensures
            p@ == self@.players,
    {
        &self.players
    }

    /// The number of players.
    pub fn player_count(&self) -> (n: usize)
        ensures
            n == self@.players.len(),
    {
        self.players.len()
    }

    /// The index of the player on move among the players.
    pub fn player_idx(&self) -> (i: usize)
        requires
            self.wf(),
        ensures
            i == Players::index_for(self@.players, self@.turn),
            i < self@.players.len(),
    {
        self.players.idx(self.turn)
    }

    /// The player on move.
    pub fn player(&self) -> (p: Player)
        requires
            self.wf(),
        ensures
            p == self@.mover(),
    {
        self.players[self.player_idx()]
    }

    /// Adds a counter of the player on move to the active bucket.
    fn incr(&mut self) -> (r: EvalResult<()>)
        requires
            old(self).wf(),
        ensures
            old(self)@.exec(Command::Increment) == (final(self)@, r.err()),
            final(self).wf(),
    {
        let player = self.player();
        let position = self.position;
        let r = self.bucket_mut().push(player, position);
        assert(self@.buckets == old(self)@.exec(Command::Increment).0.buckets);
        r
    }

    /// Removes the last counter from the active bucket.
    fn decr(&mut self) -> (r: EvalResult<()>)
        requires
            old(self).wf(),
        ensures
            old(self)@.exec(Command::Decrement) == (final(self)@, r.err()),
            final(self).wf(),
    {
        let position = self.position;
        let r = self.bucket_mut().pop(position);
        assert(self@.buckets == old(self)@.exec(Command::Decrement).0.buckets);
        r
    }

    /// Makes the bucket to the left the active one, unless the first is.
    fn move_left(&mut self) -> (r: EvalResult<()>)
        requires
            old(self).wf(),
        ensures
            old(self)@.exec(Command::MoveLeft) == (final(self)@, r.err()),
            final(self).wf(),
    {
        if self.position == 0 {
            Err(EvalError::UnderBounds)
        } else {
            self.position = self.position - 1;
            Ok(())
        }
    }

    /// Moves the position one to the right. From the last bucket this fails
    /// and leaves the position behind it.
    fn move_right(&mut self) -> (r: EvalResult<()>)
        requires
            old(self).wf(),
        ensures
            old(self)@.exec(Command::MoveRight) == (final(self)@, r.err()),
            r is Ok ==> final(self).wf(),
    {
        assert(self.position < self.buckets.len());
        self.position = self.position + 1;
        if self.position == self.buckets.len() {
            Err(EvalError::OverBounds)
        } else {
            Ok(())
        }
    }

    /// Passes the turn to the next player.
    fn next_turn(&mut self)
        requires
            old(self)@.turn < usize::MAX,
        ensures
            final(self)@ == (BoardView { turn: old(self)@.turn + 1, ..old(self)@ }),
    {
        self.turn = self.turn + 1;
    }

    /// Runs one command against the board (see [`BoardView::exec`]).
    fn exec(&mut self, cmd: Command) -> (r: EvalResult<()>)
        requires
            old(self).wf(),
        ensures
            old(self)@.exec(cmd) == (final(self)@, r.err()),
            r is Ok ==> final(self).wf(),
    {
        match cmd {
            Command::Increment => self.incr(),
            Command::Decrement => self.decr(),
            Command::MoveLeft => self.move_left(),
            Command::MoveRight => self.move_right(),
        }
    }

    /// Checks the length of `bf` against the turn and runs it for at most
    /// `steps` steps (see [`BoardView::run_program`]). Nothing is undone when
    /// the run fails: the board is left as the failing instruction left it,
    /// which after `OverBounds` has its position behind the last bucket.
    pub fn run(&mut self, bf: Brainfuck, steps: u32) -> (r: EvalResult<()>)
        requires
            old(self).wf(),
            old(self)@.turn < usize::MAX,
        ensures
            old(self)@.run_program(bf@, steps as nat) == (final(self)@, r),
            r is Ok ==> final(self).wf(),
    {
        let mut program = bf;
        let ghost tokens = bf@.tokens;
        let allowed: usize = self.turn + 1;
        if program.len() > allowed {
            return Err(EvalError::Length { len: program.len(), turn: allowed });
        }
        let mut used: u32 = 0;
        while used < steps
            invariant
                self.wf(),
                used <= steps,
                program@.tokens == tokens,
                bf@.tokens == tokens,
                tokens.len() <= usize::MAX,
                old(self)@.admits(tokens.len()),
                old(self)@.run(tokens, bf@.pointer, steps as nat) == self@.run(
                    tokens,
                    program@.pointer,
                    (steps - used) as nat,
                ),
            decreases steps - used,
        {
            match program.read() {
                None => {
                    return Ok(());
                },
                Some(BrainfuckToken::Command { cmd }) => {
                    match self.exec(cmd) {
                        Err(e) => {
                            return Err(e);
                        },
                        Ok(()) => {
                            program.advance();
                        },
                    }
                },
                Some(BrainfuckToken::JumpIfZero { target }) => {
                    if self.bucket().is_empty() {
                        program.jump(target);
                    } else {
                        program.advance();
                    }
                },
                Some(BrainfuckToken::JumpIfNonzero { target }) => {
                    if !self.bucket().is_empty() {
                        program.jump(target);
                    } else {
                        program.advance();
                    }
                },
            }
            used = used + 1;
        }
        if program.read().is_none() {
            Ok(())
        } else {
            Err(EvalError::MaxSteps)
        }
    }

    /// Plays the move written by `symbols` (see [`BoardView::eval`]). The
    /// move counts as a whole: either it commits and the turn passes to the
    /// next player, or it fails and the board is as it was before.
    pub fn eval_symbols(&mut self, symbols: &Vec<char>, steps: u32) -> (r: EvalResult<()>)
        requires
            old(self).wf(),
            old(self)@.turn < usize::MAX,
        ensures
            old(self)@.eval(symbols@, steps as nat) == (final(self)@, r),
            r is Err ==> final(self)@ == old(self)@,
            r is Ok ==> final(self)@.turn == old(self)@.turn + 1,
            final(self).wf(),
    {
        let bf = match Brainfuck::parse(symbols) {
            Ok(bf) => bf,
            Err(e) => {
                return Err(e);
            },
        };
        let backup = self.clone();
        proof {
            self@.lemma_run_keeps_turn(bf@.tokens, bf@.pointer, steps as nat);
        }
        match self.run(bf, steps) {
            Ok(()) => {
                self.next_turn();
                Ok(())
            },
            Err(e) => {
                *self = backup;
                Err(e)
            },
        }
    }

    /// Plays the move written in `str`. White space is skipped; the symbols
    /// that are left are played as [`GameBoard::eval_symbols`] plays them.
    pub fn eval(&mut self, str: &str, steps: u32) -> (r: EvalResult<()>)
        requires
            old(self).wf(),
            old(self)@.turn < usize::MAX,
        ensures
            old(self)@.eval(symbols_of(str@), steps as nat) == (final(self)@, r),
            r is Err ==> final(self)@ == old(self)@,
            r is Ok ==> final(self)@.turn == old(self)@.turn + 1,
            final(self).wf(),
    {
        let symbols = symbols(str);
        self.eval_symbols(&symbols, steps)
    }

    /// Renders the board as text (see [`BoardView::rendered`]).
    pub fn render(&self) -> (s: String)
        requires
            self.wf(),
        ensures
            s@ == self@.rendered(),
    {
        let mut s = String::from_str("Turn ");
        push_decimal(&mut s, self.turn as u128 + 1);
        s.append(" -- ");
        s.push(self.player().symbol());
        s.append(" to move\n");
        let ghost header = s@;
        let mut i: usize = 0;
        while i < self.buckets.len()
            invariant
                i <= self.buckets@.len(),
                self.wf(),
                s@ == header + self@.rendered_rows(i as nat),
            decreases self.buckets@.len() - i,
        {
            if i == self.position {
                s.append("> ");
            } else {
                s.append("  ");
            }
            assert(self.buckets@[i as int]@ == self@.buckets[i as int]);
            let row = self.buckets[i].render();
            s.append(row.as_str());
            s.append("\n");
            i = i + 1;
        }
        s
    }
}

impl Clone for GameBoard {
    /// A board of its own with the same buckets, position, turn, players
    /// and buffer buckets.
    fn clone(&self) -> (board: Self)
        ensures
            board@ == self@,
    {
        let mut buckets: Vec<Bucket> = Vec::new();
        let mut i: usize = 0;
        while i < self.buckets.len()
            invariant
                i <= self.buckets@.len(),
                buckets@.len() == i,
                forall|k: int| 0 <= k < i ==> (#[trigger] buckets@[k])@ == self.buckets@[k]@,
            decreases self.buckets@.len() - i,
        {
            buckets.push(self.buckets[i].clone());
            i = i + 1;
        }
        let board = GameBoard {
            buckets,
            position: self.position,
            turn: self.turn,
            players: self.players.clone(),
            buffer_buckets: self.buffer_buckets,
        };
        assert(board@.buckets == self@.buckets);
        board
    }
}

impl Default for GameBoard {
    /// Five buckets of capacity ten, no buffer bucket, `X` against `O`.
    fn default() -> (board: Self)
        ensures
            board@ == BoardView::fresh(
                Seq::new(5, |i: int| 10nat),
                seq![Player('X'), Player('O')],
                0,
            ),
            board.wf(),
    {
        let mut capacities: Vec<usize> = Vec::new();
        let mut i: usize = 0;
        while i < 5
            invariant
                i <= 5,
                capacities@.len() == i,
                forall|k: int| 0 <= k < i ==> capacities@[k] == 10,
            decreases 5 - i,
        {
            capacities.push(10);
            i = i + 1;
        }
        assert(as_nats(capacities@) == Seq::new(5, |i: int| 10nat));
        GameBoard::new(capacities, 0)
    }
}

} // verus!
