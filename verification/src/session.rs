//! A game as it is played in one conversation: the board, the step budget,
//! who sits in which seat, and what is answered to each message.

use vstd::prelude::*;
use vstd::string::*;
use crate::board::{as_nats, BoardView, GameBoard};
use crate::error::{EvalError, EvalResult};
use crate::player::{least_repeated, Player, Players};
use crate::symbols::{symbols, symbols_of};
use crate::text::{decimal, push_decimal};
use crate::laws::lemma_eval_keeps_setup;
use crate::winners::{lemma_decided_game_has_winners, Winners};
use crate::words::{number_of, parse_number, word_is, words, words_of};

verus! {

/// What a session holds.
pub struct SessionView {
    /// The step budget of every move.
    pub steps: nat,
    /// The board.
    pub board: BoardView,
    /// Who sits in which seat: the user at index `i` plays for the player at
    /// index `i`. Seats are taken in the order in which users first write.
    pub player_ids: Seq<u64>,
    /// Whether a game is being played.
    pub active: bool,
}

/// `text` between two fences of three backticks.
pub open spec fn fence(text: Seq<char>) -> Seq<char> {
    "```"@ + text + "```"@
}

/// Whether `word` can name a player: one character that takes one byte.
pub open spec fn names_player(word: Seq<char>) -> bool {
    word.len() == 1 && (word[0] as u32) < 0x80
}

/// The player that `word` names.
pub open spec fn player_named(word: Seq<char>) -> Player {
    Player(word[0])
}

/// The index of the first word from `from` on that writes no capacity, or the
/// number of words if each writes one. A capacity is a number up to 65535.
pub open spec fn first_unread(args: Seq<Seq<char>>, from: int) -> int
    decreases args.len() - from,
{
    if from >= args.len() {
        args.len() as int
    } else if number_of(args[from], 0xffff) is None {
        from
    } else {
        first_unread(args, from + 1)
    }
}

/// What each of `texts` holds.
pub open spec fn texts(replies: Seq<String>) -> Seq<Seq<char>> {
    Seq::new(replies.len(), |i: int| replies[i]@)
}

/// What each of `words` holds.
pub open spec fn spelled(words: Seq<Vec<char>>) -> Seq<Seq<char>> {
    Seq::new(words.len(), |i: int| words[i]@)
}

impl SessionView {
    /// A session before anything was said: a step budget of a million, the
    /// default board, no seat taken, no game on.
    pub open spec fn fresh() -> SessionView {
        SessionView {
            steps: 1_000_000,
            board: BoardView::fresh(
                Seq::new(5, |i: int| 10nat),
                seq![Player('X'), Player('O')],
                0,
            ),
            player_ids: Seq::empty(),
            active: false,
        }
    }

    /// The board is well formed and needs a locked bucket to be decided, and
    /// the step budget fits the machine.
    pub open spec fn wf(self) -> bool {
        &&& self.board.wf()
        &&& self.board.win_bucket_count() > 0
        &&& self.steps <= u32::MAX
    }

    /// The user in the seat of the player on move, if the seat is taken.
    pub open spec fn id(self) -> Option<u64> {
        let seat = Players::index_for(self.board.players, self.board.turn);
        if seat < self.player_ids.len() {
            Some(self.player_ids[seat])
        } else {
            None
        }
    }

    /// The session after the game is called off: no game on, no seat taken,
    /// the board at its start.
    pub open spec fn reset(self) -> SessionView {
        SessionView {
            active: false,
            player_ids: Seq::empty(),
            board: BoardView::fresh(
                self.board.capacities(),
                self.board.players,
                self.board.buffer_buckets,
            ),
            ..self
        }
    }

    /// Plays the move written by `symbols` with the session's step budget,
    /// if a game is on.
    pub open spec fn eval(self, symbols: Seq<char>) -> (
        SessionView,
        Option<Result<(), EvalError>>,
    ) {
        if self.active {
            let (board, result) = self.board.eval(symbols, self.steps);
            (SessionView { board, ..self }, Some(result))
        } else {
            (self, None)
        }
    }

    /// `set players`: each word names one player. A word that names none, a
    /// list of fewer than two and a symbol named twice are refused.
    pub open spec fn set_players(self, args: Seq<Seq<char>>) -> (SessionView, Seq<char>) {
        if exists|i: int| 0 <= i < args.len() && !names_player(#[trigger] args[i]) {
            (self, fence("Each player must be represented by a single character!"@))
        } else if args.len() == 0 {
            (
                self,
                fence(
                    "Configure the players. Specify the characters that will be used to represent each player as a list separated by spaces."@,
                ),
            )
        } else if args.len() == 1 {
            (self, fence("Players could not be updated: must be at least 2."@))
        } else {
            let players = Seq::new(args.len(), |i: int| player_named(args[i]));
            match least_repeated(players) {
                Some(twice) => (
                    self,
                    fence(
                        "Players could not be updated: repeated character "@.push(twice.0)
                            + "."@,
                    ),
                ),
                None => (
                    SessionView { board: BoardView { players, ..self.board }, ..self },
                    fence("Players succesfully updated!"@),
                ),
            }
        }
    }

    /// `set steps`: the first word writes the new step budget.
    pub open spec fn set_steps(self, args: Seq<Seq<char>>) -> (SessionView, Seq<char>) {
        if args.len() == 0 {
            (
                self,
                fence(
                    "Specify the maximum amount of steps a Brainfuck code should run for before halting."@,
                ),
            )
        } else {
            match number_of(args[0], 0xffff_ffff) {
                Some(steps) => (
                    SessionView { steps, ..self },
                    fence("Maximum program steps updated to "@ + decimal(steps) + "."@),
                ),
                None => (self, fence("Step count could not be parsed."@)),
            }
        }
    }

    /// `set board`: each word writes the capacity of one bucket. The words
    /// are read up to the first that writes none, which is answered for; the
    /// capacities read make the new board, for `X` and `O` and with no
    /// buffer bucket, unless there is none.
    pub open spec fn set_board(self, args: Seq<Seq<char>>) -> (SessionView, Seq<Seq<char>>) {
        let read = first_unread(args, 0);
        let complaint = if read < args.len() {
            seq![fence("Could not parse board."@)]
        } else {
            Seq::empty()
        };
        if read == 0 {
            (
                self,
                complaint.push(
                    fence(
                        "Configure the board. Specify the capacities of the buckets as a list separated by spaces."@,
                    ),
                ),
            )
        } else {
            let capacities = Seq::new(read as nat, |i: int| number_of(args[i], 0xffff)->0);
            (
                SessionView {
                    board: BoardView::fresh(capacities, seq![Player('X'), Player('O')], 0),
                    ..self
                },
                complaint.push(fence("Board succesfully updated!"@)),
            )
        }
    }

    /// `play`: starts a game and shows the board, unless a game is on.
    pub open spec fn play(self) -> (SessionView, Seq<char>) {
        if self.active {
            (self, fence("A game is already active!"@))
        } else {
            (SessionView { active: true, ..self }, fence(self.board.rendered()))
        }
    }

    /// `board`: shows the board while a game is on.
    pub open spec fn show(self) -> Seq<char> {
        if self.active {
            fence(self.board.rendered())
        } else {
            fence("No game is currently active!"@)
        }
    }

    /// Whether `author` may move, and the session once they are seated. The
    /// user in the seat of the player on move may; while that seat is free,
    /// a user who has no seat yet takes it.
    pub open spec fn seat(self, author: u64) -> Option<SessionView> {
        match self.id() {
            Some(seated) => if seated == author {
                Some(self)
            } else {
                None
            },
            None => if self.player_ids.contains(author) {
                None
            } else {
                Some(SessionView { player_ids: self.player_ids.push(author), ..self })
            },
        }
    }

    /// A move by `author`. It is played if `author` may move and a game is
    /// on. A move with a character that is no instruction is passed over in
    /// silence; any other failure is answered with its message. After a
    /// move that decides the game the winners and the board are announced
    /// and the game is called off; after any other the board is shown to the
    /// user who moves next.
    pub open spec fn take_move(self, author: u64, symbols: Seq<char>) -> (
        SessionView,
        Seq<Seq<char>>,
    ) {
        match self.seat(author) {
            None => (self, Seq::empty()),
            Some(seated) => {
                let (played, result) = seated.eval(symbols);
                match result {
                    None => (seated, Seq::empty()),
                    Some(Err(EvalError::InvalidChar { .. })) => (seated, Seq::empty()),
                    Some(Err(e)) => (seated, seq![fence("Invalid move: "@ + e.message() + "."@)]),
                    Some(Ok(())) => match played.board.winners() {
                        Some(winners) => (
                            played.reset(),
                            seq![
                                fence(Winners::rendered(winners) + "\n"@ + played.board.rendered()),
                            ],
                        ),
                        None => match played.id() {
                            Some(next) => (
                                played,
                                seq![
                                    "<@"@ + decimal(next as nat) + ">\n```"@
                                        + played.board.rendered() + "```"@,
                                ],
                            ),
                            None => (played, seq![fence(played.board.rendered())]),
                        },
                    },
                }
            },
        }
    }

    /// What a message of `author` does to the session, and the answers to
    /// it in order, given the words and the symbols of the message. The
    /// first word decides: `set` with `players`, `steps` or `board` changes
    /// the settings, `play`, `board` and `reset` start, show and call off a
    /// game, `skip` is the empty move, and anything else is a move written
    /// by the symbols of the whole message. A message without a word does
    /// nothing.
    pub open spec fn dispatch(self, author: u64, words: Seq<Seq<char>>, symbols: Seq<char>) -> (
        SessionView,
        Seq<Seq<char>>,
    ) {
        if words.len() == 0 {
            (self, Seq::empty())
        } else if words[0] == "set"@ {
            if words.len() == 1 {
                (self, Seq::empty())
            } else if words[1] == "players"@ {
                let (after, reply) = self.set_players(words.skip(2));
                (after, seq![reply])
            } else if words[1] == "steps"@ {
                let (after, reply) = self.set_steps(words.skip(2));
                (after, seq![reply])
            } else if words[1] == "board"@ {
                self.set_board(words.skip(2))
            } else {
                (self, Seq::empty())
            }
        } else if words[0] == "play"@ {
            let (after, reply) = self.play();
            (after, seq![reply])
        } else if words[0] == "board"@ {
            (self, seq![self.show()])
        } else if words[0] == "reset"@ {
            (self.reset(), seq![fence("Reset succesful!"@)])
        } else if words[0] == "skip"@ {
            self.take_move(author, Seq::empty())
        } else {
            self.take_move(author, symbols)
        }
    }

    /// What the message `content` of `author` does to the session, and the
    /// answers to it in order (see [`SessionView::dispatch`]).
    pub open spec fn message(self, author: u64, content: Seq<char>) -> (
        SessionView,
        Seq<Seq<char>>,
    ) {
        self.dispatch(author, words_of(content), symbols_of(content))
    }
}

/// The words are read up to `at` if each word before `at` writes a capacity
/// and the word at `at`, if there is one, writes none.
proof fn lemma_first_unread_is(args: Seq<Seq<char>>, from: int, at: int)
    requires
        0 <= from <= at <= args.len(),
        forall|k: int| from <= k < at ==> number_of(#[trigger] args[k], 0xffff) is Some,
        at < args.len() ==> number_of(args[at], 0xffff) is None,
    ensures
        first_unread(args, from) == at,
    decreases at - from,
{
    if from < at {
        lemma_first_unread_is(args, from + 1, at);
    }
}

/// The players that the words behind the first two name, if each names one.
fn named_players(words: &Vec<Vec<char>>) -> (r: Option<Vec<Player>>)
    requires
        words@.len() >= 2,
    ensures
        match r {
            Some(players) => {
                &&& forall|k: int|
                    0 <= k < words@.len() - 2 ==> names_player(
                        #[trigger] spelled(words@).skip(2)[k],
                    )
                &&& players@ == Seq::new(
                    spelled(words@).skip(2).len(),
                    |k: int| player_named(spelled(words@).skip(2)[k]),
                )
            },
            None => exists|k: int|
                0 <= k < spelled(words@).skip(2).len() && !names_player(
                    #[trigger] spelled(words@).skip(2)[k],
                ),
        },
{
    let ghost args = spelled(words@).skip(2);
    let mut players: Vec<Player> = Vec::new();
    let mut i: usize = 2;
    while i < words.len()
        invariant
            2 <= i <= words@.len(),
            args == spelled(words@).skip(2),
            args.len() == words@.len() - 2,
            players@.len() == i - 2,
            forall|k: int| 0 <= k < i - 2 ==> names_player(#[trigger] args[k]),
            forall|k: int| 0 <= k < i - 2 ==> #[trigger] players@[k] == player_named(args[k]),
        decreases words@.len() - i,
    {
        let word = &words[i];
        if word.len() != 1 || word[0] as u32 >= 0x80 {
            assert(!names_player(args[i - 2]));
            return None;
        }
        players.push(Player::new(word[0]));
        i = i + 1;
    }
    Some(players)
}

/// `text` between two fences of three backticks.
fn fenced(text: &str) -> (s: String)
    ensures
        s@ == fence(text@),
{
    let mut s = String::from_str("```");
    s.append(text);
    s.append("```");
    s
}

/// A game as it is played in one conversation: the board, the step budget
/// of its moves, the users in their seats, and whether a game is on.
#[derive(Debug)]
pub struct GameConfig {
    steps: u32,
    board: GameBoard,
    player_ids: Vec<u64>,
    active: bool,
}

impl View for GameConfig {
    type V = SessionView;

    closed spec fn view(&self) -> SessionView {
        SessionView {
            steps: self.steps as nat,
            board: self.board@,
            player_ids: self.player_ids@,
            active: self.active,
        }
    }
}

impl Default for GameConfig {
    /// A session before anything was said (see [`SessionView::fresh`]).
    fn default() -> (cfg: Self)
        ensures
            cfg@ == SessionView::fresh(),
            cfg.wf(),
    {
        GameConfig {
            steps: 1_000_000,
            board: GameBoard::default(),
            player_ids: Vec::new(),
            active: false,
        }
    }
}

impl GameConfig {
    /// See [`SessionView::wf`].
    pub open spec fn wf(&self) -> bool {
        self@.wf()
    }

    /// The step budget of every move.
    pub fn steps(&self) -> (n: u32)
        ensures
            n == self@.steps,
    {
        self.steps
    }

    /// The board.
    pub fn board(&self) -> (board: &GameBoard)
        ensures
            board@ == self@.board,
    {
        &self.board
    }

    /// The users in their seats.
    pub fn player_ids(&self) -> (ids: &Vec<u64>)
        ensures
            ids@ == self@.player_ids,
    {
        &self.player_ids
    }

    /// Whether a game is being played.
    pub fn active(&self) -> (on: bool)
        ensures
            on == self@.active,
    {
        self.active
    }

    /// Plays the move written in `str` with the session's step budget, or
    /// does nothing and returns `None` if no game is on. White space is
    /// skipped (see [`GameConfig::eval_symbols`]).
    pub fn eval(&mut self, str: &str) -> (r: Option<EvalResult<()>>)
        requires
            old(self).wf(),
            old(self)@.board.turn < usize::MAX,
        ensures
            old(self)@.eval(symbols_of(str@)) == (final(self)@, r),
            final(self).wf(),
    {
        let symbols = symbols(str);
        self.eval_symbols(&symbols)
    }

    /// Plays the move written by `symbols` with the session's step budget,
    /// or does nothing and returns `None` if no game is on.
    pub fn eval_symbols(&mut self, symbols: &Vec<char>) -> (r: Option<EvalResult<()>>)
        requires
            old(self).wf(),
            old(self)@.board.turn < usize::MAX,
        ensures
            old(self)@.eval(symbols@) == (final(self)@, r),
            final(self).wf(),
    {
        if self.active {
            proof {
                lemma_eval_keeps_setup(self@.board, symbols@, self@.steps);
            }
            Some(self.board.eval_symbols(symbols, self.steps))
        } else {
            None
        }
    }

    /// Calls the game off: no game is on, no seat is taken and the board is
    /// at its start.
    pub fn reset(&mut self)
        requires
            old(self).wf(),
        ensures
            final(self)@ == old(self)@.reset(),
            final(self).wf(),
    {
        self.active = false;
        self.player_ids = Vec::new();
        self.board.reset();
    }

    /// The winners of the game on the board, once it is decided.
    pub fn winners(&self) -> (w: Option<Winners>)
        ensures
            match self@.board.winners() {
                Some(players) => w matches Some(found) && found@ == players,
                None => w is None,
            },
    {
        self.board.winners()
    }

    /// The user in the seat of the player on move, if the seat is taken.
    pub fn id(&self) -> (user: Option<u64>)
        requires
            self.wf(),
        ensures
            user == self@.id(),
    {
        let seat: usize = self.board.player_idx();
        if seat < self.player_ids.len() {
            Some(self.player_ids[seat])
        } else {
            None
        }
    }

    /// `set players`, with the names behind the first two words.
    fn set_players(&mut self, words: &Vec<Vec<char>>) -> (reply: String)
        requires
            old(self).wf(),
            words@.len() >= 2,
        ensures
            old(self)@.set_players(spelled(words@).skip(2)) == (final(self)@, reply@),
            final(self).wf(),
    {
        let players = match named_players(words) {
            Some(players) => players,
            None => {
                return fenced("Each player must be represented by a single character!");
            },
        };
        if players.len() == 0 {
            fenced(
                "Configure the players. Specify the characters that will be used to represent each player as a list separated by spaces.",
            )
        } else if players.len() == 1 {
            fenced("Players could not be updated: must be at least 2.")
        } else {
            match Players::repeated(&players) {
                Some(twice) => {
                    let mut text = String::from_str(
                        "Players could not be updated: repeated character ",
                    );
                    text.push(twice.symbol());
                    text.append(".");
                    fenced(text.as_str())
                },
                None => {
                    self.board.set_players(Players::new(players));
                    fenced("Players succesfully updated!")
                },
            }
        }
    }

    /// `set steps`, with the budget behind the first two words.
    fn set_steps(&mut self, words: &Vec<Vec<char>>) -> (reply: String)
        requires
            old(self).wf(),
            words@.len() >= 2,
        ensures
            old(self)@.set_steps(spelled(words@).skip(2)) == (final(self)@, reply@),
            final(self).wf(),
    {
        if words.len() == 2 {
            return fenced(
                "Specify the maximum amount of steps a Brainfuck code should run for before halting.",
            );
        }
        match parse_number(&words[2], 0xffff_ffff) {
            Some(steps) => {
                self.steps = steps;
                let mut text = String::from_str("Maximum program steps updated to ");
                push_decimal(&mut text, steps as u128);
                text.append(".");
                fenced(text.as_str())
            },
            None => fenced("Step count could not be parsed."),
        }
    }

    /// `set board`, with the capacities behind the first two words.
    fn set_board(&mut self, words: &Vec<Vec<char>>) -> (replies: Vec<String>)
        requires
            old(self).wf(),
            words@.len() >= 2,
        ensures
            old(self)@.set_board(spelled(words@).skip(2)) == (final(self)@, texts(replies@)),
            final(self).wf(),
    {
        let ghost args = spelled(words@).skip(2);
        let mut replies: Vec<String> = Vec::new();
        let mut capacities: Vec<usize> = Vec::new();
        let mut i: usize = 2;
        let mut clean: bool = true;
        while clean && i < words.len()
            invariant
                2 <= i <= words@.len(),
                args == spelled(words@).skip(2),
                capacities@.len() == i - 2,
                forall|k: int|
                    0 <= k < i - 2 ==> number_of(#[trigger] args[k], 0xffff) == Some(
                        capacities@[k] as nat,
                    ),
                !clean ==> i < words@.len() && number_of(args[i - 2], 0xffff) is None,
            decreases words@.len() - i + if clean { 1nat } else { 0nat },
        {
            match parse_number(&words[i], 0xffff) {
                Some(capacity) => {
                    capacities.push(capacity as usize);
                    i = i + 1;
                },
                None => {
                    clean = false;
                },
            }
        }
        proof {
            lemma_first_unread_is(args, 0, i - 2);
        }
        if !clean {
            replies.push(fenced("Could not parse board."));
        }
        if capacities.len() == 0 {
            replies.push(
                fenced(
                    "Configure the board. Specify the capacities of the buckets as a list separated by spaces.",
                ),
            );
        } else {
            proof {
                assert(as_nats(capacities@) == Seq::new(
                    (i - 2) as nat,
                    |k: int| number_of(args[k], 0xffff)->0,
                ));
            }
            self.board = GameBoard::new(capacities, 0);
            replies.push(fenced("Board succesfully updated!"));
        }
        replies
    }

    /// `play`: starts a game, unless one is on.
    fn play(&mut self) -> (reply: String)
        requires
            old(self).wf(),
        ensures
            old(self)@.play() == (final(self)@, reply@),
            final(self).wf(),
    {
        if self.active {
            fenced("A game is already active!")
        } else {
            self.active = true;
            fenced(self.board.render().as_str())
        }
    }

    /// `board`: shows the board while a game is on.
    fn show(&self) -> (reply: String)
        requires
            self.wf(),
        ensures
            reply@ == self@.show(),
    {
        if self.active {
            fenced(self.board.render().as_str())
        } else {
            fenced("No game is currently active!")
        }
    }

    /// Whether `user` has a seat.
    fn is_seated(&self, user: u64) -> (found: bool)
        ensures
            found == self@.player_ids.contains(user),
    {
        let mut i: usize = 0;
        while i < self.player_ids.len()
            invariant
                i <= self.player_ids@.len(),
                forall|k: int| 0 <= k < i ==> self.player_ids@[k] != user,
            decreases self.player_ids@.len() - i,
        {
            if self.player_ids[i] == user {
                return true;
            }
            i = i + 1;
        }
        false
    }

    /// A move by `author`, written by `symbols` (see
    /// [`SessionView::take_move`]).
    fn take_move(&mut self, author: u64, symbols: &Vec<char>) -> (replies: Vec<String>)
        requires
            old(self).wf(),
            old(self)@.board.turn < usize::MAX,
        ensures
            old(self)@.take_move(author, symbols@) == (final(self)@, texts(replies@)),
            final(self).wf(),
    {
        let mut replies: Vec<String> = Vec::new();
        match self.id() {
            Some(seated) => {
                if seated != author {
                    return replies;
                }
            },
            None => {
                if self.is_seated(author) {
                    return replies;
                }
                self.player_ids.push(author);
            },
        }
        if !self.active {
            return replies;
        }
        proof {
            lemma_eval_keeps_setup(self@.board, symbols@, self@.steps);
        }
        match self.board.eval_symbols(symbols, self.steps) {
            Err(EvalError::InvalidChar { .. }) => {},
            Err(e) => {
                let mut reply = String::from_str("Invalid move: ");
                reply.append(e.render().as_str());
                reply.append(".");
                replies.push(fenced(reply.as_str()));
            },
            Ok(()) => {
                let ghost played = self@;
                match self.board.winners() {
                    Some(winners) => {
                        proof {
                            lemma_decided_game_has_winners(self@.board);
                        }
                        let mut reply = winners.render();
                        reply.append("\n");
                        reply.append(self.board.render().as_str());
                        replies.push(fenced(reply.as_str()));
                        self.reset();
                        assert(texts(replies@) == seq![
                            fence(Winners::rendered(winners@) + "\n"@ + played.board.rendered()),
                        ]);
                    },
                    None => {
                        match self.id() {
                            Some(next) => {
                                let mut reply = String::from_str("<@");
                                push_decimal(&mut reply, next as u128);
                                reply.append(">\n```");
                                reply.append(self.board.render().as_str());
                                reply.append("```");
                                replies.push(reply);
                                assert(texts(replies@) == seq![
                                    "<@"@ + decimal(next as nat) + ">\n```"@
                                        + played.board.rendered() + "```"@,
                                ]);
                            },
                            None => {
                                replies.push(fenced(self.board.render().as_str()));
                            },
                        }
                    },
                }
            },
        }
        replies
    }

    /// Takes a message of `author` and returns the answers to it, in the
    /// order in which they are to be sent. The message is cut into its words
    /// and its symbols, and answered as [`GameConfig::dispatch`] answers
    /// them.
    pub fn message(&mut self, author: u64, content: &str) -> (replies: Vec<String>)
        requires
            old(self).wf(),
            old(self)@.board.turn < usize::MAX,
        ensures
            old(self)@.message(author, content@) == (final(self)@, texts(replies@)),
            final(self).wf(),
    {
        let words = words(content);
        let symbols = symbols(content);
        assert(spelled(words@) == words_of(content@));
        self.dispatch(author, &words, &symbols)
    }

    /// Answers a message of `author`, given its words and its symbols (see
    /// [`SessionView::dispatch`]).
    pub fn dispatch(&mut self, author: u64, words: &Vec<Vec<char>>, symbols: &Vec<char>) -> (replies:
        Vec<String>)
        requires
            old(self).wf(),
            old(self)@.board.turn < usize::MAX,
        ensures
            old(self)@.dispatch(author, spelled(words@), symbols@) == (
                final(self)@,
                texts(replies@),
            ),
            final(self).wf(),
    {
        let mut replies: Vec<String> = Vec::new();
        if words.len() == 0 {
            return replies;
        }
        if word_is(&words[0], "set") {
            if words.len() == 1 {
                return replies;
            }
            if word_is(&words[1], "players") {
                let reply = self.set_players(words);
                replies.push(reply);
            } else if word_is(&words[1], "steps") {
                let reply = self.set_steps(words);
                replies.push(reply);
            } else if word_is(&words[1], "board") {
                return self.set_board(words);
            }
            replies
        } else if word_is(&words[0], "play") {
            let reply = self.play();
            replies.push(reply);
            replies
        } else if word_is(&words[0], "board") {
            let reply = self.show();
            replies.push(reply);
            replies
        } else if word_is(&words[0], "reset") {
            self.reset();
            let reply = fenced("Reset succesful!");
            replies.push(reply);
            replies
        } else if word_is(&words[0], "skip") {
            let nothing: Vec<char> = Vec::new();
            self.take_move(author, &nothing)
        } else {
            self.take_move(author, symbols)
        }
    }
}

} // verus!
