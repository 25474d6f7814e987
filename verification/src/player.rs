//! Players and the cyclic order in which they move.

use vstd::prelude::*;

verus! {

/// A participant in the game, identified by a single symbol. Two players are
/// the same player exactly when their symbols are equal.
#[derive(Clone, Copy, Debug, PartialEq, Eq, Structural, Hash, PartialOrd, Ord)]
pub struct Player(pub char);

impl Player {
    /// Creates the player shown as `c`.
    pub fn new(c: char) -> (p: Self)
        ensures
            p == Player(c),
    {
        Player(c)
    }

    /// The code point of the player's symbol, by which players are ordered.
    pub open spec fn code(self) -> int {
        self.0 as int
    }

    /// The symbol that stands for this player.
    pub fn symbol(&self) -> (c: char)
        ensures
            c == self.0,
    {
        self.0
    }
}

impl Default for Player {
    /// The player whose symbol is the null character.
    fn default() -> (p: Self)
        ensures
            p == Player('\0'),
    {
        Player('\0')
    }
}

/// A list of symbols can seat a game: at least two players, no symbol twice.
pub open spec fn valid_roster(players: Seq<Player>) -> bool {
    players.len() >= 2 && players.no_duplicates()
}

/// `p` occurs at two different places of `players`.
pub open spec fn repeated_in(players: Seq<Player>, p: Player) -> bool {
    exists|i: int, j: int|
        0 <= i < j < players.len() && #[trigger] players[i] == p && #[trigger] players[j] == p
}

/// `p` is the least of the symbols that `players` holds more than once.
pub open spec fn least_repeated_in(players: Seq<Player>, p: Player) -> bool {
    repeated_in(players, p) && forall|q: Player| repeated_in(players, q) ==> p.code() <= q.code()
}

/// The least symbol that `players` holds more than once, if there is one.
pub open spec fn least_repeated(players: Seq<Player>) -> Option<Player> {
    if players.no_duplicates() {
        None
    } else {
        Some(choose|p: Player| least_repeated_in(players, p))
    }
}

/// The players of a game, in the cyclic order in which they move.
#[derive(Debug)]
pub struct Players(Vec<Player>);

impl View for Players {
    type V = Seq<Player>;

    closed spec fn view(&self) -> Seq<Player> {
        self.0@
    }
}

impl Players {
    /// The list seats a game (see [`valid_roster`]).
    pub open spec fn wf(&self) -> bool {
        valid_roster(self@)
    }

    /// The index of the player on move at `turn`.
    pub open spec fn index_for(players: Seq<Player>, turn: nat) -> int {
        turn as int % players.len() as int
    }

    /// The player on move at `turn`.
    pub open spec fn on_move(players: Seq<Player>, turn: nat) -> Player {
        players[Self::index_for(players, turn)]
    }

    /// Seats `players` in the given order.
    pub fn new(players: Vec<Player>) -> (r: Self)
        requires
            valid_roster(players@),
        ensures
            r@ == players@,
            r.wf(),
    {
        Players(players)
    }

    /// Whether `players` can be handed to [`Players::new`].
    pub fn is_valid_roster(players: &Vec<Player>) -> (ok: bool)
        ensures
            ok == valid_roster(players@),
    {
        players.len() >= 2 && Self::repeated(players).is_none()
    }

    /// The least symbol that `players` holds more than once, if there is one.
    pub fn repeated(players: &Vec<Player>) -> (r: Option<Player>)
        ensures
            r == least_repeated(players@),
            r matches Some(p) ==> least_repeated_in(players@, p),
    {
        let n: usize = players.len();
        let mut least: Option<Player> = None;
        let mut i: usize = 0;
        while i < n
            invariant
                i <= n,
                n == players@.len(),
                least matches Some(p) ==> repeated_in(players@, p),
                forall|a: int, b: int|
                    0 <= a < i && a < b < n && #[trigger] players@[a] == #[trigger] players@[b]
                        ==> (least matches Some(p) && p.code() <= players@[a].code()),
            decreases n - i,
        {
            let p: Player = players[i];
            let mut j: usize = i + 1;
            let mut twice: bool = false;
            while j < n
                invariant
                    i < j <= n,
                    n == players@.len(),
                    p == players@[i as int],
                    twice <==> exists|b: int| i < b < j && #[trigger] players@[b] == p,
                decreases n - j,
            {
                if players[j] == p {
                    twice = true;
                }
                j = j + 1;
            }
            if twice {
                let smaller: bool = match least {
                    Some(q) => (p.0 as u32) < (q.0 as u32),
                    None => true,
                };
                if smaller {
                    least = Some(p);
                }
            }
            i = i + 1;
        }
        proof {
            if least is None {
                assert forall|a: int, b: int|
                    0 <= a < n && 0 <= b < n && a != b implies players@[a] != players@[b] by {}
            } else {
                assert(least_repeated_in(players@, least->0));
            }
        }
        least
    }

    /// The number of players.
    pub fn len(&self) -> (n: usize)
        ensures
            n == self@.len(),
    {
        self.0.len()
    }

    /// The index of the player on move at `turn`: the players take turns in
    /// order, and the first follows the last.
    pub fn idx(&self, turn: usize) -> (i: usize)
        requires
            self.wf(),
        ensures
            i == Self::index_for(self@, turn as nat),
            i < self@.len(),
    {
        turn % self.0.len()
    }

    /// The player on move at `turn`.
    pub fn symbol_at(&self, turn: usize) -> (p: Player)
        requires
            self.wf(),
        ensures
            p == Self::on_move(self@, turn as nat),
    {
        self[self.idx(turn)]
    }
}

impl std::ops::Index<usize> for Players {
    type Output = Player;

    /// The player at `index`.
    fn index(&self, index: usize) -> (p: &Player)
        ensures
            *p == self@[index as int],
    {
        &self.0[index]
    }
}

impl vstd::std_specs::core::IndexSpecImpl<usize> for Players {
    open spec fn index_req(&self, index: &usize) -> bool {
        *index < self@.len()
    }
}

impl Clone for Players {
    /// The same players in the same order.
    fn clone(&self) -> (r: Self)
        ensures
            r@ == self@,
    {
        let mut copy: Vec<Player> = Vec::new();
        let mut i: usize = 0;
        while i < self.0.len()
            invariant
                i <= self.0.len(),
                copy@ == self.0@.take(i as int),
            decreases self.0.len() - i,
        {
            copy.push(self.0[i]);
            i = i + 1;
        }
        Players(copy)
    }
}

impl Default for Players {
    /// Two players, `X` and then `O`.
    fn default() -> (r: Self)
        ensures
            r@ == seq![Player('X'), Player('O')],
            r.wf(),
    {
        let mut players: Vec<Player> = Vec::new();
        players.push(Player('X'));
        players.push(Player('O'));
        Players(players)
    }
}

} // verus!
