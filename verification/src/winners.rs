//! Deciding a game: who owns which bucket, and who owns the most.

use std::collections::HashMap;
use vstd::prelude::*;
use vstd::seq_lib::lemma_seq_contains_after_push;
use vstd::std_specs::iter::IteratorSpec;
use vstd::string::*;
use crate::board::{BoardView, GameBoard};
use crate::bucket::BucketView;
use crate::player::Player;

verus! {

/// The number of locked buckets among `buckets`.
pub open spec fn locked_count(buckets: Seq<BucketView>) -> nat
    decreases buckets.len(),
{
    if buckets.len() == 0 {
        0
    } else {
        locked_count(buckets.drop_last()) + if buckets.last().locked {
            1nat
        } else {
            0nat
        }
    }
}

/// The number of buckets among `buckets` that `player` owns. A bucket
/// belongs to the player whose counter went in first; an empty bucket
/// belongs to nobody.
pub open spec fn tally(buckets: Seq<BucketView>, player: Player) -> nat
    decreases buckets.len(),
{
    if buckets.len() == 0 {
        0
    } else {
        tally(buckets.drop_last(), player) + if buckets.last().owner() == Some(player) {
            1nat
        } else {
            0nat
        }
    }
}

/// The players who own a bucket, each once, in the order of their first
/// bucket from the left.
pub open spec fn owners(buckets: Seq<BucketView>) -> Seq<Player>
    decreases buckets.len(),
{
    if buckets.len() == 0 {
        Seq::empty()
    } else {
        let before = owners(buckets.drop_last());
        match buckets.last().owner() {
            Some(player) => if before.contains(player) {
                before
            } else {
                before.push(player)
            },
            None => before,
        }
    }
}

/// `player` owns a bucket, and nobody owns more buckets.
pub open spec fn leads(buckets: Seq<BucketView>, player: Player) -> bool {
    &&& tally(buckets, player) > 0
    &&& forall|other: Player| tally(buckets, other) <= tally(buckets, player)
}

/// Those of `candidates` who lead, in the order of `candidates`.
pub open spec fn leaders_among(candidates: Seq<Player>, buckets: Seq<BucketView>) -> Seq<Player>
    decreases candidates.len(),
{
    if candidates.len() == 0 {
        Seq::empty()
    } else {
        let before = leaders_among(candidates.drop_last(), buckets);
        if leads(buckets, candidates.last()) {
            before.push(candidates.last())
        } else {
            before
        }
    }
}

/// The players tied for the most buckets, in the order of their first bucket
/// from the left.
pub open spec fn winners_of(buckets: Seq<BucketView>) -> Seq<Player> {
    leaders_among(owners(buckets), buckets)
}

impl BoardView {
    /// The number of buckets that must be locked before the game is decided.
    pub open spec fn win_bucket_count(self) -> int {
        self.buckets.len() - self.buffer_buckets
    }

    /// Whether enough buckets are locked for the game to be decided.
    pub open spec fn decided(self) -> bool {
        locked_count(self.buckets) >= self.win_bucket_count()
    }

    /// The winners, once the game is decided.
    pub open spec fn winners(self) -> Option<Seq<Player>> {
        if self.decided() {
            Some(winners_of(self.buckets))
        } else {
            None
        }
    }
}

/// No more buckets are locked than there are.
pub proof fn lemma_locked_count_bound(buckets: Seq<BucketView>)
    ensures
        locked_count(buckets) <= buckets.len(),
    decreases buckets.len(),
{
    if buckets.len() > 0 {
        lemma_locked_count_bound(buckets.drop_last());
    }
}

/// Nobody owns more buckets than there are.
pub proof fn lemma_tally_bound(buckets: Seq<BucketView>, player: Player)
    ensures
        tally(buckets, player) <= buckets.len(),
    decreases buckets.len(),
{
    if buckets.len() > 0 {
        lemma_tally_bound(buckets.drop_last(), player);
    }
}

/// The owners are the players with a bucket to their name, each listed once.
pub proof fn lemma_owners(buckets: Seq<BucketView>)
    ensures
        owners(buckets).no_duplicates(),
        forall|player: Player| #[trigger]
            owners(buckets).contains(player) <==> tally(buckets, player) > 0,
    decreases buckets.len(),
{
    broadcast use {lemma_seq_contains_after_push, Seq::lemma_index_contains};

    if buckets.len() > 0 {
        lemma_owners(buckets.drop_last());
    }
}

/// Among candidates listed once each, the leaders are listed once each, and
/// they are those candidates who lead.
pub proof fn lemma_leaders_among(candidates: Seq<Player>, buckets: Seq<BucketView>)
    requires
        candidates.no_duplicates(),
    ensures
        leaders_among(candidates, buckets).no_duplicates(),
        forall|player: Player| #[trigger]
            leaders_among(candidates, buckets).contains(player) <==> candidates.contains(player)
                && leads(buckets, player),
    decreases candidates.len(),
{
    broadcast use {lemma_seq_contains_after_push, Seq::lemma_index_contains};

    if candidates.len() > 0 {
        let rest = candidates.drop_last();
        lemma_leaders_among(rest, buckets);
        assert(candidates == rest.push(candidates.last()));
    }
}

/// The winners are exactly the players tied for the most buckets: every
/// player who owns a bucket and whom nobody beats is among them, nobody else
/// is, and nobody is listed twice.
pub proof fn lemma_winners_are_the_leaders(buckets: Seq<BucketView>)
    ensures
        winners_of(buckets).no_duplicates(),
        forall|player: Player| #[trigger]
            winners_of(buckets).contains(player) <==> leads(buckets, player),
{
    lemma_owners(buckets);
    lemma_leaders_among(owners(buckets), buckets);
    assert forall|player: Player| #[trigger]
        winners_of(buckets).contains(player) <==> leads(buckets, player) by {}
}

/// If anybody owns a bucket, somebody leads.
pub proof fn lemma_some_owner_leads(buckets: Seq<BucketView>, player: Player)
    requires
        tally(buckets, player) > 0,
    ensures
        exists|leader: Player| leads(buckets, leader),
    decreases buckets.len() - tally(buckets, player),
{
    if !leads(buckets, player) {
        let other = choose|other: Player| tally(buckets, other) > tally(buckets, player);
        lemma_tally_bound(buckets, other);
        lemma_some_owner_leads(buckets, other);
    }
}

/// A locked bucket is among the buckets counted as locked.
pub proof fn lemma_locked_bucket_exists(buckets: Seq<BucketView>)
    requires
        locked_count(buckets) > 0,
    ensures
        exists|i: int| 0 <= i < buckets.len() && (#[trigger] buckets[i]).locked,
    decreases buckets.len(),
{
    if !buckets.last().locked {
        lemma_locked_bucket_exists(buckets.drop_last());
        let i = choose|i: int|
            0 <= i < buckets.drop_last().len() && (#[trigger] buckets.drop_last()[i]).locked;
        assert(buckets[i].locked);
    }
}

/// The owner of the bucket at `i` owns at least one bucket.
pub proof fn lemma_owner_has_a_tally(buckets: Seq<BucketView>, i: int)
    requires
        0 <= i < buckets.len(),
        buckets[i].owner() is Some,
    ensures
        tally(buckets, buckets[i].owner()->0) > 0,
    decreases buckets.len(),
{
    if i < buckets.len() - 1 {
        lemma_owner_has_a_tally(buckets.drop_last(), i);
    }
}

/// A decided game has a winner, unless so many buffer buckets are allowed
/// that no bucket needs to be locked.
pub proof fn lemma_decided_game_has_winners(board: BoardView)
    requires
        board.wf(),
        board.decided(),
        board.win_bucket_count() > 0,
    ensures
        winners_of(board.buckets).len() > 0,
{
    let buckets = board.buckets;
    lemma_locked_bucket_exists(buckets);
    let i = choose|i: int| 0 <= i < buckets.len() && (#[trigger] buckets[i]).locked;
    lemma_owner_has_a_tally(buckets, i);
    lemma_some_owner_leads(buckets, buckets[i].owner()->0);
    let leader = choose|leader: Player| leads(buckets, leader);
    lemma_winners_are_the_leaders(buckets);
    assert(winners_of(buckets).contains(leader));
}

/// The players who won a game: those tied for the most buckets.
#[derive(Debug)]
pub struct Winners(Vec<Player>);

impl View for Winners {
    type V = Seq<Player>;

    closed spec fn view(&self) -> Seq<Player> {
        self.0@
    }
}

impl std::ops::Index<usize> for Winners {
    type Output = Player;

    /// The winner at `index`.
    fn index(&self, index: usize) -> (p: &Player)
        ensures
            *p == self@[index as int],
    {
        &self.0[index]
    }
}

impl vstd::std_specs::core::IndexSpecImpl<usize> for Winners {
    open spec fn index_req(&self, index: &usize) -> bool {
        *index < self@.len()
    }
}

impl Default for Winners {
    /// No winner.
    fn default() -> (w: Self)
        ensures
            w@ == Seq::<Player>::empty(),
    {
        Winners(Vec::new())
    }
}

impl Winners {
    /// The text that announces `winners`: one winner has won, two or more
    /// have tied.
    pub open spec fn rendered(winners: Seq<Player>) -> Seq<char> {
        if winners.len() == 1 {
            "Player "@.push(winners[0].0) + " won!"@
        } else if winners.len() == 2 {
            "Players "@.push(winners[0].0) + " and "@.push(winners[1].0) + " tied!"@
        } else {
            "Players "@ + Self::listed(winners.drop_last()) + "and "@.push(winners.last().0)
                + " tied!"@
        }
    }

    /// Each of `winners` followed by a comma and a space.
    pub open spec fn listed(winners: Seq<Player>) -> Seq<char>
        decreases winners.len(),
    {
        if winners.len() == 0 {
            Seq::empty()
        } else {
            Self::listed(winners.drop_last()).push(winners.last().0) + ", "@
        }
    }

    /// The given winners, in the given order.
    pub fn new(players: Vec<Player>) -> (w: Self)
        ensures
            w@ == players@,
    {
        Winners(players)
    }

    /// A single winner.
    pub fn single(player: Player) -> (w: Self)
        ensures
            w@ == seq![player],
    {
        let mut players: Vec<Player> = Vec::new();
        players.push(player);
        Winners(players)
    }

    /// The number of winners.
    pub fn winner_count(&self) -> (n: usize)
        ensures
            n == self@.len(),
    {
        self.0.len()
    }

    /// Adds a winner behind the others.
    pub fn push(&mut self, player: Player)
        ensures
            final(self)@ == old(self)@.push(player),
    {
        self.0.push(player)
    }

    /// Whether `player` is among the winners.
    pub fn contains(&self, player: Player) -> (b: bool)
        ensures
            b == self@.contains(player),
    {
        let mut i: usize = 0;
        while i < self.0.len()
            invariant
                i <= self.0@.len(),
                forall|k: int| 0 <= k < i ==> self.0@[k] != player,
            decreases self.0@.len() - i,
        {
            if self.0[i] == player {
                return true;
            }
            i = i + 1;
        }
        false
    }

    /// An iterator over the winners, in order.
    pub fn iter(&self) -> (it: std::slice::Iter<'_, Player>)
        ensures
            IteratorSpec::remaining(&it) == self@.as_ref(),
            IteratorSpec::decrease(&it) is Some,
            IteratorSpec::initial_value_relation(&it, &it),
    {
        self.0.iter()
    }

    /// The winners, in order.
    pub fn players(&self) -> (p: &Vec<Player>)
        ensures
            p@ == self@,
    {
        &self.0
    }

    /// The last winner, if there is any.
    pub fn last(&self) -> (p: Option<Player>)
        ensures
            p == if self@.len() > 0 {
                Some(self@.last())
            } else {
                None
            },
    {
        if self.0.len() > 0 {
            Some(self.0[self.0.len() - 1])
        } else {
            None
        }
    }

    /// Renders the announcement of the winners (see [`Winners::rendered`]).
    pub fn render(&self) -> (s: String)
        requires
            self@.len() > 0,
        ensures
            s@ == Self::rendered(self@),
    {
        let n: usize = self.winner_count();
        if n == 1 {
            let mut s = String::from_str("Player ");
            s.push(self[0].symbol());
            s.append(" won!");
            s
        } else if n == 2 {
            let mut s = String::from_str("Players ");
            s.push(self[0].symbol());
            s.append(" and ");
            s.push(self[1].symbol());
            s.append(" tied!");
            s
        } else {
            let mut s = String::from_str("Players ");
            let mut i: usize = 0;
            while i < n - 1
                invariant
                    n == self.0@.len(),
                    n > 2,
                    i <= n - 1,
                    s@ == "Players "@ + Self::listed(self.0@.take(i as int)),
                decreases n - 1 - i,
            {
                s.push(self.0[i].symbol());
                s.append(", ");
                proof {
                    let shown = self.0@.take(i + 1);
                    assert(shown.drop_last() == self.0@.take(i as int));
                }
                i = i + 1;
            }
            s.append("and ");
            s.push(self.0[n - 1].symbol());
            s.append(" tied!");
            s
        }
    }
}

impl GameBoard {
    /// The number of locked buckets.
    pub fn locked_buckets(&self) -> (n: usize)
        ensures
            n == locked_count(self@.buckets),
    {
        let buckets = self.buckets();
        let ghost views = self@.buckets;
        let mut n: usize = 0;
        let mut i: usize = 0;
        while i < buckets.len()
            invariant
                i <= buckets@.len(),
                buckets@.len() == views.len(),
                forall|k: int| 0 <= k < buckets@.len() ==> (#[trigger] buckets@[k])@ == views[k],
                n == locked_count(views.take(i as int)),
                n <= i,
            decreases buckets@.len() - i,
        {
            proof {
                assert(views.take(i + 1).drop_last() == views.take(i as int));
            }
            if buckets[i].locked() {
                n = n + 1;
            }
            i = i + 1;
        }
        proof {
            assert(views.take(views.len() as int) == views);
        }
        n
    }

    /// The number of buckets that must be locked before the game is decided:
    /// all but the buffer buckets.
    pub fn win_bucket_count(&self) -> (n: u16)
        requires
            0 <= self@.win_bucket_count() <= u16::MAX,
        ensures
            n == self@.win_bucket_count(),
    {
        (self.bucket_count() - self.buffer_buckets() as usize) as u16
    }

    /// The winners of the game, or `None` while too few buckets are locked
    /// for the game to be decided. Each bucket counts for the player whose
    /// counter went into it first, locked or not, and an empty bucket for
    /// nobody. The winners are all players tied for the most buckets, in the
    /// order of their first bucket from the left.
    pub fn winners(&self) -> (w: Option<Winners>)
        ensures
            match self@.winners() {
                Some(players) => w matches Some(found) && found@ == players,
                None => w is None,
            },
            w matches Some(found) ==> found@.no_duplicates() && forall|player: Player| #[trigger]
                found@.contains(player) <==> leads(self@.buckets, player),
    {
        let ghost views = self@.buckets;
        let locked: usize = self.locked_buckets();
        proof {
            lemma_locked_count_bound(views);
        }
        if self.bucket_count() - locked > self.buffer_buckets() as usize {
            return None;
        }
        let buckets = self.buckets();
        let mut counts: HashMap<u32, usize> = HashMap::new();
        let mut firsts: Vec<Player> = Vec::new();
        let mut best: usize = 0;
        let mut i: usize = 0;
        while i < buckets.len()
            invariant
                i <= buckets@.len(),
                buckets@.len() == views.len(),
                forall|k: int| 0 <= k < buckets@.len() ==> (#[trigger] buckets@[k])@ == views[k],
                firsts@ == owners(views.take(i as int)),
                forall|key: u32| counts@.contains_key(key) ==> #[trigger] counts@[key] > 0,
                forall|player: Player| #[trigger]
                    tally(views.take(i as int), player) == if counts@.contains_key(
                        player.0 as u32,
                    ) {
                        counts@[player.0 as u32] as nat
                    } else {
                        0nat
                    },
                forall|player: Player| #[trigger] tally(views.take(i as int), player) <= best,
                best > 0 ==> exists|player: Player| #[trigger]
                    tally(views.take(i as int), player) == best,
            decreases buckets@.len() - i,
        {
            let ghost seen = views.take(i as int);
            let ghost leader = if best > 0 {
                choose|player: Player| #[trigger] tally(seen, player) == best
            } else {
                arbitrary()
            };
            proof {
                assert(views.take(i + 1).drop_last() == seen);
                lemma_owners(seen);
                assert forall|player: Player| #[trigger]
                    tally(views.take(i + 1), player) == tally(seen, player) + if views[i as int]
                        .owner() == Some(player) {
                        1nat
                    } else {
                        0nat
                    } by {}
            }
            match buckets[i].owner() {
                Some(first) => {
                    let key: u32 = first.symbol() as u32;
                    proof {
                        lemma_tally_bound(seen, first);
                    }
                    let held: usize = match counts.get(&key) {
                        Some(n) => *n,
                        None => 0,
                    };
                    if held == 0 {
                        firsts.push(first);
                    }
                    counts.insert(key, held + 1);
                    if held + 1 > best {
                        best = held + 1;
                        assert(tally(views.take(i + 1), first) == best);
                    } else {
                        assert(tally(views.take(i + 1), leader) == best);
                    }
                },
                None => {
                    assert(best > 0 ==> tally(views.take(i + 1), leader) == best);
                },
            }
            i = i + 1;
        }
        proof {
            assert(views.take(views.len() as int) == views);
            lemma_owners(views);
        }
        let mut winners = Winners::default();
        let mut j: usize = 0;
        while j < firsts.len()
            invariant
                j <= firsts@.len(),
                firsts@ == owners(views),
                forall|player: Player| #[trigger]
                    owners(views).contains(player) <==> tally(views, player) > 0,
                forall|player: Player| #[trigger]
                    tally(views, player) == if counts@.contains_key(player.0 as u32) {
                        counts@[player.0 as u32] as nat
                    } else {
                        0nat
                    },
                forall|player: Player| #[trigger] tally(views, player) <= best,
                best > 0 ==> exists|player: Player| #[trigger] tally(views, player) == best,
                winners@ == leaders_among(firsts@.take(j as int), views),
            decreases firsts@.len() - j,
        {
            let candidate: Player = firsts[j];
            let held: usize = match counts.get(&(candidate.symbol() as u32)) {
                Some(n) => *n,
                None => 0,
            };
            proof {
                assert(firsts@.take(j + 1).drop_last() == firsts@.take(j as int));
                assert(owners(views).contains(candidate));
                if held != best {
                    let leader = choose|player: Player| #[trigger] tally(views, player) == best;
                    assert(!leads(views, candidate)) by {
                        assert(tally(views, leader) > tally(views, candidate));
                    }
                }
            }
            if held == best {
                winners.push(candidate);
            }
            j = j + 1;
        }
        proof {
            assert(firsts@.take(firsts@.len() as int) == firsts@);
            lemma_winners_are_the_leaders(views);
        }
        Some(winners)
    }
}

} // verus!
