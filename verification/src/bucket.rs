//! Buckets: bounded stacks of counters that lock once one player fills them.

use vstd::prelude::*;
use vstd::string::*;
use crate::error::{EvalError, EvalResult};
use crate::player::Player;
use crate::text::{decimal, push_decimal, push_run, run_of};

verus! {

/// What a bucket holds: its counters from the first added to the last, the
/// capacity it was made with, and whether it is locked.
pub struct BucketView {
    pub counters: Seq<Player>,
    pub capacity: nat,
    pub locked: bool,
}

/// Every counter of `counters` belongs to `player`.
pub open spec fn all_of(counters: Seq<Player>, player: Player) -> bool {
    forall|i: int| 0 <= i < counters.len() ==> counters[i] == player
}

/// All counters of `counters` belong to one player.
pub open spec fn uniform(counters: Seq<Player>) -> bool {
    forall|i: int, j: int|
        0 <= i < counters.len() && 0 <= j < counters.len() ==> counters[i] == counters[j]
}

/// One operation on a bucket.
pub enum BucketOp {
    /// Add a counter of the given player.
    Push(Player),
    /// Remove the counter added last.
    Pop,
}

impl BucketView {
    /// The empty, unlocked bucket of the given capacity.
    pub open spec fn empty(capacity: nat) -> BucketView {
        BucketView { counters: Seq::empty(), capacity, locked: false }
    }

    /// The fill never exceeds the capacity, and a locked bucket holds a
    /// counter and is full of one player's counters.
    pub open spec fn wf(self) -> bool {
        &&& self.counters.len() <= self.capacity
        &&& self.locked ==> {
            &&& 0 < self.counters.len() == self.capacity
            &&& uniform(self.counters)
        }
    }

    /// The number of free slots.
    pub open spec fn free(self) -> int {
        self.capacity - self.counters.len()
    }

    /// Why a counter cannot be added, if it cannot.
    pub open spec fn push_error(self, position: usize) -> Option<EvalError> {
        if self.free() > 0 {
            None
        } else if self.locked {
            Some(EvalError::LockedIncr { position })
        } else {
            Some(EvalError::Overflow { position })
        }
    }

    /// The bucket after a counter of `player` was added to a bucket with a
    /// free slot. The counter that fills the bucket locks it if every counter
    /// is then `player`'s; with another player's counter among them the
    /// bucket is full and stays unlocked.
    pub open spec fn pushed(self, player: Player) -> BucketView {
        let counters = self.counters.push(player);
        BucketView {
            counters,
            capacity: self.capacity,
            locked: counters.len() == self.capacity && all_of(counters, player),
        }
    }

    /// Why the last counter cannot be removed, if it cannot.
    pub open spec fn pop_error(self, position: usize) -> Option<EvalError> {
        if self.counters.len() == 0 {
            Some(EvalError::Underflow { position })
        } else if self.locked {
            Some(EvalError::LockedDecr { position })
        } else {
            None
        }
    }

    /// The bucket after its last counter was removed.
    pub open spec fn popped(self) -> BucketView {
        BucketView { counters: self.counters.drop_last(), ..self }
    }

    /// The bucket after `op`; a refused operation leaves it as it is.
    pub open spec fn apply(self, op: BucketOp) -> BucketView {
        match op {
            BucketOp::Push(player) => if self.push_error(0) is None {
                self.pushed(player)
            } else {
                self
            },
            BucketOp::Pop => if self.pop_error(0) is None {
                self.popped()
            } else {
                self
            },
        }
    }

    /// The bucket after all of `ops`, from the first to the last.
    pub open spec fn apply_all(self, ops: Seq<BucketOp>) -> BucketView
        decreases ops.len(),
    {
        if ops.len() == 0 {
            self
        } else {
            self.apply(ops[0]).apply_all(ops.drop_first())
        }
    }

    /// The player whose counter went in first, if the bucket holds any.
    pub open spec fn owner(self) -> Option<Player> {
        if self.counters.len() > 0 {
            Some(self.counters[0])
        } else {
            None
        }
    }

    /// The text of a bucket: one symbol per counter in the order they were
    /// added, `_` for each free slot, then fill and capacity, and a check
    /// mark if the bucket is locked.
    pub open spec fn rendered(self) -> Seq<char> {
        let shown = Seq::new(self.counters.len(), |i: int| self.counters[i].0) + run_of(
            '_',
            self.free() as nat,
        ) + " "@ + decimal(self.counters.len()) + "/"@ + decimal(self.capacity);
        if self.locked {
            shown + " \u{2713}"@
        } else {
            shown
        }
    }

    /// Adding and removing counters keeps a bucket well formed.
    pub proof fn lemma_apply_wf(self, op: BucketOp)
        requires
            self.wf(),
        ensures
            self.apply(op).wf(),
            self.apply(op).capacity == self.capacity,
    {
    }

    /// A locked bucket refuses every push and every pop.
    pub proof fn lemma_locked_refuses(self, position: usize)
        requires
            self.wf(),
            self.locked,
        ensures
            self.push_error(position) == Some(EvalError::LockedIncr { position }),
            self.pop_error(position) == Some(EvalError::LockedDecr { position }),
    {
    }

    /// A locked bucket stays as it is: no sequence of pushes and pops changes
    /// its counters or unlocks it.
    pub proof fn lemma_lock_is_final(self, ops: Seq<BucketOp>)
        requires
            self.wf(),
            self.locked,
        ensures
            self.apply_all(ops) == self,
        decreases ops.len(),
    {
        if ops.len() > 0 {
            self.lemma_lock_is_final(ops.drop_first());
        }
    }
}

/// A fixed-capacity store of counters, each tagged with the player who put it
/// there. Counters leave in the reverse of the order in which they came. A
/// bucket locks when it becomes full of one player's counters, and a locked
/// bucket never changes again.
#[derive(Debug)]
pub struct Bucket {
    counters: Vec<Player>,
    capacity: usize,
    locked: bool,
}

impl View for Bucket {
    type V = BucketView;

    closed spec fn view(&self) -> BucketView {
        BucketView {
            counters: self.counters@,
            capacity: self.capacity as nat,
            locked: self.locked,
        }
    }
}

impl Bucket {
    /// See [`BucketView::wf`].
    pub open spec fn wf(&self) -> bool {
        self@.wf()
    }

    /// Creates an empty, unlocked bucket with room for `capacity` counters.
    pub fn new(capacity: usize) -> (b: Self)
        ensures
            b@ == BucketView::empty(capacity as nat),
            b.wf(),
    {
        Bucket { counters: Vec::new(), capacity, locked: false }
    }

    /// Removes every counter and the lock; the capacity stays.
    pub fn empty(&mut self)
        ensures
            final(self)@ == BucketView::empty(old(self)@.capacity),
            final(self).wf(),
    {
        *self = Bucket::new(self.capacity);
    }

    /// The number of counters in the bucket.
    pub fn fill(&self) -> (n: usize)
        ensures
            n == self@.counters.len(),
    {
        self.counters.len()
    }

    /// Whether the bucket holds no counter.
    pub fn is_empty(&self) -> (e: bool)
        ensures
            e == (self@.counters.len() == 0),
    {
        self.fill() == 0
    }

    /// The number of counters the bucket has room for.
    pub fn capacity(&self) -> (n: usize)
        ensures
            n == self@.capacity,
    {
        self.capacity
    }

    /// The number of free slots.
    pub fn free(&self) -> (n: usize)
        requires
            self.wf(),
        ensures
            n == self@.free(),
    {
        self.capacity - self.fill()
    }

    /// Whether the bucket is locked.
    pub fn locked(&self) -> (l: bool)
        ensures
            l == self@.locked,
    {
        self.locked
    }

    /// The counters, from the first added to the last.
    pub fn counters(&self) -> (c: &Vec<Player>)
        ensures
            c@ == self@.counters,
    {
        &self.counters
    }

    /// The player whose counter went in first, if the bucket holds any.
    pub fn owner(&self) -> (p: Option<Player>)
        ensures
            p == self@.owner(),
    {
        if self.counters.len() > 0 {
            Some(self.counters[0])
        } else {
            None
        }
    }

    /// Adds a counter of `player`. A full bucket refuses it, with
    /// `LockedIncr` if it is locked and `Overflow` if it is not, and stays as
    /// it is; `position` is reported in the error. The counter that fills the
    /// bucket locks it if all its counters are then `player`'s.
    pub fn push(&mut self, player: Player, position: usize) -> (r: EvalResult<()>)
        requires
            old(self).wf(),
        ensures
            final(self).wf(),
            match old(self)@.push_error(position) {
                Some(e) => r == Err::<(), EvalError>(e) && final(self)@ == old(self)@,
                None => r is Ok && final(self)@ == old(self)@.pushed(player),
            },
            old(self)@.locked ==> r is Err && final(self)@ == old(self)@,
    {
        let free: usize = self.free();
        if free == 0 {
            return Err(
                if self.locked {
                    EvalError::LockedIncr { position }
                } else {
                    EvalError::Overflow { position }
                },
            );
        }
        self.counters.push(player);
        if free == 1 {
            let mut same: bool = true;
            let mut i: usize = 0;
            while i < self.counters.len()
                invariant
                    i <= self.counters.len(),
                    same <==> forall|k: int| 0 <= k < i ==> self.counters@[k] == player,
                decreases self.counters.len() - i,
            {
                if self.counters[i] != player {
                    same = false;
                }
                i = i + 1;
            }
            if same {
                self.locked = true;
            }
        }
        Ok(())
    }

    /// Removes the counter added last. An empty bucket refuses with
    /// `Underflow`, a locked one with `LockedDecr`, and stays as it is;
    /// `position` is reported in the error.
    pub fn pop(&mut self, position: usize) -> (r: EvalResult<()>)
        requires
            old(self).wf(),
        ensures
            final(self).wf(),
            match old(self)@.pop_error(position) {
                Some(e) => r == Err::<(), EvalError>(e) && final(self)@ == old(self)@,
                None => r is Ok && final(self)@ == old(self)@.popped(),
            },
            old(self)@.locked ==> r is Err && final(self)@ == old(self)@,
    {
        if self.is_empty() {
            Err(EvalError::Underflow { position })
        } else if self.locked {
            Err(EvalError::LockedDecr { position })
        } else {
            self.counters.pop();
            Ok(())
        }
    }

    /// Renders the bucket as text (see [`BucketView::rendered`]).
    pub fn render(&self) -> (s: String)
        requires
            self.wf(),
        ensures
            s@ == self@.rendered(),
    {
        let mut s = String::new();
        let mut i: usize = 0;
        while i < self.counters.len()
            invariant
                i <= self.counters.len(),
                s@ == Seq::new(i as nat, |k: int| self.counters@[k].0),
            decreases self.counters.len() - i,
        {
            s.push(self.counters[i].symbol());
            i = i + 1;
        }
        push_run(&mut s, '_', self.free());
        s.append(" ");
        push_decimal(&mut s, self.fill() as u128);
        s.append("/");
        push_decimal(&mut s, self.capacity as u128);
        if self.locked {
            s.append(" \u{2713}");
        }
        s
    }
}

impl Clone for Bucket {
    /// A bucket with the same counters, capacity and lock.
    fn clone(&self) -> (b: Self)
        ensures
            b@ == self@,
    {
        let mut counters: Vec<Player> = Vec::new();
        let mut i: usize = 0;
        while i < self.counters.len()
            invariant
                i <= self.counters.len(),
                counters@ == self.counters@.take(i as int),
            decreases self.counters.len() - i,
        {
            counters.push(self.counters[i]);
            i = i + 1;
        }
        assert(self.counters@.take(self.counters.len() as int) == self.counters@);
        Bucket { counters, capacity: self.capacity, locked: self.locked }
    }
}

} // verus!
