//! Mutex-guarded shared state: an integer counter and an append-only log, each
//! protected by a mutual-exclusion lock with a poisoning policy.
//!
//! The lock is an explicit state machine — `Unlocked`, `Locked`, `Poisoned` —
//! and every operation's contract pins down its transition. The guarded value
//! is read or written only through operations that demand the `Locked` state,
//! so at most one holder mutates it per critical section; a holder that fails
//! while holding the lock poisons it, and `Poisoned` is terminal.

use vstd::prelude::*;

use crate::errors::CoreError;

verus! {

/// The state of a mutual-exclusion lock.
#[derive(Clone, Copy, Debug, PartialEq, Eq, Structural)]
pub enum LockState {
    /// No holder; an acquire succeeds.
    Unlocked,
    /// Exactly one holder is inside its critical section.
    Locked,
    /// A prior holder failed while holding the lock; terminal.
    Poisoned,
}

/// The lock-affecting operations, abstracted for reasoning about whole
/// histories of a guarded value.
#[derive(Clone, Copy, Debug, PartialEq, Eq, Structural)]
pub enum LockOp {
    /// An attempt to enter the critical section.
    Acquire,
    /// A normal exit from the critical section.
    Release,
    /// A holder failing mid-critical-section.
    FailWhileHolding,
}

/// How one operation moves the lock: acquires succeed only from `Unlocked`,
/// releases and failures apply only to `Locked`, and nothing leaves
/// `Poisoned`.
pub open spec fn lock_step(s: LockState, op: LockOp) -> LockState {
    match op {
        LockOp::Acquire => if s is Unlocked { LockState::Locked } else { s },
        LockOp::Release => if s is Locked { LockState::Unlocked } else { s },
        LockOp::FailWhileHolding => if s is Locked { LockState::Poisoned } else { s },
    }
}

/// The lock state after a whole history of operations.
pub open spec fn lock_run(s: LockState, ops: Seq<LockOp>) -> LockState
    decreases ops.len(),
{
    if ops.len() == 0 {
        s
    } else {
        lock_run(lock_step(s, ops[0]), ops.drop_first())
    }
}

/// `Poisoned` is terminal: no history of operations, however long, leaves it,
/// so every acquire after a holder failure finds the lock poisoned.
pub proof fn lemma_poisoned_is_terminal(ops: Seq<LockOp>)
    ensures
        lock_run(LockState::Poisoned, ops) is Poisoned,
    decreases ops.len(),
{
    if ops.len() > 0 {
        assert(lock_step(LockState::Poisoned, ops[0]) is Poisoned);
        lemma_poisoned_is_terminal(ops.drop_first());
    }
}

/// An integer protected by a mutual-exclusion lock; mutated only while the
/// lock is held.
pub struct SharedCounter {
    value: u64,
    lock: LockState,
}

impl SharedCounter {
    /// The guarded integer.
    pub closed spec fn value(&self) -> u64 {
        self.value
    }

    /// The state of the protecting lock.
    pub closed spec fn lock(&self) -> LockState {
        self.lock
    }

    /// A fresh counter: unlocked, holding `value`.
    pub fn new(value: u64) -> (c: SharedCounter)
        ensures
            c.value() == value,
            c.lock() is Unlocked,
    {
        SharedCounter { value, lock: LockState::Unlocked }
    }

    /// Requests exclusive access to the integer. Succeeds from `Unlocked`;
    /// fails with `LockPoisoned` — permanently — once a holder has failed
    /// while holding the lock. A caller blocked behind another holder retries
    /// after that holder's release, so the `Locked` state is left out here.
    pub fn acquire(&mut self) -> (r: Result<(), CoreError>)
        requires
            !(old(self).lock() is Locked),
        ensures
            final(self).value() == old(self).value(),
            final(self).lock() == lock_step(old(self).lock(), LockOp::Acquire),
            old(self).lock() is Unlocked ==> (r is Ok && final(self).lock() is Locked),
            old(self).lock() is Poisoned ==> r == Err::<(), CoreError>(CoreError::LockPoisoned),
    {
        match self.lock {
            LockState::Unlocked => {
                self.lock = LockState::Locked;
                Ok(())
            },
            _ => Err(CoreError::LockPoisoned),
        }
    }

    /// Reads the integer; only a current holder may look at it.
    pub fn read(&self) -> (r: u64)
        requires
            self.lock() is Locked,
        ensures
            r == self.value(),
    {
        self.value
    }

    /// Adds one to the integer; only a current holder may mutate it.
    pub fn increment(&mut self)
        requires
            old(self).lock() is Locked,
            old(self).value() < u64::MAX,
        ensures
            final(self).value() == old(self).value() + 1,
            final(self).lock() is Locked,
    {
        self.value = self.value + 1;
    }

    /// A normal exit from the critical section: the lock is released on every
    /// exit path, so a holder cannot leave it held forever.
    pub fn release(&mut self)
        requires
            old(self).lock() is Locked,
        ensures
            final(self).value() == old(self).value(),
            final(self).lock() == lock_step(old(self).lock(), LockOp::Release),
            final(self).lock() is Unlocked,
    {
        self.lock = LockState::Unlocked;
    }

    /// A holder failing mid-critical-section: the lock is poisoned rather than
    /// silently released, so no later holder uses a value that may have been
    /// left inconsistent.
    pub fn fail_while_holding(&mut self)
        requires
            old(self).lock() is Locked,
        ensures
            final(self).value() == old(self).value(),
            final(self).lock() == lock_step(old(self).lock(), LockOp::FailWhileHolding),
            final(self).lock() is Poisoned,
    {
        self.lock = LockState::Poisoned;
    }

    /// One task's whole interaction with the counter: acquire, add one,
    /// release. The lock contract makes the read-modify-write indivisible.
    pub fn increment_once(&mut self) -> (r: Result<(), CoreError>)
        requires
            !(old(self).lock() is Locked),
            old(self).value() < u64::MAX,
        ensures
            final(self).lock() == old(self).lock(),
            old(self).lock() is Unlocked ==> (r is Ok
                && final(self).value() == old(self).value() + 1),
            old(self).lock() is Poisoned ==> (r == Err::<(), CoreError>(CoreError::LockPoisoned)
                && final(self).value() == old(self).value()),
    {
        match self.acquire() {
            Ok(()) => {
                self.increment();
                self.release();
                Ok(())
            },
            Err(e) => Err(e),
        }
    }

    /// `n` tasks, each acquiring the counter once and incrementing it by one:
    /// after all of them the value has grown by exactly `n` — no update is
    /// lost under contention, because each increment happens inside its own
    /// critical section.
    pub fn increment_tasks(&mut self, n: usize) -> (r: Result<(), CoreError>)
        requires
            !(old(self).lock() is Locked),
            old(self).value() + n <= u64::MAX,
        ensures
            final(self).lock() == old(self).lock(),
            old(self).lock() is Unlocked ==> (r is Ok
                && final(self).value() == old(self).value() + n),
            n == 0 ==> (r is Ok && final(self).value() == old(self).value()),
            old(self).lock() is Poisoned && n > 0 ==> (r == Err::<(), CoreError>(
                CoreError::LockPoisoned,
            ) && final(self).value() == old(self).value()),
    {
        if n > 0 && matches!(self.lock, LockState::Poisoned) {
            return Err(CoreError::LockPoisoned);
        }
        let mut i: usize = 0;
        while i < n
            invariant
                i <= n,
                self.lock() == old(self).lock(),
                n > 0 ==> self.lock() is Unlocked,
                old(self).value() + n <= u64::MAX,
                self.value() == old(self).value() + i,
            decreases n - i,
        {
            match self.increment_once() {
                Ok(()) => {},
                Err(e) => {
                    return Err(e);
                },
            }
            i = i + 1;
        }
        Ok(())
    }
}

/// A log protected by a mutual-exclusion lock: records are appended only while
/// the lock is held, so each record lands whole, never interleaved.
pub struct SharedLog<T> {
    entries: Vec<T>,
    lock: LockState,
}

impl<T> SharedLog<T> {
    /// The records appended so far, oldest first.
    pub closed spec fn entries(&self) -> Seq<T> {
        self.entries@
    }

    /// The state of the protecting lock.
    pub closed spec fn lock(&self) -> LockState {
        self.lock
    }

    /// A fresh, empty, unlocked log.
    pub fn new() -> (log: SharedLog<T>)
        ensures
            log.entries() == Seq::<T>::empty(),
            log.lock() is Unlocked,
    {
        SharedLog { entries: Vec::new(), lock: LockState::Unlocked }
    }

    /// Requests exclusive access to the log; the same protocol as the
    /// counter's lock.
    pub fn acquire(&mut self) -> (r: Result<(), CoreError>)
        requires
            !(old(self).lock() is Locked),
        ensures
            final(self).entries() == old(self).entries(),
            final(self).lock() == lock_step(old(self).lock(), LockOp::Acquire),
            old(self).lock() is Unlocked ==> (r is Ok && final(self).lock() is Locked),
            old(self).lock() is Poisoned ==> r == Err::<(), CoreError>(CoreError::LockPoisoned),
    {
        match self.lock {
            LockState::Unlocked => {
                self.lock = LockState::Locked;
                Ok(())
            },
            _ => Err(CoreError::LockPoisoned),
        }
    }

    /// Appends one complete record; only a current holder may write.
    pub fn append(&mut self, record: T)
        requires
            old(self).lock() is Locked,
        ensures
            final(self).entries() == old(self).entries().push(record),
            final(self).lock() is Locked,
    {
        self.entries.push(record);
    }

    /// Releases the lock after a normal exit from the critical section.
    pub fn release(&mut self)
        requires
            old(self).lock() is Locked,
        ensures
            final(self).entries() == old(self).entries(),
            final(self).lock() is Unlocked,
    {
        self.lock = LockState::Unlocked;
    }

    /// The records of the log, handed back when no task holds the lock.
    pub fn into_entries(self) -> (r: Vec<T>)
        requires
            !(self.lock() is Locked),
        ensures
            r@ == self.entries(),
    {
        self.entries
    }

    /// `records.len()` tasks, each appending one record under `acquire`: after
    /// all of them the log holds exactly the old entries followed by every
    /// record, whole and in order — no partial or interleaved writes.
    pub fn append_tasks(&mut self, records: Vec<T>) -> (r: Result<(), CoreError>)
        requires
            !(old(self).lock() is Locked),
        ensures
            final(self).lock() == old(self).lock(),
            old(self).lock() is Unlocked ==> (r is Ok
                && final(self).entries() == old(self).entries() + records@),
            records@.len() == 0 ==> (r is Ok && final(self).entries() == old(self).entries()),
            old(self).lock() is Poisoned && records@.len() > 0 ==> (r == Err::<(), CoreError>(
                CoreError::LockPoisoned,
            ) && final(self).entries() == old(self).entries()),
    {
        let n = records.len();
        if n > 0 && matches!(self.lock, LockState::Poisoned) {
            return Err(CoreError::LockPoisoned);
        }
        let mut remaining = records;
        let mut i: usize = 0;
        while i < n
            invariant
                i <= n,
                n == remaining.len() + i,
                records@.len() == n,
                self.lock() == old(self).lock(),
                n > 0 ==> self.lock() is Unlocked,
                remaining@ == records@.skip(i as int),
                self.entries() == old(self).entries() + records@.take(i as int),
            decreases n - i,
        {
            proof {
                broadcast use vstd::seq_lib::group_seq_properties;

                assert(records@.skip(i as int)[0] == records@[i as int]);
                assert(records@.skip(i as int).remove(0) =~= records@.skip(i as int + 1));
            }
            let record = remaining.remove(0);
            match self.acquire() {
                Ok(()) => {},
                Err(e) => {
                    return Err(e);
                },
            }
            self.append(record);
            self.release();
            i = i + 1;
            proof {
                assert(records@.take(i as int) =~= records@.take(i - 1).push(records@[i - 1]));
            }
        }
        proof {
            assert(records@.take(n as int) =~= records@);
        }
        Ok(())
    }
}

} // verus!
