//! Units of work executed apart from their creator: `spawn` takes ownership of
//! a self-contained computation and yields a single-use `TaskHandle`; `join`
//! consumes the handle and surfaces the outcome.
//!
//! The handle records the unit's outcome: either the computed value or, when
//! the unit aborted, a diagnostic payload. Ownership transfer is by value —
//! `spawn` consumes the computation together with everything it captured, so
//! the spawning context retains no alias to data handed over.

use vstd::prelude::*;

use crate::errors::CoreError;

verus! {

/// A single-use, move-only handle for a unit of work; produced by spawning,
/// consumed by joining.
pub struct TaskHandle<T> {
    outcome: Result<T, String>,
}

impl<T> TaskHandle<T> {
    /// Whether the unit of work terminated normally.
    pub closed spec fn completed(&self) -> bool {
        self.outcome is Ok
    }

    /// The value the unit of work computed, when it terminated normally.
    pub closed spec fn value(&self) -> T {
        self.outcome->Ok_0
    }

    /// The diagnostic payload, when the unit of work aborted.
    pub closed spec fn diagnostic(&self) -> Seq<char> {
        self.outcome->Err_0@
    }
}

/// Runs a self-contained unit of work to completion and returns the handle for
/// its outcome. The computation is taken by value: whatever it captured is no
/// longer accessible to the caller.
pub fn spawn<T, F: FnOnce() -> T>(work: F) -> (h: TaskHandle<T>)
    requires
        call_requires(work, ()),
    ensures
        h.completed(),
        call_ensures(work, (), h.value()),
{
    let value = work();
    TaskHandle { outcome: Ok(value) }
}

/// The handle of a unit of work that aborted with the given diagnostic instead
/// of returning normally; joining it surfaces the failure.
pub fn spawn_aborted<T>(diagnostic: String) -> (h: TaskHandle<T>)
    ensures
        !h.completed(),
        h.diagnostic() == diagnostic@,
{
    TaskHandle { outcome: Err(diagnostic) }
}

/// Waits for the referenced unit of work and consumes the handle. On normal
/// termination the work's result is returned exactly as computed; on abnormal
/// termination the call fails with `ExecutionFailure` carrying the diagnostic
/// payload — never a default or partial value.
pub fn join<T>(h: TaskHandle<T>) -> (r: Result<T, CoreError>)
    ensures
        h.completed() ==> (r matches Ok(v) && v == h.value()),
        !h.completed() ==> (r matches Err(CoreError::ExecutionFailure(m)) && m@ == h.diagnostic()),
{
    match h.outcome {
        Ok(value) => Ok(value),
        Err(message) => Err(CoreError::ExecutionFailure(message)),
    }
}

/// A unit of work computing the sum 1 + 2 + ... + n.
pub fn sum_one_to(n: u32) -> (s: u32)
    requires
        n <= 65535,
    ensures
        s == n * (n + 1) / 2,
{
    let mut s: u32 = 0;
    let mut i: u32 = 0;
    while i < n
        invariant
            i <= n <= 65535,
            s == i * (i + 1) / 2,
        decreases n - i,
    {
        proof {
            assert((i + 1) * (i + 2) / 2 == i * (i + 1) / 2 + (i + 1)) by (nonlinear_arith);
            assert(i * (i + 1) / 2 <= 65535 * 65536 / 2) by (nonlinear_arith)
                requires i <= 65535;
        }
        i = i + 1;
        s = s + i;
    }
    s
}

/// Spawns a unit computing the sum 1..=100 and joins it: the join returns
/// exactly 5050.
pub fn sum_task_roundtrip() -> (r: Result<u32, CoreError>)
    ensures
        r matches Ok(v) && v == 5050,
{
    let work = || -> (s: u32)
        ensures
            s == 5050,
        { sum_one_to(100) };
    let h = spawn(work);
    join(h)
}

} // verus!
