//! Trying again after failures that may pass.
//!
//! An operation is tried a number of times. After a failure that may pass, the next attempt waits a
//! little longer than the one before. A failure that cannot pass ends it at once.

use vstd::prelude::*;

use crate::text;

verus! {

/// How long a connection, a read or a write may take, in milliseconds.
pub const SOCKET_TIMEOUT: u64 = 3_000;

/// How much longer each wait is than the one before, in milliseconds.
pub const BACKOFF_STEP: u64 = 200;

/// Why an attempt failed.
#[derive(Debug)]
pub enum RetryError {
    /// Another attempt may succeed.
    Transient(String),
    /// Another attempt cannot succeed.
    Definitive(String),
}

/// The text of a failure, and whether another attempt may succeed.
#[verifier::ext_equal]
pub enum Failure {
    Transient(Seq<char>),
    Definitive(Seq<char>),
}

impl View for RetryError {
    type V = Failure;

    open spec fn view(&self) -> Failure {
        match self {
            RetryError::Transient(why) => Failure::Transient(why@),
            RetryError::Definitive(why) => Failure::Definitive(why@),
        }
    }
}

impl RetryError {
    /// A failed connection, read or write may succeed another time.
    pub fn from_io(why: String) -> (e: RetryError)
        ensures
            e@ == Failure::Transient(why@),
    {
        RetryError::Transient(why)
    }
}

/// What to do next.
#[derive(Debug)]
pub enum Step {
    /// Try the operation.
    Attempt,
    /// Wait this many milliseconds, then try the operation.
    AttemptAfter(u64),
    /// Give up.
    Fail(String),
}

/// What is done next.
#[verifier::ext_equal]
pub enum NextStep {
    Attempt,
    AttemptAfter(nat),
    Fail(Seq<char>),
}

impl View for Step {
    type V = NextStep;

    open spec fn view(&self) -> NextStep {
        match self {
            Step::Attempt => NextStep::Attempt,
            Step::AttemptAfter(ms) => NextStep::AttemptAfter(*ms as nat),
            Step::Fail(why) => NextStep::Fail(why@),
        }
    }
}

/// The first step of an operation that may be tried `attempts` times.
pub open spec fn first_step(attempts: nat) -> NextStep {
    if attempts == 0 {
        NextStep::Fail("operation failed after "@ + text::decimal_text(attempts) + " attempts"@)
    } else {
        NextStep::Attempt
    }
}

/// The step after attempt number `made` of `attempts` has failed.
pub open spec fn step_after(attempts: nat, made: nat, failure: Failure) -> NextStep {
    match failure {
        Failure::Definitive(why) => NextStep::Fail(why),
        Failure::Transient(why) => if made < attempts {
            NextStep::AttemptAfter(BACKOFF_STEP as nat * made)
        } else {
            NextStep::Fail(why)
        },
    }
}

/// An operation that is tried until it succeeds, fails for good, or has been tried often enough.
pub struct Retry {
    attempts: u32,
    made: u32,
}

impl Retry {
    #[verifier::type_invariant]
    spec fn is_in_bounds(self) -> bool {
        self.made <= self.attempts
    }

    /// How often the operation may be tried.
    pub closed spec fn attempts(self) -> nat {
        self.attempts as nat
    }

    /// How often the operation has been tried and failed.
    pub closed spec fn made(self) -> nat {
        self.made as nat
    }

    /// Starts an operation that may be tried `attempts` times.
    pub fn new(attempts: u32) -> (r: (Retry, Step))
        ensures
            r.0.attempts() == attempts,
            r.0.made() == 0,
            r.1@ == first_step(attempts as nat),
    {
        let retry = Retry { attempts, made: 0 };
        if attempts > 0 {
            return (retry, Step::Attempt);
        }
        let mut why = String::from_str("operation failed after ");
        why.append(text::decimal(attempts).as_str());
        why.append(" attempts");
        (retry, Step::Fail(why))
    }

    /// Takes note of a failed attempt.
    pub fn failed(&mut self, error: RetryError) -> (step: Step)
        ensures
            final(self).attempts() == old(self).attempts(),
            final(self).made() == if old(self).made() < old(self).attempts() {
                old(self).made() + 1
            } else {
                old(self).made()
            },
            step@ == step_after(old(self).attempts(), final(self).made(), error@),
    {
        proof {
            use_type_invariant(&*self);
        }
        if self.made < self.attempts {
            self.made = self.made + 1;
        }
        match error {
            RetryError::Definitive(why) => Step::Fail(why),
            RetryError::Transient(why) => {
                if self.made < self.attempts {
                    assert(BACKOFF_STEP * self.made <= 200 * u32::MAX);
                    Step::AttemptAfter(BACKOFF_STEP * self.made as u64)
                } else {
                    Step::Fail(why)
                }
            },
        }
    }
}

/// The time spent waiting before attempt number `made + 1`, when all before it failed and might
/// pass.
pub open spec fn waited(attempts: nat, made: nat, failures: Seq<Failure>) -> nat
    decreases made,
{
    if made == 0 {
        0
    } else {
        waited(attempts, (made - 1) as nat, failures) + match step_after(
            attempts,
            made,
            failures[made - 1],
        ) {
            NextStep::AttemptAfter(ms) => ms,
            _ => 0,
        }
    }
}

/// An operation that keeps failing in ways that may pass is tried exactly `attempts` times, and
/// then fails with the last failure.
pub proof fn attempts_are_used_up(attempts: nat, failures: Seq<Failure>)
    requires
        0 < attempts == failures.len(),
        forall|i: int| 0 <= i < failures.len() ==> (#[trigger] failures[i]) is Transient,
    ensures
        forall|i: int|
            0 <= i < attempts - 1 ==> step_after(
                attempts,
                (i + 1) as nat,
                #[trigger] failures[i],
            ) is AttemptAfter,
        step_after(attempts, attempts, failures.last()) == NextStep::Fail(
            failures.last()->Transient_0,
        ),
{
}

/// A failure that cannot pass ends the operation, whatever was left of its attempts.
pub proof fn definitive_failures_end(attempts: nat, made: nat, why: Seq<char>)
    ensures
        step_after(attempts, made, Failure::Definitive(why)) == NextStep::Fail(why),
{
}

/// The waits before an attempt grow by one step each, so they add up to a triangular number of
/// half steps.
pub proof fn waits_add_up(attempts: nat, made: nat, failures: Seq<Failure>)
    requires
        made < attempts,
        made <= failures.len(),
        forall|i: int| 0 <= i < failures.len() ==> (#[trigger] failures[i]) is Transient,
    ensures
        2 * waited(attempts, made, failures) == BACKOFF_STEP * (made * (made + 1)),
    decreases made,
{
    if made > 0 {
        let before = (made - 1) as nat;
        waits_add_up(attempts, before, failures);
        assert(failures[made - 1] is Transient);
        assert(waited(attempts, made, failures) == waited(attempts, before, failures)
            + BACKOFF_STEP as nat * made);
        assert(200 * (made * (made + 1)) == 200 * (before * (before + 1)) + 2 * (200 * made))
            by (nonlinear_arith)
            requires
                made == before + 1,
        ;
    } else {
        assert(made * (made + 1) == 0) by (nonlinear_arith)
            requires
                made == 0,
        ;
    }
}

} // verus!
