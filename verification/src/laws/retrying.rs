//! Promises about trying again.

use vstd::prelude::*;

use crate::retry;
use crate::retry::{Retry, RetryError, Step};

verus! {

/// An operation that may be tried `n` times is tried at once if `n` is not 0, and after failures
/// that may pass it is tried again: after the first failure it waits 200 milliseconds, after the
/// second 400, and so on. From the failure number `n` on it is given up with the failure's text. A
/// failure that will not pass ends it at once.
pub proof fn attempts_follow_each_other(
    n: u32,
    first: (Retry, Step),
    states: Seq<&mut Retry>,
    errors: Seq<RetryError>,
    steps: Seq<Step>,
    k: int,
)
    requires
        call_ensures(Retry::new, (n,), first),
        states.len() == errors.len(),
        steps.len() == errors.len(),
        0 <= k < errors.len(),
        *states[0] == first.0,
        forall|i: int|
            0 < i < states.len() ==> *(#[trigger] states[i]) == *final(states[i - 1]),
        forall|i: int|
            0 <= i < states.len() ==> call_ensures(
                Retry::failed,
                (#[trigger] states[i], errors[i]),
                steps[i],
            ),
    ensures
        match errors[k] {
            RetryError::Definitive(why) => steps[k] matches Step::Fail(text) && text@ == why@,
            RetryError::Transient(why) => if k + 1 < n {
                steps[k] matches Step::AttemptAfter(ms) && ms == 200 * (k + 1)
            } else {
                steps[k] matches Step::Fail(text) && text@ == why@
            },
        },
{
    made_so_far(n, first, states, errors, steps, k);
    assert(call_ensures(Retry::failed, (states[k], errors[k]), steps[k]));
}

proof fn made_so_far(
    n: u32,
    first: (Retry, Step),
    states: Seq<&mut Retry>,
    errors: Seq<RetryError>,
    steps: Seq<Step>,
    k: int,
)
    requires
        call_ensures(Retry::new, (n,), first),
        states.len() == errors.len(),
        steps.len() == errors.len(),
        0 <= k < errors.len(),
        *states[0] == first.0,
        forall|i: int|
            0 < i < states.len() ==> *(#[trigger] states[i]) == *final(states[i - 1]),
        forall|i: int|
            0 <= i < states.len() ==> call_ensures(
                Retry::failed,
                (#[trigger] states[i], errors[i]),
                steps[i],
            ),
    ensures
        states[k].attempts() == n,
        states[k].made() == if k < n {
            k
        } else {
            n as int
        },
    decreases k,
{
    if k > 0 {
        made_so_far(n, first, states, errors, steps, k - 1);
        assert(call_ensures(Retry::failed, (states[k - 1], errors[k - 1]), steps[k - 1]));
        assert(*states[k] == *final(states[k - 1]));
    }
}

/// An operation that may not be tried at all fails at once and says so.
pub proof fn no_attempts_fail(n: u32, first: (Retry, Step))
    requires
        call_ensures(Retry::new, (n,), first),
    ensures
        n > 0 ==> first.1 is Attempt,
        n == 0 ==> (first.1 matches Step::Fail(text) && text@ == "operation failed after "@ + "0"@
            + " attempts"@),
{
    reveal_strlit("0");
    assert("0"@ =~= seq!['0']);
    assert(crate::text::decimal_text(0) =~= seq!['0']);
}

/// A failed read, write or connection may pass.
pub proof fn io_failures_may_pass(why: String, e: RetryError)
    requires
        call_ensures(RetryError::from_io, (why,), e),
    ensures
        e matches RetryError::Transient(text) && text@ == why@,
{
}

/// The waits are steps of 200 milliseconds, and a connection has three seconds.
pub proof fn timing_is_fixed()
    ensures
        retry::BACKOFF_STEP == 200,
        retry::SOCKET_TIMEOUT == 3000,
{
}

} // verus!
