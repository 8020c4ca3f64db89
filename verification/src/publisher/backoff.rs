//! How long to wait between attempts.

use vstd::prelude::*;

verus! {

/// The longest wait, in milliseconds.
pub const LONGEST_DELAY_MS: u64 = 30000;

/// The wait before the given attempt: doubled with every attempt, up to the longest.
pub open spec fn delay_before(first: nat, attempt: nat) -> nat
    decreases attempt,
{
    if attempt == 0 {
        first
    } else if delay_before(first, (attempt - 1) as nat) * 2 > LONGEST_DELAY_MS {
        LONGEST_DELAY_MS as nat
    } else {
        delay_before(first, (attempt - 1) as nat) * 2
    }
}

proof fn lemma_delay_stays(first: nat, reached: nat, attempt: nat)
    requires
        delay_before(first, reached) == LONGEST_DELAY_MS,
        reached <= attempt,
    ensures
        delay_before(first, attempt) == LONGEST_DELAY_MS,
    decreases attempt,
{
    if reached < attempt {
        lemma_delay_stays(first, reached, (attempt - 1) as nat);
    }
}

/// The wait before the given attempt, in milliseconds.
pub fn backoff_ms(first: u64, attempt: u32) -> (delay: u64)
    requires
        first <= LONGEST_DELAY_MS,
    ensures
        delay == delay_before(first as nat, attempt as nat),
        delay <= LONGEST_DELAY_MS,
{
    let mut delay: u64 = first;
    let mut step: u32 = 0;
    while step < attempt && delay < LONGEST_DELAY_MS
        invariant
            step <= attempt,
            delay <= LONGEST_DELAY_MS,
            delay == delay_before(first as nat, step as nat),
        ensures
            delay <= LONGEST_DELAY_MS,
            step <= attempt,
            delay == delay_before(first as nat, step as nat),
            step == attempt || delay == LONGEST_DELAY_MS,
        decreases attempt - step,
    {
        delay = if delay * 2 > LONGEST_DELAY_MS {
            LONGEST_DELAY_MS
        } else {
            delay * 2
        };
        step = step + 1;
    }
    proof {
        if step < attempt {
            lemma_delay_stays(first as nat, step as nat, attempt as nat);
        }
    }
    delay
}

} // verus!
