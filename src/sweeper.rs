use vstd::prelude::*;

verus! {

/// Seconds to wait before the first retry of a failed teardown.
pub const BACKOFF_BASE_SECS: u64 = 5;

/// The longest wait between two teardown attempts.
pub const BACKOFF_CAP_SECS: u64 = 300;

/// The wait before the next teardown attempt after `failures` failed ones:
/// the base doubled for each failure after the first, never above the cap.
pub open spec fn backoff(failures: nat) -> nat
    decreases failures,
{
    if failures <= 1 {
        BACKOFF_BASE_SECS as nat
    } else {
        let d = 2 * backoff((failures - 1) as nat);
        if d > BACKOFF_CAP_SECS { BACKOFF_CAP_SECS as nat } else { d }
    }
}

proof fn lemma_backoff_capped(n: nat, m: nat)
    requires
        n <= m,
        backoff(n) == BACKOFF_CAP_SECS,
    ensures
        backoff(m) == BACKOFF_CAP_SECS,
    decreases m - n,
{
    if n < m {
        lemma_backoff_capped(n, (m - 1) as nat);
        assert(backoff(m) == BACKOFF_CAP_SECS);
    }
}

pub fn backoff_secs(failures: u32) -> (r: u64)
    ensures
        r == backoff(failures as nat),
        r <= BACKOFF_CAP_SECS,
{
    let mut d: u64 = BACKOFF_BASE_SECS;
    let mut k: u32 = 1;
    while k < failures && d < BACKOFF_CAP_SECS
        invariant
            1 <= k,
            k <= failures || k == 1,
            d == backoff(k as nat),
            d <= BACKOFF_CAP_SECS,
        decreases failures - k,
    {
        let next = 2 * d;
        d = if next > BACKOFF_CAP_SECS { BACKOFF_CAP_SECS } else { next };
        k = k + 1;
    }
    proof {
        if failures <= 1 {
            assert(backoff(failures as nat) == BACKOFF_BASE_SECS);
            assert(backoff(1) == BACKOFF_BASE_SECS);
        } else if k < failures {
            lemma_backoff_capped(k as nat, failures as nat);
        }
    }
    d
}

} // verus!
