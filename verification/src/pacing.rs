use vstd::prelude::*;

verus! {

/// Minimum wall-clock distance between the starts of consecutive
/// segment-processing cycles, in milliseconds.
pub const CYCLE_BUDGET_MS: u64 = 2000;

/// Increment by which an overrun schedule is pushed forward.
pub const CATCH_UP_STEP_MS: u64 = 1000;

/// What the governor decides before a cycle starts: how long to wait,
/// whether the previous cycle overran its budget, and the schedule point the
/// next cycle counts from.
pub struct PaceDecision {
    pub wait_ms: u64,
    pub overrun: bool,
    pub next_start: u64,
}

/// The previous cycle overran when the budget boundary has already passed.
pub open spec fn pace_overrun(last_start: u64, now: u64) -> bool {
    now >= last_start + 2000
}

/// The schedule point of the next cycle: the 2-second boundary when it is
/// still ahead; otherwise that boundary advanced in whole-second steps until
/// it passes `now`.
pub open spec fn pace_next_start(last_start: u64, now: u64) -> int {
    if !pace_overrun(last_start, now) {
        last_start + 2000
    } else {
        last_start + 2000 + 1000 * ((now - (last_start + 2000)) / 1000 + 1)
    }
}

/// How long the governor suspends: up to the boundary, or not at all after
/// an overrun.
pub open spec fn pace_wait_ms(last_start: u64, now: u64) -> int {
    if !pace_overrun(last_start, now) {
        last_start + 2000 - now
    } else {
        0
    }
}

/// Decides the wait before the next segment cycle. `last_start` is when the
/// previous cycle started; `now` is sampled after its work finished.
pub fn pace(last_start: u64, now: u64) -> (r: PaceDecision)
    requires
        last_start <= now,
        now + 4000 <= u64::MAX,
    ensures
        r.overrun == pace_overrun(last_start, now),
        r.next_start == pace_next_start(last_start, now),
        r.wait_ms == pace_wait_ms(last_start, now),
        !r.overrun ==> r.next_start == now + r.wait_ms,
        r.overrun ==> now < r.next_start <= now + 1000,
        r.overrun ==> (r.next_start - (last_start + 2000)) % 1000 == 0,
{
    let boundary = last_start + CYCLE_BUDGET_MS;
    if now < boundary {
        PaceDecision { wait_ms: boundary - now, overrun: false, next_start: boundary }
    } else {
        let over = now - boundary;
        let steps = over / CATCH_UP_STEP_MS + 1;
        let next = boundary + steps * CATCH_UP_STEP_MS;
        proof {
            assert(over == 1000 * (over / 1000) + over % 1000);
            assert(next - (last_start + 2000) == 1000 * (over as int / 1000 + 1));
            assert((1000 * (over as int / 1000 + 1)) % 1000 == 0) by {
                vstd::arithmetic::div_mod::lemma_mod_multiples_basic(
                    over as int / 1000 + 1,
                    1000,
                );
            }
        }
        PaceDecision { wait_ms: 0, overrun: true, next_start: next }
    }
}

/// Law: when a cycle finishes inside its budget, consecutive cycle starts
/// are exactly the budget apart, so never less than 2 seconds.
pub proof fn lemma_pace_min_spacing(last_start: u64, now: u64)
    requires
        last_start <= now,
        !pace_overrun(last_start, now),
    ensures
        pace_next_start(last_start, now) - last_start == 2000,
{
}

/// Law: after an overrun (a cycle longer than the budget) there is no sleep,
/// and the next schedule point stays aligned to whole-second steps past the
/// boundary first scheduled, strictly beyond `now`.
pub proof fn lemma_pace_overrun_alignment(last_start: u64, now: u64)
    requires
        last_start <= now,
        now + 4000 <= u64::MAX,
        pace_overrun(last_start, now),
    ensures
        pace_wait_ms(last_start, now) == 0,
        (pace_next_start(last_start, now) - (last_start + 2000)) % 1000 == 0,
        pace_next_start(last_start, now) > now,
{
    let over = now - (last_start + 2000);
    assert(over == 1000 * (over / 1000) + over % 1000);
    assert((pace_next_start(last_start, now) - (last_start + 2000)) == 1000 * (over / 1000 + 1));
    vstd::arithmetic::div_mod::lemma_mod_multiples_basic(over / 1000 + 1, 1000);
}

} // verus!
