//! Clocks and rates: what is left running, and how fast.

use crate::bytes::from_be64;
use crate::cpufreq::opp_of;
use crate::devicetree::{first_value, NodeView};
use crate::mca::{disabled_calls, enable_stopped, enabled_calls, resolve_stopped};
use crate::ports::clocks::ClockCall;
use vstd::prelude::*;

verus! {

/// How often a clock was switched on more than off.
pub open spec fn balance<K>(calls: Seq<ClockCall<K>>, clock: K) -> int
    decreases calls.len(),
{
    if calls.len() == 0 {
        0
    } else {
        balance(calls.drop_last(), clock) + (match calls.last() {
            ClockCall::Enable { clock: k, done } => if done && k == clock {
                1int
            } else {
                0
            },
            ClockCall::Disable { clock: k } => if k == clock {
                -1
            } else {
                0
            },
            _ => 0,
        })
    }
}

/// How often a clock occurs.
pub open spec fn occurrences<K>(clocks: Seq<K>, clock: K) -> int
    decreases clocks.len(),
{
    if clocks.len() == 0 {
        0
    } else {
        occurrences(clocks.drop_last(), clock) + (if clocks.last() == clock {
            1int
        } else {
            0
        })
    }
}

proof fn balance_append<K>(a: Seq<ClockCall<K>>, b: Seq<ClockCall<K>>, clock: K)
    ensures
        balance(a + b, clock) == balance(a, clock) + balance(b, clock),
    decreases b.len(),
{
    if b.len() == 0 {
        assert(a + b =~= a);
    } else {
        balance_append(a, b.drop_last(), clock);
        assert((a + b).drop_last() =~= a + b.drop_last());
    }
}

proof fn pair_balance<K>(first: ClockCall<K>, second: ClockCall<K>, clock: K)
    ensures
        balance(seq![first, second], clock) == balance(seq![first], clock) + balance(
            seq![second],
            clock,
        ),
{
    assert(seq![first, second] =~= seq![first] + seq![second]);
    balance_append(seq![first], seq![second], clock);
}

proof fn enabled_balance<K>(clocks: Seq<K>, clock: K)
    ensures
        balance(enabled_calls(clocks), clock) == occurrences(clocks, clock),
    decreases clocks.len(),
{
    if clocks.len() > 0 {
        enabled_balance(clocks.drop_last(), clock);
        let found = ClockCall::Resolve { index: (clocks.len() - 1) as nat, found: Ok(clocks.last()) };
        let on = ClockCall::Enable { clock: clocks.last(), done: true };
        balance_append(enabled_calls(clocks.drop_last()), seq![found, on], clock);
        pair_balance(found, on, clock);
        reveal_with_fuel(balance, 2);
        assert(seq![found].drop_last() =~= Seq::empty());
        assert(seq![on].drop_last() =~= Seq::empty());
    }
}

proof fn disabled_balance<K>(clocks: Seq<K>, clock: K)
    ensures
        balance(disabled_calls(clocks), clock) == -occurrences(clocks, clock),
    decreases clocks.len(),
{
    if clocks.len() > 0 {
        disabled_balance(clocks.drop_last(), clock);
        assert(disabled_calls(clocks).drop_last() =~= disabled_calls(clocks.drop_last()));
    }
}

/// Where a clock cannot be switched on, every clock is as it was before; where
/// one cannot be found, those in front of it stay on.
pub proof fn failed_starts_leave_no_clock_on<K>(
    log: (Seq<ClockCall<K>>, Seq<ClockCall<K>>),
    on: Seq<K>,
    failed: K,
    message: &'static str,
    clock: K,
)
    ensures
        enable_stopped(log, on, failed) ==> balance(log.1, clock) == balance(log.0, clock),
        resolve_stopped(log, on, message) ==> balance(log.1, clock) == balance(log.0, clock)
            + occurrences(on, clock),
{
    enabled_balance(on, clock);
    disabled_balance(on, clock);
    balance_append(log.0, enabled_calls(on), clock);
    if enable_stopped(log, on, failed) {
        let found = ClockCall::Resolve { index: on.len(), found: Ok(failed) };
        let tried = ClockCall::Enable { clock: failed, done: false };
        let head = log.0 + enabled_calls(on);
        balance_append(head, seq![found, tried], clock);
        balance_append(head + seq![found, tried], disabled_calls(on), clock);
        pair_balance(found, tried, clock);
        reveal_with_fuel(balance, 2);
        assert(seq![found].drop_last() =~= Seq::empty());
        assert(seq![tried].drop_last() =~= Seq::empty());
    }
    if resolve_stopped(log, on, message) {
        let head = log.0 + enabled_calls(on);
        let missing: ClockCall<K> = ClockCall::Resolve { index: on.len(), found: Err(message) };
        assert(head.push(missing).drop_last() =~= head);
    }
}

/// Where all clocks were found, each runs once more for each cluster that it
/// serves.
pub proof fn started_clocks_run<K>(before: Seq<ClockCall<K>>, clocks: Seq<K>, clock: K)
    ensures
        balance(before + enabled_calls(clocks), clock) == balance(before, clock) + occurrences(
            clocks,
            clock,
        ),
{
    enabled_balance(clocks, clock);
    balance_append(before, enabled_calls(clocks), clock);
}

/// An operating point is the state in its first property, read as a big-endian
/// word, with the rate in the other one in thousands, rounded up.
pub proof fn points_keep_their_rate(node: NodeView, level: Seq<u8>, rate: Seq<u8>)
    requires
        first_value(node.properties, "opp-level"@, 0) == Some(level),
        first_value(node.properties, "opp-hz"@, 0) == Some(rate),
        level.len() >= 4,
        rate.len() >= 8,
    ensures
        opp_of(node) is Some,
        opp_of(node)->0.pstate == 0x100_0000 * level[0] + 0x1_0000 * level[1] + 0x100 * level[2]
            + level[3],
        ({
            let hz = from_be64(rate, 0);
            let khz = opp_of(node)->0.freq_khz as int;
            hz <= 1000 * khz < hz + 1000
        }),
{
    let hz = from_be64(rate, 0);
    assert(0 <= hz <= u64::MAX);
    assert((hz + 999) / 1000 <= u64::MAX);
}

} // verus!
