//! Deciding whether a candidate scale overloaded the target. Each data
//! line can trip a trigger; one trip is enough to mark the iteration, and
//! further trips change nothing.

use vstd::prelude::*;

use crate::metrics::{sojourn_class, LatencySample, LatencyView, MetricParser, Percentile, SojournClass};

verus! {

/// Milliseconds of p95 sojourn latency above which an endpoint counts as
/// overloaded.
pub const LATENCY_LIMIT_MS: u64 = 200;

/// The achieved rate falls short of four fifths of the offered rate. Both
/// rates are in thousandths of an operation per second.
pub open spec fn spec_throughput_overload(target_milli: u64, actual_milli: u64) -> bool {
    5 * (actual_milli as int) < 4 * (target_milli as int)
}

/// Throughput trigger: actual below four fifths of target.
pub fn throughput_overloaded(target_milli: u64, actual_milli: u64) -> (r: bool)
    ensures
        r == spec_throughput_overload(target_milli, actual_milli),
{
    5 * (actual_milli as u128) < 4 * (target_milli as u128)
}

/// A sample trips the latency trigger: p95 sojourn above the limit. The
/// parser has already discarded exempted endpoints, so every sample counts.
pub open spec fn spec_latency_overload(s: LatencyView) -> bool {
    s.percentile == Percentile::P95 && s.sojourn_ms > LATENCY_LIMIT_MS
}

pub fn latency_overloaded(s: &LatencySample) -> (r: bool)
    ensures
        r == spec_latency_overload(s@),
{
    match s.percentile {
        Percentile::P95 => s.sojourn_ms > LATENCY_LIMIT_MS,
        _ => false,
    }
}

/// The line completes the throughput pair and the completed pair trips the
/// throughput trigger.
pub open spec fn throughput_trigger(p: MetricParser, l: Seq<u8>) -> bool {
    let (p2, bad) = p.spec_throughput_step(l);
    &&& !bad
    &&& !p.complete()
    &&& p2.complete()
    &&& p2.target_milli matches Some(t) && p2.actual_milli matches Some(a)
        && spec_throughput_overload(t, a)
}

/// The line carries a p95 sojourn sample above the limit on a non-exempted
/// endpoint.
pub open spec fn latency_trigger(l: Seq<u8>) -> bool {
    sojourn_class(l) matches SojournClass::Sample(v) && spec_latency_overload(v)
}

/// Everything one data line can contribute to the overload verdict, given
/// the throughput counters accumulated so far. A rejected line (malformed
/// throughput value) contributes nothing here: it aborts the iteration,
/// which is what marks it overloaded.
pub open spec fn line_trigger(p: MetricParser, l: Seq<u8>) -> bool {
    let (_, bad) = p.spec_throughput_step(l);
    if bad {
        false
    } else {
        throughput_trigger(p, l) || latency_trigger(l)
    }
}

/// Law: when a line completes the throughput pair, the line's contribution
/// to the verdict is exactly the ratio test on that pair — or an over-limit
/// p95 sample carried by the same line.
pub proof fn lemma_pair_completion(p: MetricParser, l: Seq<u8>)
    requires
        ({
            let (p2, bad) = p.spec_throughput_step(l);
            !bad && !p.complete() && p2.complete()
        }),
    ensures
        ({
            let (p2, _) = p.spec_throughput_step(l);
            p2.target_milli matches Some(t) && p2.actual_milli matches Some(a) ==> line_trigger(
                p,
                l,
            ) == (spec_throughput_overload(t, a) || latency_trigger(l))
        }),
{
}

/// Law: once both counters are known, no later line changes them or trips
/// the throughput trigger again; the verdict is idempotent in the pair.
pub proof fn lemma_complete_pair_is_stable(p: MetricParser, l: Seq<u8>)
    requires
        p.complete(),
    ensures
        p.spec_throughput_step(l).0 == p,
        !p.spec_throughput_step(l).1,
        !throughput_trigger(p, l),
{
}

/// Law: a well-formed p95 sample above the limit always trips the line
/// trigger, whatever the throughput counters hold, as long as the line
/// itself is not rejected.
pub proof fn lemma_high_p95_triggers(p: MetricParser, l: Seq<u8>)
    requires
        sojourn_class(l) matches SojournClass::Sample(v) && v.percentile == Percentile::P95
            && v.sojourn_ms > LATENCY_LIMIT_MS,
        !p.spec_throughput_step(l).1,
    ensures
        line_trigger(p, l),
{
}

/// Law: a sojourn sample on an exempted endpoint never yields a latency
/// sample, so it never trips the latency trigger.
pub proof fn lemma_exempt_endpoint_never_triggers(l: Seq<u8>)
    requires
        crate::text::field(l, 0) == crate::metrics::login_kw() || crate::text::field(l, 0)
            == crate::metrics::logout_kw(),
    ensures
        !latency_trigger(l),
{
}

/// Law: a p95 sample at or below the limit, or a sample at another
/// percentile, never trips the latency trigger.
pub proof fn lemma_mild_sample_never_triggers(l: Seq<u8>)
    requires
        sojourn_class(l) matches SojournClass::Sample(v) ==> !(v.percentile == Percentile::P95
            && v.sojourn_ms > LATENCY_LIMIT_MS),
    ensures
        !latency_trigger(l),
{
}

} // verus!
