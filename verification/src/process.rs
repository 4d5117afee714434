//! Process configuration decisions: how the target service and the
//! workload driver are parameterized for each phase. The runner turns
//! these plain values into command-line arguments.

use vstd::prelude::*;

use crate::iteration::DriverPhase;

verus! {

/// How the target service is started: durability disabled, no state reuse,
/// and a shard count.
#[derive(Clone, Copy, PartialEq, Eq, Structural, Debug)]
pub struct TargetConfig {
    pub durability_memory: bool,
    pub no_reuse: bool,
    pub shards: usize,
}

pub fn target_config(shards: usize) -> (c: TargetConfig)
    ensures
        c == (TargetConfig { durability_memory: true, no_reuse: true, shards }),
{
    TargetConfig { durability_memory: true, no_reuse: true, shards }
}

/// How the driver is started for one phase: warmup and runtime in seconds,
/// whether it primes the data set, and whether it writes the latency
/// histogram.
#[derive(Clone, Copy, PartialEq, Eq, Structural, Debug)]
pub struct DriverConfig {
    pub warmup_secs: u64,
    pub runtime_secs: u64,
    pub prime: bool,
    pub histogram: bool,
}

/// Phase flags: prime runs with zero warmup and runtime and the prime flag;
/// warm runs a nonzero warmup with zero runtime; measure runs nonzero
/// warmup and runtime and writes the histogram.
pub open spec fn spec_driver_config(ph: DriverPhase) -> DriverConfig {
    match ph {
        DriverPhase::Prime => DriverConfig {
            warmup_secs: 0,
            runtime_secs: 0,
            prime: true,
            histogram: false,
        },
        DriverPhase::Warm => DriverConfig {
            warmup_secs: 30,
            runtime_secs: 0,
            prime: false,
            histogram: false,
        },
        DriverPhase::Measure => DriverConfig {
            warmup_secs: 40,
            runtime_secs: 40,
            prime: false,
            histogram: true,
        },
    }
}

pub fn driver_config(ph: DriverPhase) -> (c: DriverConfig)
    ensures
        c == spec_driver_config(ph),
{
    match ph {
        DriverPhase::Prime => DriverConfig {
            warmup_secs: 0,
            runtime_secs: 0,
            prime: true,
            histogram: false,
        },
        DriverPhase::Warm => DriverConfig {
            warmup_secs: 30,
            runtime_secs: 0,
            prime: false,
            histogram: false,
        },
        DriverPhase::Measure => DriverConfig {
            warmup_secs: 40,
            runtime_secs: 40,
            prime: false,
            histogram: true,
        },
    }
}

/// The fixed coordination port suffix `:2181`.
pub open spec fn coordination_suffix() -> Seq<u8> {
    seq![58u8, 50u8, 49u8, 56u8, 49u8]
}

/// The coordination address the driver connects to: the target host's
/// private address with the fixed port appended.
pub fn coordination_addr(ip: &[u8]) -> (v: Vec<u8>)
    ensures
        v@ == ip@ + coordination_suffix(),
{
    let mut v = crate::metrics::copy_range(ip, 0, ip.len());
    let suffix: Vec<u8> = vec![58u8, 50u8, 49u8, 56u8, 49u8];
    proof {
        assert(suffix@ =~= coordination_suffix());
        assert(ip@.subrange(0, ip@.len() as int) =~= ip@);
    }
    crate::artifacts::push_bytes(&mut v, suffix.as_slice());
    proof {
        assert(v@ =~= ip@ + coordination_suffix());
    }
    v
}

} // verus!
