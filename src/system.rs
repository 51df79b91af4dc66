use vstd::prelude::*;

use crate::error::Result;
use crate::metric_logger::{batch_points, entry_views, log_outcome, MetricLogger};
use crate::metric_store::MetricStore;

verus! {

/// Memory in use, from a reading of the total and the free memory: nothing
/// when the reading says more is free than there is.
pub fn memory_used(total: u64, free: u64) -> (r: Option<u64>)
    ensures
        r == if free <= total {
            Some((total - free) as u64)
        } else {
            None::<u64>
        },
{
    if free <= total {
        Some(total - free)
    } else {
        None
    }
}

/// The samples of one tick of host monitoring, as `(name, value)` entries:
/// memory in use, then CPU use, each where it could be read.
pub open spec fn system_entries(memory_used_bits: Option<u64>, cpu_used_bits: Option<u64>) -> Seq<
    (Seq<char>, u64),
> {
    let m = match memory_used_bits {
        Some(v) => seq![("system.memory.used"@, v)],
        None => Seq::empty(),
    };
    let c = match cpu_used_bits {
        Some(v) => seq![("system.cpu.used"@, v)],
        None => Seq::empty(),
    };
    m + c
}

/// The entries of one tick of host monitoring; values are bit patterns of
/// IEEE-754 doubles.
pub fn system_batch(memory_used_bits: Option<u64>, cpu_used_bits: Option<u64>) -> (r: Vec<(&'static str, u64)>)
    ensures
        entry_views(r@) == system_entries(memory_used_bits, cpu_used_bits),
{
    let mut out: Vec<(&'static str, u64)> = Vec::new();
    proof {
        reveal_strlit("system.memory.used");
        reveal_strlit("system.cpu.used");
    }
    match memory_used_bits {
        Some(v) => out.push(("system.memory.used", v)),
        None => {},
    }
    match cpu_used_bits {
        Some(v) => out.push(("system.cpu.used", v)),
        None => {},
    }
    assert(entry_views(out@) =~= system_entries(memory_used_bits, cpu_used_bits));
    out
}

/// Handles one tick of host monitoring: logs what could be sampled as one
/// batch, and logs nothing when nothing could.
pub fn record_system_sample<S: MetricStore>(
    logger: &mut MetricLogger,
    store: &mut S,
    memory_used_bits: Option<u64>,
    cpu_used_bits: Option<u64>,
) -> (r: Result<()>)
    ensures
        memory_used_bits is None && cpu_used_bits is None ==> {
            &&& *final(logger) == *old(logger)
            &&& *final(store) == *old(store)
            &&& r is Ok
        },
        memory_used_bits is Some || cpu_used_bits is Some ==> exists|t: i64|
            log_outcome(
                *old(logger),
                *final(logger),
                *old(store),
                *final(store),
                #[trigger] batch_points(old(logger).id(), system_entries(memory_used_bits, cpu_used_bits), t),
                r,
            ),
{
    let batch = system_batch(memory_used_bits, cpu_used_bits);
    assert(entry_views(batch@).len() == batch@.len());
    if batch.len() == 0 {
        return Ok(());
    }
    logger.log_batch(batch.as_slice(), store)
}

} // verus!
