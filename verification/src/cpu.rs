//! Processor usage since the previous sample.

use vstd::prelude::*;

use crate::config::Config;
use crate::record::{counter_delta, wrapped_difference};
use crate::util::{render_metric, rendered};

verus! {

/// Why the processor's time counters could not be summed.
#[derive(Debug, Clone, Copy, PartialEq, Eq, Structural)]
pub enum CpuError {
    /// Fewer than the eight counters that are needed were given.
    MissingField,
    /// The total of the counters does not fit 64 bits.
    Overflow,
}

/// Time spent working: user, nice, system, irq, softirq and steal, which are
/// the first three counters and the sixth to eighth.
pub open spec fn busy_time(fields: Seq<u64>) -> int {
    fields[0] + fields[1] + fields[2] + fields[5] + fields[6] + fields[7]
}

/// All time: the time spent working, idle and waiting for I/O.
pub open spec fn total_time(fields: Seq<u64>) -> int {
    busy_time(fields) + fields[3] + fields[4]
}

/// The snapshot `(non-idle, total)` that the counters give.
pub open spec fn jiffies_of(fields: Seq<u64>) -> Result<(u64, u64), CpuError> {
    if fields.len() < 8 {
        Err(CpuError::MissingField)
    } else if total_time(fields) > u64::MAX {
        Err(CpuError::Overflow)
    } else {
        Ok((busy_time(fields) as u64, total_time(fields) as u64))
    }
}

/// Sums the processor's time counters, given in the order user, nice, system,
/// idle, iowait, irq, softirq, steal, into non-idle and total time. Counters
/// behind the eighth are not read.
pub fn jiffies(fields: &Vec<u64>) -> (snapshot: Result<(u64, u64), CpuError>)
    ensures
        snapshot == jiffies_of(fields@),
{
    if fields.len() < 8 {
        return Err(CpuError::MissingField);
    }
    let busy: u128 = fields[0] as u128 + fields[1] as u128 + fields[2] as u128 + fields[5] as u128
        + fields[6] as u128 + fields[7] as u128;
    let total: u128 = busy + fields[3] as u128 + fields[4] as u128;
    if total > u64::MAX as u128 {
        return Err(CpuError::Overflow);
    }
    Ok((busy as u64, total as u64))
}

/// The previous snapshot to compare with: the cached one, or, where there is
/// none, the current non-idle time and a total of one.
pub open spec fn prior_of(prior: Option<(u64, u64)>, nonidle: u64) -> (u64, u64) {
    match prior {
        Some(p) => p,
        None => (nonidle, 1u64),
    }
}

/// The share of time spent working since the previous snapshot, as a
/// numerator and a denominator: nothing out of one where the non-idle time
/// has not moved, else the advance of the non-idle time out of the advance of
/// the total, both counted across a wrap-around.
pub open spec fn usage_of(nonidle: u64, total: u64, prior: Option<(u64, u64)>) -> (u64, u64) {
    let p = prior_of(prior, nonidle);
    if nonidle == p.0 {
        (0u64, 1u64)
    } else {
        (wrapped_difference(nonidle, p.0) as u64, wrapped_difference(total, p.1) as u64)
    }
}

/// Computes the share of time spent working since the previous snapshot, as
/// a numerator and a denominator. The denominator is zero where only the
/// non-idle time has moved.
pub fn usage(nonidle: u64, total: u64, prior: Option<(u64, u64)>) -> (share: (u64, u64))
    ensures
        share == usage_of(nonidle, total, prior),
        prior_of(prior, nonidle).0 == nonidle ==> share == (0u64, 1u64),
        prior_of(prior, nonidle).0 != nonidle ==> share.0 > 0,
{
    let (nonidle_before, total_before) = match prior {
        Some(p) => p,
        None => (nonidle, 1u64),
    };
    if nonidle == nonidle_before {
        (0, 1)
    } else {
        (counter_delta(nonidle, nonidle_before), counter_delta(total, total_before))
    }
}

/// Renders the processor usage into the template: `{gc}` becomes `colour`,
/// `{c}` becomes the percentage `text` fitted into its field.
pub fn format(fmtstr: &mut String, text: &str, colour: &str, config: &Config)
    ensures
        final(fmtstr)@ == rendered(old(fmtstr)@, "{gc}"@, colour@, "{c}"@, text@, config.policy()),
{
    render_metric(fmtstr, "{gc}", colour, "{c}", text, config);
}

} // verus!
