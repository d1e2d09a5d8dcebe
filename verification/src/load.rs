//! Load averages, coloured relative to the number of cores.

use vstd::prelude::*;

use crate::config::Config;
use crate::util::{render_metric, rendered};

verus! {

/// Calls `num_cpus::get`, the number of logical cores that this process may
/// use. The number depends on the machine; claimed is only what the crate
/// documents of every outcome, that it is at least one.
#[verifier::external_body]
fn logical_cores() -> (cores: u64)
    ensures
        cores >= 1,
{
    num_cpus::get() as u64
}

/// Calls `num_cpus::get_physical`, the number of physical cores of the
/// machine. The number depends on the machine; claimed is only what the crate
/// documents of every outcome, that it is at least one.
#[verifier::external_body]
fn physical_cores() -> (cores: u64)
    ensures
        cores >= 1,
{
    num_cpus::get_physical() as u64
}

/// The core counts `(logical, physical)` to go by, and what is to be written
/// to the cache: the cached counts and nothing to write where there are any,
/// else the counts that were queried, which are also to be written.
pub open spec fn resolved(cached: Option<(u64, u64)>, queried: (u64, u64)) -> (
    (u64, u64),
    Option<(u64, u64)>,
) {
    match cached {
        Some(counts) => (counts, None),
        None => (queried, Some(queried)),
    }
}

/// Chooses between the cached core counts and those just queried, and says
/// what is to be written to the cache.
pub fn resolve_cores(cached: Option<(u64, u64)>, queried: (u64, u64)) -> (r: (
    (u64, u64),
    Option<(u64, u64)>,
))
    ensures
        r == resolved(cached, queried),
{
    match cached {
        Some(counts) => (counts, None),
        None => (queried, Some(queried)),
    }
}

/// Returns the core counts `(logical, physical)` and what is to be written
/// to the cache. The machine is queried only where nothing usable is cached;
/// the counts that it gives are then to be written.
pub fn core_counts(cached: Option<(u64, u64)>) -> (r: ((u64, u64), Option<(u64, u64)>))
    ensures
        cached is Some ==> r == resolved(cached, r.0),
        cached is None ==> r.1 == Some(r.0) && r.0.0 >= 1 && r.0.1 >= 1,
{
    match cached {
        Some(counts) => (counts, None),
        None => {
            let logical: u64 = logical_cores();
            let physical: u64 = physical_cores();
            resolve_cores(None, (logical, physical))
        },
    }
}

/// The core count that load is measured against: the physical one where the
/// configuration asks for it, else the logical one.
pub open spec fn cores_of(counts: (u64, u64), physical: bool) -> u64 {
    if physical {
        counts.1
    } else {
        counts.0
    }
}

/// Picks the core count that load is measured against.
pub fn cores(counts: (u64, u64), config: &Config) -> (n: u64)
    ensures
        n == cores_of(counts, config.physical),
{
    if config.physical {
        counts.1
    } else {
        counts.0
    }
}

/// One load average ready to be shown: the number as text and the colour of
/// its gradient step.
#[derive(Debug)]
pub struct LoadText {
    pub text: String,
    pub colour: String,
}

/// A template with the load tokens replaced, for as many of the averages
/// over one, five and fifteen minutes as `loads` holds, in this order: for
/// each first the colour token, then the value token. Averages behind the
/// third are not shown, and the tokens of a missing average stay.
pub open spec fn with_loads(
    template: Seq<char>,
    loads: Seq<LoadText>,
    policy: (usize, usize, usize),
) -> Seq<char> {
    let one = if loads.len() > 0 {
        rendered(template, "{gl1}"@, loads[0].colour@, "{l1}"@, loads[0].text@, policy)
    } else {
        template
    };
    let five = if loads.len() > 1 {
        rendered(one, "{gl5}"@, loads[1].colour@, "{l5}"@, loads[1].text@, policy)
    } else {
        one
    };
    if loads.len() > 2 {
        rendered(five, "{gl15}"@, loads[2].colour@, "{l15}"@, loads[2].text@, policy)
    } else {
        five
    }
}

/// Renders the load averages into the template: `{gl1}`, `{gl5}` and
/// `{gl15}` become the colours, `{l1}`, `{l5}` and `{l15}` the averages
/// fitted into their fields, for as many averages as `loads` holds.
pub fn format(fmtstr: &mut String, loads: &Vec<LoadText>, config: &Config)
    ensures
        final(fmtstr)@ == with_loads(old(fmtstr)@, loads@, config.policy()),
{
    let n: usize = loads.len();
    if n > 0 {
        render_metric(
            fmtstr,
            "{gl1}",
            loads[0].colour.as_str(),
            "{l1}",
            loads[0].text.as_str(),
            config,
        );
    }
    if n > 1 {
        render_metric(
            fmtstr,
            "{gl5}",
            loads[1].colour.as_str(),
            "{l5}",
            loads[1].text.as_str(),
            config,
        );
    }
    if n > 2 {
        render_metric(
            fmtstr,
            "{gl15}",
            loads[2].colour.as_str(),
            "{l15}",
            loads[2].text.as_str(),
            config,
        );
    }
}

} // verus!
