//! Memory in use.

use vstd::prelude::*;

use crate::config::Config;
use crate::util::{render_metric, rendered};

verus! {

/// The share of memory in use, as a numerator and a denominator: what is not
/// available, out of the total. None where more is said to be available than
/// there is in total.
pub open spec fn in_use_of(total: u64, available: u64) -> Option<(u64, u64)> {
    if available > total {
        None
    } else {
        Some(((total - available) as u64, total))
    }
}

/// Computes the share of memory in use, as a numerator and a denominator.
pub fn in_use(total: u64, available: u64) -> (share: Option<(u64, u64)>)
    ensures
        share == in_use_of(total, available),
{
    if available > total {
        None
    } else {
        Some((total - available, total))
    }
}

/// Renders the memory usage into the template: `{gm}` becomes `colour`,
/// `{m}` becomes the percentage `text` fitted into its field.
pub fn format(fmtstr: &mut String, text: &str, colour: &str, config: &Config)
    ensures
        final(fmtstr)@ == rendered(old(fmtstr)@, "{gm}"@, colour@, "{m}"@, text@, config.policy()),
{
    render_metric(fmtstr, "{gm}", colour, "{m}", text, config);
}

} // verus!
