//! Network throughput since the previous sample.

use vstd::prelude::*;

use crate::config::Config;
use crate::record::{counter_delta, wrapped_difference};
use crate::text::{chars_of, starts_at};
use crate::util::{fitted, format_metric, replace_matches, replaced};

verus! {

/// The byte counters of one network interface.
#[derive(Debug)]
pub struct InterfaceSample {
    /// The interface's name; colons at its end, with which its source may
    /// give it, do not count.
    pub name: String,
    /// Bytes received so far.
    pub rx: u64,
    /// Bytes transmitted so far.
    pub tx: u64,
}

/// Why the interfaces' counters could not be summed.
#[derive(Debug, Clone, Copy, PartialEq, Eq, Structural)]
pub enum NetError {
    /// No interface was selected.
    NoInterface,
    /// A sum does not fit 64 bits.
    Overflow,
}

/// `name` without the colons at its end.
pub open spec fn trimmed(name: Seq<char>) -> Seq<char>
    decreases name.len(),
{
    if name.len() > 0 && name.last() == ':' {
        trimmed(name.drop_last())
    } else {
        name
    }
}

/// Whether `name` is that of the loopback interface, `lo`.
pub open spec fn is_loopback(name: Seq<char>) -> bool {
    trimmed(name) == seq!['l', 'o']
}

/// The filter entry `..`, which selects every interface.
pub open spec fn everything() -> Seq<char> {
    seq!['.', '.']
}

/// Whether `name` is an entry of `filter`.
pub open spec fn listed(name: Seq<char>, filter: Seq<String>) -> bool {
    exists|i: int| 0 <= i < filter.len() && (#[trigger] filter[i])@ == name
}

/// Whether an interface is counted: with an empty filter every interface but
/// loopback; else those whose name, without the colons at its end, the filter
/// lists, or all where it lists `..`.
pub open spec fn selected(name: Seq<char>, filter: Seq<String>) -> bool {
    if filter.len() == 0 {
        !is_loopback(name)
    } else {
        listed(trimmed(name), filter) || listed(everything(), filter)
    }
}

fn same_text(a: &Vec<char>, b: &Vec<char>) -> (same: bool)
    ensures
        same == (a@ == b@),
{
    if a.len() != b.len() {
        return false;
    }
    assert(a@.subrange(0, a@.len() as int) =~= a@);
    starts_at(a, b, 0)
}

fn without_colons(name: &Vec<char>) -> (bare: Vec<char>)
    ensures
        bare@ == trimmed(name@),
{
    let mut k: usize = name.len();
    assert(name@.subrange(0, k as int) =~= name@);
    while k > 0 && name[k - 1] == ':'
        invariant
            k <= name@.len(),
            trimmed(name@) == trimmed(name@.subrange(0, k as int)),
        decreases k,
    {
        assert(name@.subrange(0, k as int).drop_last() =~= name@.subrange(0, k - 1));
        k -= 1;
    }
    let mut bare: Vec<char> = Vec::new();
    let mut i: usize = 0;
    while i < k
        invariant
            i <= k <= name@.len(),
            bare@ == name@.subrange(0, i as int),
        decreases k - i,
    {
        bare.push(name[i]);
        i += 1;
        assert(bare@ =~= name@.subrange(0, i as int));
    }
    bare
}

fn loopback(bare: &Vec<char>) -> (lo: bool)
    ensures
        lo == (bare@ == seq!['l', 'o']),
{
    let lo: bool = bare.len() == 2 && bare[0] == 'l' && bare[1] == 'o';
    assert(lo == (bare@ =~= seq!['l', 'o']));
    lo
}

fn is_listed(name: &Vec<char>, filter: &Vec<String>) -> (found: bool)
    ensures
        found == listed(name@, filter@),
{
    let n: usize = filter.len();
    let mut i: usize = 0;
    while i < n
        invariant
            n == filter@.len(),
            i <= n,
            forall|j: int| 0 <= j < i ==> (#[trigger] filter@[j])@ != name@,
        decreases n - i,
    {
        let entry: Vec<char> = chars_of(filter[i].as_str());
        if same_text(&entry, name) {
            return true;
        }
        i += 1;
    }
    false
}

/// Decides whether the interface called `name` is counted under `filter`.
pub fn is_selected(name: &str, filter: &Vec<String>) -> (counted: bool)
    ensures
        counted == selected(name@, filter@),
{
    let chars: Vec<char> = chars_of(name);
    let bare: Vec<char> = without_colons(&chars);
    if filter.len() == 0 {
        !loopback(&bare)
    } else {
        let mut dots: Vec<char> = Vec::new();
        dots.push('.');
        dots.push('.');
        assert(dots@ =~= everything());
        is_listed(&bare, filter) || is_listed(&dots, filter)
    }
}

/// The loopback interface is left out where no filter is configured.
pub proof fn loopback_left_out_by_default(name: Seq<char>)
    requires
        is_loopback(name),
    ensures
        !selected(name, Seq::<String>::empty()),
{
}

/// An interface that the filter lists by its bare name is counted, however
/// many colons its source puts behind the name.
pub proof fn listed_name_is_selected(name: Seq<char>, filter: Seq<String>)
    requires
        listed(trimmed(name), filter),
    ensures
        selected(name, filter),
{
}

/// A filter that lists `..` selects every interface, loopback included.
pub proof fn everything_selects_all(name: Seq<char>, filter: Seq<String>)
    requires
        listed(everything(), filter),
    ensures
        selected(name, filter),
{
}

/// How many of the first `upto` interfaces are selected.
pub open spec fn matched(rows: Seq<InterfaceSample>, filter: Seq<String>, upto: int) -> nat
    decreases upto,
{
    if upto <= 0 {
        0
    } else {
        matched(rows, filter, upto - 1) + if selected(rows[upto - 1].name@, filter) {
            1nat
        } else {
            0nat
        }
    }
}

/// The bytes received by the selected ones among the first `upto` interfaces.
pub open spec fn received(rows: Seq<InterfaceSample>, filter: Seq<String>, upto: int) -> nat
    decreases upto,
{
    if upto <= 0 {
        0
    } else {
        received(rows, filter, upto - 1) + if selected(rows[upto - 1].name@, filter) {
            rows[upto - 1].rx as nat
        } else {
            0nat
        }
    }
}

/// The bytes transmitted by the selected ones among the first `upto`
/// interfaces.
pub open spec fn transmitted(rows: Seq<InterfaceSample>, filter: Seq<String>, upto: int) -> nat
    decreases upto,
{
    if upto <= 0 {
        0
    } else {
        transmitted(rows, filter, upto - 1) + if selected(rows[upto - 1].name@, filter) {
            rows[upto - 1].tx as nat
        } else {
            0nat
        }
    }
}

/// The snapshot `(received, transmitted)` over the selected interfaces.
pub open spec fn traffic_of(rows: Seq<InterfaceSample>, filter: Seq<String>) -> Result<
    (u64, u64),
    NetError,
> {
    let n = rows.len() as int;
    if matched(rows, filter, n) == 0 {
        Err(NetError::NoInterface)
    } else if received(rows, filter, n) > u64::MAX || transmitted(rows, filter, n) > u64::MAX {
        Err(NetError::Overflow)
    } else {
        Ok((received(rows, filter, n) as u64, transmitted(rows, filter, n) as u64))
    }
}

/// Sums the bytes received and transmitted over the interfaces that `filter`
/// selects.
pub fn traffic(rows: &Vec<InterfaceSample>, filter: &Vec<String>) -> (snapshot: Result<
    (u64, u64),
    NetError,
>)
    ensures
        snapshot == traffic_of(rows@, filter@),
{
    let n: usize = rows.len();
    let mut any: bool = false;
    let mut rx: u128 = 0;
    let mut tx: u128 = 0;
    let mut i: usize = 0;
    while i < n
        invariant
            n == rows@.len(),
            i <= n,
            any == (matched(rows@, filter@, i as int) > 0),
            rx == received(rows@, filter@, i as int),
            tx == transmitted(rows@, filter@, i as int),
            rx <= i * 0xFFFF_FFFF_FFFF_FFFF,
            tx <= i * 0xFFFF_FFFF_FFFF_FFFF,
        decreases n - i,
    {
        if is_selected(rows[i].name.as_str(), filter) {
            any = true;
            rx = rx + rows[i].rx as u128;
            tx = tx + rows[i].tx as u128;
        }
        i += 1;
    }
    if !any {
        Err(NetError::NoInterface)
    } else if rx > u64::MAX as u128 || tx > u64::MAX as u128 {
        Err(NetError::Overflow)
    } else {
        Ok((rx as u64, tx as u64))
    }
}

/// The bytes received and transmitted since the previous snapshot, counted
/// across a wrap-around; nothing where there is no previous snapshot.
pub open spec fn deltas_of(rx: u64, tx: u64, prior: Option<(u64, u64)>) -> (u64, u64) {
    match prior {
        Some(p) => (wrapped_difference(rx, p.0) as u64, wrapped_difference(tx, p.1) as u64),
        None => (0u64, 0u64),
    }
}

/// Computes the bytes received and transmitted since the previous snapshot.
pub fn deltas(rx: u64, tx: u64, prior: Option<(u64, u64)>) -> (moved: (u64, u64))
    ensures
        moved == deltas_of(rx, tx, prior),
{
    match prior {
        Some(p) => (counter_delta(rx, p.0), counter_delta(tx, p.1)),
        None => (0, 0),
    }
}

/// The power of 1024 by which a byte count is divided for display: the
/// smallest of the first four that brings it below 1024, or the fourth, which
/// goes with the largest unit.
pub open spec fn divisor_of(bytes: u64) -> u64 {
    if bytes < 0x10_0000 {
        0x400
    } else if bytes < 0x4000_0000 {
        0x10_0000
    } else if bytes < 0x100_0000_0000 {
        0x4000_0000
    } else {
        0x100_0000_0000
    }
}

/// The unit shown behind a byte count divided by `divisor`.
pub open spec fn unit_of(divisor: u64) -> Seq<char> {
    if divisor == 0x400 {
        "K"@
    } else if divisor == 0x10_0000 {
        "M"@
    } else if divisor == 0x4000_0000 {
        "G"@
    } else {
        "T"@
    }
}

/// Chooses the scale at which a byte count is shown: the number to divide it
/// by, and the unit to show behind the quotient.
pub fn format_net_bytes(bytes: u64) -> (scale: (u64, &'static str))
    ensures
        scale.0 == divisor_of(bytes),
        scale.1@ == unit_of(scale.0),
        bytes / scale.0 < 1024 || scale.0 == 0x100_0000_0000,
{
    if bytes < 0x10_0000 {
        (0x400, "K")
    } else if bytes < 0x4000_0000 {
        (0x10_0000, "M")
    } else if bytes < 0x100_0000_0000 {
        (0x4000_0000, "G")
    } else {
        (0x100_0000_0000, "T")
    }
}

/// A template with the network tokens replaced, in the order `{d}`, `{du}`,
/// `{u}`, `{uu}`: the two amounts fitted into their fields, the units as
/// they are.
pub open spec fn with_traffic(
    template: Seq<char>,
    down: Seq<char>,
    down_unit: Seq<char>,
    up: Seq<char>,
    up_unit: Seq<char>,
    policy: (usize, usize, usize),
) -> Seq<char> {
    replaced(
        replaced(
            replaced(
                replaced(template, "{d}"@, fitted(down, policy.0 as nat, policy.1 as nat)),
                "{du}"@,
                down_unit,
            ),
            "{u}"@,
            fitted(up, policy.0 as nat, policy.1 as nat),
        ),
        "{uu}"@,
        up_unit,
    )
}

/// Renders the network throughput into the template: `{d}` and `{u}` become
/// the scaled amounts received and transmitted, fitted into their fields,
/// `{du}` and `{uu}` their units.
pub fn format(
    fmtstr: &mut String,
    down: &str,
    down_unit: &str,
    up: &str,
    up_unit: &str,
    config: &Config,
)
    ensures
        final(fmtstr)@ == with_traffic(
            old(fmtstr)@,
            down@,
            down_unit@,
            up@,
            up_unit@,
            config.policy(),
        ),
{
    let down_field: String = format_metric(down, config);
    let up_field: String = format_metric(up, config);
    replace_matches(fmtstr, "{d}", down_field.as_str());
    replace_matches(fmtstr, "{du}", down_unit);
    replace_matches(fmtstr, "{u}", up_field.as_str());
    replace_matches(fmtstr, "{uu}", up_unit);
}

} // verus!
