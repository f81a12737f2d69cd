//! The record kept of one timed operation: its name, how long it took, how
//! much resident memory and CPU time it used, and how it ended.

use vstd::prelude::*;

verus! {

/// Resident set size (KiB) and consumed CPU time (µs) of the process at one
/// moment.
#[derive(Debug, Clone, Copy)]
pub struct ResourceSample {
    pub rss_kb: u64,
    pub cpu_us: u64,
}

/// How an operation ended: successfully, or with an error's display text.
#[derive(Debug, Clone, Copy)]
pub enum OpOutcome<'a> {
    Succeeded,
    Failed(&'a str),
}

/// One timed operation.
#[derive(Debug, Clone, Copy)]
pub struct OpRecord<'a> {
    pub name: &'a str,
    pub duration_ms: u64,
    pub rss_kb_delta: Option<i64>,
    pub cpu_us_delta: Option<i64>,
    pub outcome: OpOutcome<'a>,
}

/// The value a `u64` has when its bits are read as a two's-complement `i64`.
pub open spec fn as_signed(x: u64) -> int {
    if x <= i64::MAX {
        x as int
    } else {
        x - 0x1_0000_0000_0000_0000
    }
}

/// `after - before`, both read as `i64`, is itself an `i64`.
pub open spec fn delta_fits(after: u64, before: u64) -> bool {
    i64::MIN <= as_signed(after) - as_signed(before) <= i64::MAX
}

/// Both resource differences between two samples are `i64`s, where there
/// are two samples.
pub open spec fn deltas_fit(before: Option<ResourceSample>, after: Option<ResourceSample>) -> bool {
    match (before, after) {
        (Some(b), Some(a)) => delta_fits(a.rss_kb, b.rss_kb) && delta_fits(a.cpu_us, b.cpu_us),
        _ => true,
    }
}

/// The resident-memory and CPU-time differences between two samples; none
/// where either sample is missing.
pub open spec fn spec_resource_deltas(
    before: Option<ResourceSample>,
    after: Option<ResourceSample>,
) -> (Option<i64>, Option<i64>) {
    match (before, after) {
        (Some(b), Some(a)) => (
            Some((as_signed(a.rss_kb) - as_signed(b.rss_kb)) as i64),
            Some((as_signed(a.cpu_us) - as_signed(b.cpu_us)) as i64),
        ),
        _ => (None, None),
    }
}

/// The outcome an operation's error label stands for.
pub open spec fn outcome_of<'a>(err_label: Option<&'a str>) -> OpOutcome<'a> {
    match err_label {
        None => OpOutcome::Succeeded,
        Some(s) => OpOutcome::Failed(s),
    }
}

/// `x` read as a two's-complement `i64`.
fn signed(x: u64) -> (r: i64)
    ensures
        r == as_signed(x),
{
    if x <= 0x7fff_ffff_ffff_ffff {
        x as i64
    } else {
        ((x - 0x8000_0000_0000_0000) as i64) + i64::MIN
    }
}

/// Whether `after - before`, both read as `i64`, is itself an `i64`.
fn delta_fits_exec(after: u64, before: u64) -> (r: bool)
    ensures
        r == delta_fits(after, before),
{
    let d: i128 = (signed(after) as i128) - (signed(before) as i128);
    -0x8000_0000_0000_0000 <= d && d <= 0x7fff_ffff_ffff_ffff
}

/// Whether both resource differences between two samples are `i64`s.
pub fn resource_deltas_fit(before: Option<ResourceSample>, after: Option<ResourceSample>) -> (r: bool)
    ensures
        r == deltas_fit(before, after),
        samples_below_i64_max(before) && samples_below_i64_max(after) ==> r,
{
    match (before, after) {
        (Some(b), Some(a)) => delta_fits_exec(a.rss_kb, b.rss_kb) && delta_fits_exec(a.cpu_us, b.cpu_us),
        _ => true,
    }
}

/// `after - before`, both read as `i64`.
pub fn sample_delta(after: u64, before: u64) -> (r: i64)
    requires
        delta_fits(after, before),
    ensures
        r == as_signed(after) - as_signed(before),
{
    signed(after) - signed(before)
}

/// The resident-memory and CPU-time differences between two samples.
pub fn resource_deltas(before: Option<ResourceSample>, after: Option<ResourceSample>) -> (r: (
    Option<i64>,
    Option<i64>,
))
    requires
        deltas_fit(before, after),
    ensures
        r == spec_resource_deltas(before, after),
{
    match (before, after) {
        (Some(b), Some(a)) => (
            Some(sample_delta(a.rss_kb, b.rss_kb)),
            Some(sample_delta(a.cpu_us, b.cpu_us)),
        ),
        _ => (None, None),
    }
}

/// A millisecond count narrowed to `u64`, keeping its low 64 bits.
pub fn millis_u64(ms: u128) -> (r: u64)
    ensures
        r == ms % 0x1_0000_0000_0000_0000,
{
    (ms % 0x1_0000_0000_0000_0000) as u64
}

/// The record of the operation `name` that took `elapsed_ms`, with resource
/// samples taken before and after it and, where it failed, its error's
/// display text.
pub fn op_record<'a>(
    name: &'a str,
    elapsed_ms: u128,
    before: Option<ResourceSample>,
    after: Option<ResourceSample>,
    err_label: Option<&'a str>,
) -> (r: OpRecord<'a>)
    requires
        deltas_fit(before, after),
    ensures
        r.name == name,
        r.duration_ms == elapsed_ms % 0x1_0000_0000_0000_0000,
        (r.rss_kb_delta, r.cpu_us_delta) == spec_resource_deltas(before, after),
        r.outcome == outcome_of(err_label),
{
    let (rss_kb_delta, cpu_us_delta) = resource_deltas(before, after);
    let outcome = match err_label {
        None => OpOutcome::Succeeded,
        Some(s) => OpOutcome::Failed(s),
    };
    OpRecord { name, duration_ms: millis_u64(elapsed_ms), rss_kb_delta, cpu_us_delta, outcome }
}

/// Both readings of a sample, if there is one, are at most `i64::MAX`.
pub open spec fn samples_below_i64_max(s: Option<ResourceSample>) -> bool {
    match s {
        Some(x) => x.rss_kb <= 0x7fff_ffff_ffff_ffff && x.cpu_us <= 0x7fff_ffff_ffff_ffff,
        None => true,
    }
}

/// A reading up to `i64::MAX` is read as itself and a larger one as negative;
/// any two readings up to `i64::MAX` have a difference that fits, whether the
/// value grew or shrank.
pub proof fn law_small_readings_fit(after: u64, before: u64)
    ensures
        after <= 0x7fff_ffff_ffff_ffff ==> as_signed(after) == after,
        after > 0x7fff_ffff_ffff_ffff ==> as_signed(after) < 0,
        after <= 0x7fff_ffff_ffff_ffff && before <= 0x7fff_ffff_ffff_ffff ==> delta_fits(after, before),
{
}

/// Samples whose readings are at most `i64::MAX` always fit, and their
/// deltas are the plain differences `after - before`, negative when the value
/// shrank; a missing sample gives no deltas.
pub proof fn law_resource_deltas_of_small_samples(b: ResourceSample, a: ResourceSample)
    ensures
        samples_below_i64_max(Some(b)) && samples_below_i64_max(Some(a)) ==> deltas_fit(Some(b), Some(a))
            && spec_resource_deltas(Some(b), Some(a)) == (
            Some((a.rss_kb - b.rss_kb) as i64),
            Some((a.cpu_us - b.cpu_us) as i64),
        ),
        deltas_fit(None, Some(a)) && deltas_fit(Some(b), None) && deltas_fit(None, None),
        spec_resource_deltas(None, Some(a)) == (None::<i64>, None::<i64>),
        spec_resource_deltas(Some(b), None) == (None::<i64>, None::<i64>),
{
}

/// An operation is recorded as succeeded exactly when it has no error label,
/// and a failed one carries its label.
pub proof fn law_outcome_of(err_label: Option<&str>)
    ensures
        err_label is None <==> outcome_of(err_label) is Succeeded,
        err_label matches Some(l) ==> outcome_of(err_label) == OpOutcome::Failed(l),
{
}

} // verus!
