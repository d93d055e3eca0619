//! The latency histogram of the `hdrhistogram` crate, as the library sees it.

use vstd::prelude::*;
use hdrhistogram::{CreationError, Histogram, RecordError};

verus! {

/// A `Histogram<u64>` of latencies. Verus sees none of its insides; what the
/// library relies on is stated by the names below and the wrappers.
#[verifier::external_body]
pub struct LatencyHistogram {
    pub inner: Histogram<u64>,
}

#[verifier::external_type_specification]
#[verifier::external_body]
pub struct ExCreationError(CreationError);

/// Why a histogram refused a value (the variants of `hdrhistogram::RecordError`).
#[derive(Clone, Copy, Debug, PartialEq, Eq, Structural)]
pub enum Refusal {
    /// The value is above what the histogram holds, and it does not resize.
    ValueOutOfRange,
    /// The histogram would resize for the value, and cannot.
    ResizeFailed,
}

/// The histogram's counts: for each value that some sample is counted under (the
/// lowest value equivalent to the samples, see `lowest_equivalent`), how many
/// samples it holds; values not in the domain hold none.
pub uninterp spec fn histogram_counts(h: LatencyHistogram) -> Map<u64, u64>;

/// Number of samples a histogram holds (what `Histogram::len` returns).
pub uninterp spec fn histogram_len(h: LatencyHistogram) -> u64;

/// Highest trackable value (what `Histogram::high` returns).
pub uninterp spec fn histogram_high(h: LatencyHistogram) -> u64;

/// Lowest discernible value (what `Histogram::low` returns).
pub uninterp spec fn histogram_low(h: LatencyHistogram) -> u64;

/// Significant decimal digits kept (what `Histogram::sigfig` returns).
pub uninterp spec fn histogram_sigfig(h: LatencyHistogram) -> u8;

/// Whether the histogram resizes itself for larger values (what
/// `Histogram::is_auto_resize` returns).
pub uninterp spec fn histogram_auto_resize(h: LatencyHistogram) -> bool;

/// The smallest value the histogram has no room for: every smaller value has a
/// counter, no value from it on has one (a limit that follows from how the
/// histogram was made).
pub uninterp spec fn histogram_room(h: LatencyHistogram) -> nat;

/// The lowest value equivalent to `value` in a histogram with lowest discernible
/// value `low` and `sigfig` significant digits (what `Histogram::lowest_equivalent`
/// returns: it depends on nothing else).
pub uninterp spec fn lowest_equivalent(low: u64, sigfig: u8, value: u64) -> u64;

/// What `Histogram::max` returns: the highest value equivalent to the largest
/// recorded one, or 0 when nothing was recorded since the histogram was made.
pub uninterp spec fn histogram_max(h: LatencyHistogram) -> u64;

/// What `Histogram::min_nz` returns: the lowest value equivalent to the smallest
/// recorded value not equivalent to 0, or `u64::MAX` when there is none.
pub uninterp spec fn histogram_min_nz(h: LatencyHistogram) -> u64;

/// The highest value equivalent to `value` in a histogram with lowest discernible
/// value `low` and `sigfig` significant digits (what
/// `Histogram::highest_equivalent` returns: it depends on nothing else).
pub uninterp spec fn highest_equivalent(low: u64, sigfig: u8, value: u64) -> u64;

/// `Histogram::max` after `value` is recorded: the larger of the two, except
/// that a zero recorded first into a histogram whose unit is above 1 leaves it 0.
pub open spec fn max_after(max: u64, low: u64, sigfig: u8, value: u64) -> u64 {
    if max == 0 && value == 0 && low != 1 {
        max
    } else if max >= highest_equivalent(low, sigfig, value) {
        max
    } else {
        highest_equivalent(low, sigfig, value)
    }
}

/// `Histogram::min_nz` after `value` is recorded: the smaller of the two, for a
/// value not equivalent to 0 and below `u64::MAX`.
pub open spec fn min_nz_after(min_nz: u64, low: u64, sigfig: u8, value: u64) -> u64 {
    if lowest_equivalent(low, sigfig, value) == 0 || value == u64::MAX {
        min_nz
    } else if min_nz <= lowest_equivalent(low, sigfig, value) {
        min_nz
    } else {
        lowest_equivalent(low, sigfig, value)
    }
}

/// The first of `base`, `2 * base`, `4 * base`, ... that is above `high`.
pub open spec fn doubled_past(base: nat, high: nat) -> nat
    recommends
        base > 0,
    decreases if base > high { 0 } else { high + 1 - base },
{
    if base == 0 || base > high {
        base
    } else {
        doubled_past(2 * base, high)
    }
}

/// Counts of an empty histogram.
pub open spec fn no_counts() -> Map<u64, u64> {
    Map::empty()
}

/// The counts after one more sample counted under `key`; a count saturates at
/// `u64::MAX`.
pub open spec fn counts_with(counts: Map<u64, u64>, key: u64) -> Map<u64, u64> {
    let c: u64 = if counts.contains_key(key) { counts[key] } else { 0 };
    counts.insert(key, if c == u64::MAX { u64::MAX } else { (c + 1) as u64 })
}

/// Calls `Histogram::<u64>::new_with_bounds`. The crate's source returns `Ok` for
/// `low == 1`, `high >= 2` and `sigfig <= 5`. The histogram it returns is empty,
/// does not resize itself, keeps `low`, `high` and `sigfig`, and has room above
/// `high`: with `low == 1` and three digits, counters are made for values up to
/// the first `2048 * 2^k` above `high` (for `high` below 2^62).
#[verifier::external_body]
pub(crate) fn new_histogram(low: u64, high: u64, sigfig: u8) -> (r: Result<LatencyHistogram, CreationError>)
    ensures
        low == 1 && 2 <= high && sigfig <= 5 ==> r is Ok,
        r matches Ok(h) ==> {
            &&& histogram_len(h) == 0
            &&& histogram_counts(h) == no_counts()
            &&& histogram_max(h) == 0
            &&& histogram_min_nz(h) == u64::MAX
            &&& histogram_high(h) == high
            &&& histogram_low(h) == low
            &&& histogram_sigfig(h) == sigfig
            &&& !histogram_auto_resize(h)
            &&& high < histogram_room(h)
        },
        r matches Ok(h) ==> (low == 1 && sigfig == 3 && high < 0x4000_0000_0000_0000u64
            ==> histogram_room(h) == doubled_past(2048, high as nat)),
{
    Histogram::<u64>::new_with_bounds(low, high, sigfig).map(|inner| LatencyHistogram { inner })
}

/// Calls `Histogram::record`. In the crate's source a value below the room
/// limit is counted under its lowest equivalent value, with no change to the
/// histogram's bounds; a histogram that does not resize refuses any other value
/// and changes nothing. A counted value adds one to the sample count and to its
/// counter, each saturating at `u64::MAX`, and moves the largest and smallest
/// recorded values as `max_after` and `min_nz_after` say. A histogram that resizes itself takes
/// larger values too, raising its bounds (or fails to resize and changes nothing).
#[verifier::external_body]
pub(crate) fn histogram_record(h: &mut LatencyHistogram, value: u64) -> (r: Result<(), Refusal>)
    ensures
        value < histogram_room(*old(h)) ==> r is Ok && histogram_high(*final(h)) == histogram_high(*old(h))
            && histogram_room(*final(h)) == histogram_room(*old(h)),
        !histogram_auto_resize(*old(h)) && value >= histogram_room(*old(h))
            ==> (r is Err && r->Err_0 == Refusal::ValueOutOfRange),
        r is Ok ==> {
            &&& histogram_len(*final(h)) == (if histogram_len(*old(h)) == u64::MAX {
                u64::MAX
            } else {
                (histogram_len(*old(h)) + 1) as u64
            })
            &&& histogram_counts(*final(h)) == counts_with(
                histogram_counts(*old(h)),
                lowest_equivalent(histogram_low(*old(h)), histogram_sigfig(*old(h)), value),
            )
            &&& histogram_max(*final(h)) == max_after(
                histogram_max(*old(h)),
                histogram_low(*old(h)),
                histogram_sigfig(*old(h)),
                value,
            )
            &&& histogram_min_nz(*final(h)) == min_nz_after(
                histogram_min_nz(*old(h)),
                histogram_low(*old(h)),
                histogram_sigfig(*old(h)),
                value,
            )
            &&& histogram_low(*final(h)) == histogram_low(*old(h))
            &&& histogram_sigfig(*final(h)) == histogram_sigfig(*old(h))
            &&& histogram_auto_resize(*final(h)) == histogram_auto_resize(*old(h))
            &&& histogram_high(*old(h)) <= histogram_high(*final(h))
            &&& histogram_room(*old(h)) <= histogram_room(*final(h))
        },
        r is Err ==> *final(h) == *old(h),
{
    match h.inner.record(value) {
        Ok(()) => Ok(()),
        Err(RecordError::ValueOutOfRangeResizeDisabled) => Err(Refusal::ValueOutOfRange),
        Err(RecordError::ResizeFailedUsizeTypeTooSmall) => Err(Refusal::ResizeFailed),
    }
}

/// Calls `Histogram::reset`: the crate's source empties the histogram, resets its
/// largest and smallest recorded values, and keeps its configuration.
#[verifier::external_body]
pub(crate) fn histogram_reset(h: &mut LatencyHistogram)
    ensures
        histogram_len(*final(h)) == 0,
        histogram_counts(*final(h)) == no_counts(),
        histogram_max(*final(h)) == highest_equivalent(histogram_low(*old(h)), histogram_sigfig(*old(h)), 0),
        histogram_min_nz(*final(h)) == u64::MAX,
        histogram_high(*final(h)) == histogram_high(*old(h)),
        histogram_low(*final(h)) == histogram_low(*old(h)),
        histogram_sigfig(*final(h)) == histogram_sigfig(*old(h)),
        histogram_auto_resize(*final(h)) == histogram_auto_resize(*old(h)),
        histogram_room(*final(h)) == histogram_room(*old(h)),
{
    h.inner.reset()
}

} // verus!
