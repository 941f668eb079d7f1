//! What holds of every run of samples.
//!
//! A run is the sequence of samples that a watchdog takes in, in order, all
//! devices mixed. The theorems here follow one device through a run.

use crate::percent::Percent;
use crate::watchdog::{fires_at, is_low, lemma_run_step, run, Sample, WatchdogView};
use vstd::prelude::*;

verus! {

/// The samples of one device, in the order of the run.
pub open spec fn samples_of(samples: Seq<Sample>, device: u64) -> Seq<Sample> {
    samples.filter(|sample: Sample| sample.device == device)
}

/// Whether the device reports no charging strictly between two places of a
/// run.
pub open spec fn no_charging_between(
    samples: Seq<Sample>,
    device: u64,
    from: int,
    to: int,
) -> bool {
    forall|m: int|
        from < m < to && (#[trigger] samples[m]).device == device ==> !(samples[m].state is Charging)
}

/// No run changes the threshold.
pub proof fn lemma_run_keeps_threshold(start: WatchdogView, samples: Seq<Sample>)
    ensures
        run(start, samples).threshold == start.threshold,
    decreases samples.len(),
{
    if samples.len() > 0 {
        lemma_run_keeps_threshold(start, samples.drop_last());
    }
}

/// A clear flag stays clear while the device shows no low sample.
pub proof fn lemma_flag_stays_clear(
    start: WatchdogView,
    samples: Seq<Sample>,
    device: u64,
    from: int,
    to: int,
)
    requires
        0 <= from <= to <= samples.len(),
        !run(start, samples.take(from)).notified.contains(device),
        forall|i: int|
            from <= i < to && (#[trigger] samples[i]).device == device ==> !is_low(
                start.threshold,
                samples[i],
            ),
    ensures
        !run(start, samples.take(to)).notified.contains(device),
    decreases to - from,
{
    if from < to {
        lemma_flag_stays_clear(start, samples, device, from, to - 1);
        lemma_run_keeps_threshold(start, samples.take(to - 1));
        lemma_run_step(start, samples, to - 1);
    }
}

/// A set flag stays set while the device reports no charging.
pub proof fn lemma_flag_stays_set(
    start: WatchdogView,
    samples: Seq<Sample>,
    device: u64,
    from: int,
    to: int,
)
    requires
        0 <= from <= to <= samples.len(),
        run(start, samples.take(from)).notified.contains(device),
        forall|i: int|
            from <= i < to && (#[trigger] samples[i]).device == device ==> !(samples[i].state
                is Charging),
    ensures
        run(start, samples.take(to)).notified.contains(device),
    decreases to - from,
{
    if from < to {
        lemma_flag_stays_set(start, samples, device, from, to - 1);
        lemma_run_step(start, samples, to - 1);
    }
}

/// A low sample on a clear flag calls for the command and sets the flag;
/// from there on the device calls for nothing until it reports charging.
pub proof fn lemma_fires_then_rests(
    start: WatchdogView,
    samples: Seq<Sample>,
    device: u64,
    k: int,
)
    requires
        0 <= k < samples.len(),
        samples[k].device == device,
        is_low(start.threshold, samples[k]),
        !run(start, samples.take(k)).notified.contains(device),
    ensures
        fires_at(start, samples, k),
        forall|j: int|
            k < j < samples.len() && (#[trigger] samples[j]).device == device
                && no_charging_between(samples, device, k, j) ==> !fires_at(start, samples, j),
{
    lemma_run_keeps_threshold(start, samples.take(k));
    lemma_run_step(start, samples, k);
    assert forall|j: int|
        k < j < samples.len() && (#[trigger] samples[j]).device == device && no_charging_between(
            samples,
            device,
            k,
            j,
        ) implies !fires_at(start, samples, j) by {
        lemma_flag_stays_set(start, samples, device, k + 1, j);
    }
}

/// A device that is discharging at or above the threshold on every poll
/// never calls for the command, whatever state the run starts in.
pub proof fn theorem_never_fires_at_or_above_threshold(
    start: WatchdogView,
    samples: Seq<Sample>,
    device: u64,
)
    requires
        forall|i: int|
            0 <= i < samples.len() && (#[trigger] samples[i]).device == device ==> {
                &&& samples[i].state is Discharging
                &&& samples[i].percent.at_least(start.threshold)
            },
    ensures
        forall|i: int|
            0 <= i < samples.len() && (#[trigger] samples[i]).device == device ==> !fires_at(
                start,
                samples,
                i,
            ),
{
    assert forall|i: int|
        0 <= i < samples.len() && (#[trigger] samples[i]).device == device implies !fires_at(
        start,
        samples,
        i,
    ) by {
        lemma_run_keeps_threshold(start, samples.take(i));
    }
}

/// From the initial state, a device that discharges at or above the
/// threshold and then drops below it calls for the command exactly once:
/// at the first sample below the threshold, at none before it, and at none
/// after it until the device reports charging.
pub proof fn theorem_fires_once_at_crossing(
    threshold: Percent,
    samples: Seq<Sample>,
    device: u64,
    k: int,
)
    requires
        0 <= k < samples.len(),
        forall|i: int|
            0 <= i < k && (#[trigger] samples[i]).device == device ==> {
                &&& samples[i].state is Discharging
                &&& samples[i].percent.at_least(threshold)
            },
        samples[k].device == device,
        samples[k].state is Discharging,
        samples[k].percent.spec_less_than(threshold),
    ensures
        fires_at(WatchdogView::initial(threshold), samples, k),
        forall|i: int|
            0 <= i < k && (#[trigger] samples[i]).device == device ==> !fires_at(
                WatchdogView::initial(threshold),
                samples,
                i,
            ),
        forall|j: int|
            k < j < samples.len() && (#[trigger] samples[j]).device == device
                && no_charging_between(samples, device, k, j) ==> !fires_at(
                WatchdogView::initial(threshold),
                samples,
                j,
            ),
{
    let start = WatchdogView::initial(threshold);
    assert(samples.take(0) =~= Seq::empty());
    lemma_flag_stays_clear(start, samples, device, 0, k);
    lemma_fires_then_rests(start, samples, device, k);
    assert forall|i: int| 0 <= i < k && (#[trigger] samples[i]).device == device implies !fires_at(
        start,
        samples,
        i,
    ) by {
        lemma_run_keeps_threshold(start, samples.take(i));
    }
}

/// Charging clears the flag: after a charging sample, the device's next low
/// sample calls for the command, whatever went before, and then the device
/// calls for nothing more until it reports charging again.
pub proof fn theorem_fires_again_after_charging(
    start: WatchdogView,
    samples: Seq<Sample>,
    device: u64,
    c: int,
    k: int,
)
    requires
        0 <= c < k < samples.len(),
        samples[c].device == device,
        samples[c].state is Charging,
        forall|i: int|
            c < i < k && (#[trigger] samples[i]).device == device ==> !is_low(
                start.threshold,
                samples[i],
            ),
        samples[k].device == device,
        is_low(start.threshold, samples[k]),
    ensures
        forall|i: int|
            c <= i < k && (#[trigger] samples[i]).device == device ==> !fires_at(
                start,
                samples,
                i,
            ),
        fires_at(start, samples, k),
        forall|j: int|
            k < j < samples.len() && (#[trigger] samples[j]).device == device
                && no_charging_between(samples, device, k, j) ==> !fires_at(start, samples, j),
{
    lemma_run_step(start, samples, c);
    lemma_flag_stays_clear(start, samples, device, c + 1, k);
    lemma_fires_then_rests(start, samples, device, k);
    assert forall|i: int| c <= i < k && (#[trigger] samples[i]).device == device implies !fires_at(
        start,
        samples,
        i,
    ) by {
        lemma_run_keeps_threshold(start, samples.take(i));
    }
}

/// The comparison is strict: a sample whose charge equals the threshold
/// calls for nothing, in any state.
pub proof fn theorem_charge_equal_to_threshold_never_fires(state: WatchdogView, sample: Sample)
    requires
        sample.percent.same_value(state.threshold),
    ensures
        !state.calls_for_command(sample),
        !is_low(state.threshold, sample),
{
}

/// The command is called for at most once between two charges: between two
/// samples of a device that call for it, the device has reported charging.
pub proof fn theorem_firings_are_separated_by_charging(
    start: WatchdogView,
    samples: Seq<Sample>,
    device: u64,
    first: int,
    second: int,
)
    requires
        0 <= first < second < samples.len(),
        samples[first].device == device,
        samples[second].device == device,
        fires_at(start, samples, first),
        fires_at(start, samples, second),
    ensures
        exists|m: int|
            first < m < second && (#[trigger] samples[m]).device == device && samples[m].state
                is Charging,
{
    if no_charging_between(samples, device, first, second) {
        lemma_run_keeps_threshold(start, samples.take(first));
        lemma_fires_then_rests(start, samples, device, first);
        assert(samples[second].device == device);
    }
}

/// Devices do not touch each other: the flag of a device after a run is what
/// it would be had the watchdog seen the samples of that device alone.
pub proof fn theorem_devices_are_independent(
    start: WatchdogView,
    samples: Seq<Sample>,
    device: u64,
)
    ensures
        run(start, samples).notified.contains(device) == run(
            start,
            samples_of(samples, device),
        ).notified.contains(device),
    decreases samples.len(),
{
    reveal(Seq::filter);
    if samples.len() > 0 {
        let earlier = samples.drop_last();
        theorem_devices_are_independent(start, earlier, device);
        lemma_run_keeps_threshold(start, earlier);
        lemma_run_keeps_threshold(start, samples_of(earlier, device));
        if samples.last().device == device {
            assert(samples_of(samples, device).drop_last() =~= samples_of(earlier, device));
        }
    }
}

} // verus!
