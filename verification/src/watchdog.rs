//! The notification rule: one flag per battery, set when the command has been
//! called for and cleared when the battery is seen charging.

use crate::percent::Percent;
use std::collections::HashSet;
use vstd::prelude::*;

verus! {

/// What a battery reports of itself.
#[derive(Clone, Copy, Debug, PartialEq, Eq, Structural)]
pub enum ChargeState {
    Charging,
    Discharging,
    Full,
    Empty,
    Unknown,
}

/// One reading of one battery.
#[derive(Clone, Copy, Debug)]
pub struct Sample {
    /// The battery that was read. Flags are kept per device.
    pub device: u64,
    pub state: ChargeState,
    /// The state of charge, in percent of the full capacity.
    pub percent: Percent,
}

/// What the caller owes after a sample.
#[derive(Clone, Copy, Debug, PartialEq, Eq, Structural)]
pub enum Action {
    /// Nothing to do.
    Skip,
    /// Run the configured command now, once.
    Execute,
}

/// Whether a sample shows a battery running low: it is discharging and its
/// charge is strictly below the threshold.
pub open spec fn is_low(threshold: Percent, sample: Sample) -> bool {
    &&& sample.state is Discharging
    &&& sample.percent.spec_less_than(threshold)
}

/// Whether a sample calls for the command, on a device whose flag is
/// `notified`: the battery is running low and has not been reported since it
/// last charged.
pub open spec fn fires(threshold: Percent, notified: bool, sample: Sample) -> bool {
    is_low(threshold, sample) && !notified
}

/// The device's flag after a sample: cleared by charging, set by a
/// discharging sample below the threshold, left alone by everything else.
pub open spec fn flag_after(threshold: Percent, notified: bool, sample: Sample) -> bool {
    match sample.state {
        ChargeState::Charging => false,
        ChargeState::Discharging => notified || sample.percent.spec_less_than(threshold),
        _ => notified,
    }
}

/// One step of a single device: the new flag and what to do.
pub fn decide(threshold: Percent, notified: bool, sample: Sample) -> (next: (bool, Action))
    ensures
        next.0 == flag_after(threshold, notified, sample),
        next.1 == (if fires(threshold, notified, sample) {
            Action::Execute
        } else {
            Action::Skip
        }),
{
    match sample.state {
        ChargeState::Charging => (false, Action::Skip),
        ChargeState::Discharging => {
            if !notified && sample.percent.less_than(threshold) {
                (true, Action::Execute)
            } else {
                (notified, Action::Skip)
            }
        },
        _ => (notified, Action::Skip),
    }
}

/// A watchdog as contracts see it.
pub struct WatchdogView {
    /// The charge below which a discharging battery is reported.
    pub threshold: Percent,
    /// The devices whose flag is set.
    pub notified: Set<u64>,
}

impl WatchdogView {
    /// The state a watchdog starts in: no flag set.
    pub open spec fn initial(threshold: Percent) -> WatchdogView {
        WatchdogView { threshold, notified: Set::empty() }
    }

    /// Whether the sample calls for the command in this state.
    pub open spec fn calls_for_command(self, sample: Sample) -> bool {
        fires(self.threshold, self.notified.contains(sample.device), sample)
    }

    /// The state after the sample: the flag of the sample's device follows
    /// [`flag_after`], every other flag stays.
    pub open spec fn after(self, sample: Sample) -> WatchdogView {
        let flag = flag_after(self.threshold, self.notified.contains(sample.device), sample);
        WatchdogView {
            threshold: self.threshold,
            notified: if flag {
                self.notified.insert(sample.device)
            } else {
                self.notified.remove(sample.device)
            },
        }
    }
}

/// The state after the samples of a run have been taken in, one by one.
pub open spec fn run(start: WatchdogView, samples: Seq<Sample>) -> WatchdogView
    decreases samples.len(),
{
    if samples.len() == 0 {
        start
    } else {
        run(start, samples.drop_last()).after(samples.last())
    }
}

/// Whether sample `i` of the run calls for the command.
pub open spec fn fires_at(start: WatchdogView, samples: Seq<Sample>, i: int) -> bool
    recommends
        0 <= i < samples.len(),
{
    run(start, samples.take(i)).calls_for_command(samples[i])
}

/// Taking in one more sample is one step from the state before it.
pub proof fn lemma_run_step(start: WatchdogView, samples: Seq<Sample>, i: int)
    requires
        0 <= i < samples.len(),
    ensures
        run(start, samples.take(i + 1)) == run(start, samples.take(i)).after(samples[i]),
{
    assert(samples.take(i + 1).drop_last() =~= samples.take(i));
}

/// The threshold and the flags of all batteries seen so far.
pub struct Watchdog {
    threshold: Percent,
    notified: HashSet<u64>,
}

impl View for Watchdog {
    type V = WatchdogView;

    closed spec fn view(&self) -> WatchdogView {
        WatchdogView { threshold: self.threshold, notified: self.notified@ }
    }
}

impl Watchdog {
    /// A watchdog with the given threshold and no flag set.
    pub fn new(threshold: Percent) -> (watchdog: Watchdog)
        ensures
            watchdog@ == WatchdogView::initial(threshold),
    {
        Watchdog { threshold, notified: HashSet::new() }
    }

    /// The threshold this watchdog was made with.
    pub fn threshold(&self) -> (threshold: Percent)
        ensures
            threshold == self@.threshold,
    {
        self.threshold
    }

    /// Whether the device's flag is set.
    pub fn is_notified(&self, device: u64) -> (flag: bool)
        ensures
            flag == self@.notified.contains(device),
    {
        self.notified.contains(&device)
    }

    /// Takes in one sample: updates the flag of its device and says whether
    /// the command is due.
    ///
    /// The caller runs the command before it hands over the next sample. The
    /// flag is set when this returns, so a caller that fails to launch the
    /// command and carries on will not be asked again until the battery has
    /// charged.
    pub fn observe(&mut self, sample: Sample) -> (action: Action)
        ensures
            final(self)@ == old(self)@.after(sample),
            action == (if old(self)@.calls_for_command(sample) {
                Action::Execute
            } else {
                Action::Skip
            }),
    {
        let flagged = self.notified.contains(&sample.device);
        let (flag, action) = decide(self.threshold, flagged, sample);
        if flag && !flagged {
            self.notified.insert(sample.device);
        } else if flagged && !flag {
            self.notified.remove(&sample.device);
        }
        assert(self@.notified =~= old(self)@.after(sample).notified);
        action
    }

    /// Takes in a run of samples in order, as [`Watchdog::observe`] does one
    /// by one, and returns the action that each of them called for.
    pub fn observe_all(&mut self, samples: &[Sample]) -> (actions: Vec<Action>)
        ensures
            final(self)@ == run(old(self)@, samples@),
            actions@.len() == samples@.len(),
            forall|i: int|
                0 <= i < samples@.len() ==> #[trigger] actions@[i] == (if fires_at(
                    old(self)@,
                    samples@,
                    i,
                ) {
                    Action::Execute
                } else {
                    Action::Skip
                }),
    {
        let mut actions: Vec<Action> = Vec::new();
        let mut i: usize = 0;
        assert(samples@.take(0) =~= Seq::empty());
        while i < samples.len()
            invariant
                i <= samples@.len(),
                self@ == run(old(self)@, samples@.take(i as int)),
                actions@.len() == i,
                forall|j: int|
                    0 <= j < i ==> #[trigger] actions@[j] == (if fires_at(old(self)@, samples@, j) {
                        Action::Execute
                    } else {
                        Action::Skip
                    }),
            decreases samples@.len() - i,
        {
            proof {
                lemma_run_step(old(self)@, samples@, i as int);
            }
            let action = self.observe(samples[i]);
            actions.push(action);
            i += 1;
        }
        assert(samples@.take(samples@.len() as int) =~= samples@);
        actions
    }
}

} // verus!
