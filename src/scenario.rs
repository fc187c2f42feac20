//! The host side of a guest scenario as a state machine: start a guest,
//! stage the probe, run it, classify the output, and stop the guest whatever
//! happened. The caller performs each state's action and reports the event.
use vstd::prelude::*;
use crate::commands::GuestStage;
use crate::text::occurs_in;

verus! {

/// Where a guest scenario stands; each state names the next thing to do.
#[derive(Debug, Clone, Copy, PartialEq, Eq, Structural)]
pub enum StageState {
    /// Start a guest that shares the address under test.
    Spawning,
    /// Upload the probe executable to the guest on `port`.
    Uploading { port: u16 },
    /// Make the uploaded probe executable.
    Marking { port: u16 },
    /// Run the stage's command in the guest.
    Probing { port: u16 },
    /// Stop the guest; `verdict` is the result so far, `None` after a failure.
    Stopping { port: u16, verdict: Option<bool> },
    /// Nothing left to do.
    Finished { verdict: Option<bool> },
}

/// What came of the action of the current state.
#[derive(Debug)]
pub enum StageEvent {
    /// The guest was started on this port.
    Started(u16),
    /// The action succeeded (upload, marking, stop).
    Done,
    /// The probe command ran and printed this output.
    Output(String),
    /// The action failed.
    Failed,
}

/// The guest port that a state holds, if a guest is up.
pub open spec fn guest_port(s: StageState) -> Option<u16> {
    match s {
        StageState::Uploading { port } => Some(port),
        StageState::Marking { port } => Some(port),
        StageState::Probing { port } => Some(port),
        StageState::Stopping { port, .. } => Some(port),
        _ => None,
    }
}

/// The state that follows `s` on event `e`, for a stage whose pass marker is
/// `marker`. An event that does not fit the state counts as a failure.
pub open spec fn next_state_spec(marker: Seq<char>, s: StageState, e: StageEvent) -> StageState {
    match s {
        StageState::Spawning => match e {
            StageEvent::Started(port) => StageState::Uploading { port },
            _ => StageState::Finished { verdict: None },
        },
        StageState::Uploading { port } => match e {
            StageEvent::Done => StageState::Marking { port },
            _ => StageState::Stopping { port, verdict: None },
        },
        StageState::Marking { port } => match e {
            StageEvent::Done => StageState::Probing { port },
            _ => StageState::Stopping { port, verdict: None },
        },
        StageState::Probing { port } => match e {
            StageEvent::Output(out) => StageState::Stopping { port, verdict: Some(occurs_in(out@, marker)) },
            _ => StageState::Stopping { port, verdict: None },
        },
        StageState::Stopping { verdict, .. } => StageState::Finished { verdict },
        StageState::Finished { verdict } => StageState::Finished { verdict },
    }
}

impl GuestStage {
    /// Advances the scenario from `s` by the outcome `e` of its action.
    pub fn next_state(&self, s: StageState, e: StageEvent) -> (r: StageState)
        ensures
            r == next_state_spec(self.pass_marker@, s, e),
    {
        match s {
            StageState::Spawning => match e {
                StageEvent::Started(port) => StageState::Uploading { port },
                _ => StageState::Finished { verdict: None },
            },
            StageState::Uploading { port } => match e {
                StageEvent::Done => StageState::Marking { port },
                _ => StageState::Stopping { port, verdict: None },
            },
            StageState::Marking { port } => match e {
                StageEvent::Done => StageState::Probing { port },
                _ => StageState::Stopping { port, verdict: None },
            },
            StageState::Probing { port } => match e {
                StageEvent::Output(out) => {
                    let passed = self.passed(out.as_str());
                    StageState::Stopping { port, verdict: Some(passed) }
                },
                _ => StageState::Stopping { port, verdict: None },
            },
            StageState::Stopping { verdict, .. } => StageState::Finished { verdict },
            StageState::Finished { verdict } => StageState::Finished { verdict },
        }
    }
}

/// A guest that is up is never forgotten: whatever the event, the next
/// state either still holds the same guest or is the one that stops it, and
/// a scenario only finishes from stopping its guest or from failing to start one.
pub proof fn lemma_guest_always_stopped(marker: Seq<char>, s: StageState, e: StageEvent)
    ensures
        guest_port(s) is Some && !(s is Stopping) ==> guest_port(next_state_spec(marker, s, e)) == guest_port(s),
        next_state_spec(marker, s, e) is Finished ==> (s is Stopping || s is Spawning || s is Finished),
{
}

/// The verdict of a scenario is a pass only when the probe command ran and
/// its output holds the pass marker.
pub proof fn lemma_pass_needs_marker(marker: Seq<char>, s: StageState, e: StageEvent)
    ensures
        (!(s is Stopping) && !(s is Finished)
            && (next_state_spec(marker, s, e) matches StageState::Stopping { verdict: Some(true), .. }))
            ==> (s is Probing && (e matches StageEvent::Output(out) && occurs_in(out@, marker))),
{
}

} // verus!
