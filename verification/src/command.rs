//! What the decision logic asks its driver to do.

use crate::ota::Violation;
use crate::router::Topic;
use crate::state::StateEvent;
use vstd::prelude::*;

verus! {

/// Why the device must stop. Nothing in the process can recover from these;
/// a watchdog is expected to restart the device.
#[derive(Clone, Copy, Debug, PartialEq, Eq)]
pub enum Fatal {
    /// The firmware transfer broke its protocol.
    Protocol(Violation),
    /// The restart into a new firmware came back.
    RestartReturned,
    /// The return to the previous firmware did not happen.
    RollbackFailed,
    /// The wireless network refused the device for good.
    AssociationFailed,
}

/// Seconds between two looks at the state of the clock synchronization.
pub const SYNC_POLL_SECONDS: u64 = 5;

/// One piece of outside work. A driver performs the commands of a list in
/// order and reports what the last of them yields as the next input.
#[derive(Clone, Copy, Debug, PartialEq, Eq)]
pub enum Command {
    /// Ask the network stack whether the link is up; yields the answer.
    CheckLink,
    /// Associate with the network and wait for an address; yields the outcome.
    Associate,
    /// Start synchronizing the clock.
    StartSync,
    /// Ask whether the clock is synchronized; yields the answer.
    PollSync,
    /// Do nothing for the given number of seconds.
    Sleep(u64),
    /// Open a session with the broker.
    OpenSession,
    /// Tear the session with the broker down.
    CloseSession,
    /// Subscribe to a topic, each message to be delivered exactly once.
    Subscribe(Topic),
    /// Publish the notice that the device is up.
    AnnounceReady,
    /// Wait for the next event of the session; yields it.
    NextEvent,
    /// Put an event on the bus to the display.
    Emit(StateEvent),
    /// Open a write cursor on the spare firmware slot.
    OtaBegin,
    /// Write the payload of the current message to the open cursor.
    OtaWrite,
    /// Flush the image, make it the boot target and restart the device.
    OtaFinalize,
    /// Mark the running firmware as valid.
    MarkValid,
    /// Return to the previous firmware and reboot.
    RollbackAndReboot,
    /// Stop the process. Reached after a restart or reboot only if it failed.
    Halt(Fatal),
}

/// The list ends by stopping the process.
pub open spec fn spec_halts(commands: Seq<Command>) -> bool {
    commands.len() > 0 && commands.last() is Halt
}

/// The list ends by stopping the process.
pub fn halts(commands: &Vec<Command>) -> (r: bool)
    ensures
        r == spec_halts(commands@),
{
    if commands.len() == 0 {
        false
    } else {
        match commands[commands.len() - 1] {
            Command::Halt(_) => true,
            _ => false,
        }
    }
}

} // verus!
