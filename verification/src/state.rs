//! The values that travel from the network side of the device to its display.

use vstd::prelude::*;

verus! {

/// A point in time on the UTC scale: whole seconds since 1970-01-01T00:00:00Z
/// and the nanoseconds into that second.
#[derive(Clone, Copy, Debug, PartialEq, Eq)]
pub struct UtcInstant {
    pub secs: i64,
    pub nanos: u32,
}

/// Largest distance from the epoch, in seconds, that an instant may have.
/// It is about a quarter of a million years, well inside what a calendar
/// date can express.
pub const MAX_EPOCH_SECONDS: i64 = 8_000_000_000_000;

impl UtcInstant {
    /// The instant names a second of the calendar and a fraction below
    /// one second.
    pub open spec fn wf(self) -> bool {
        &&& -MAX_EPOCH_SECONDS <= self.secs <= MAX_EPOCH_SECONDS
        &&& self.nanos < 1_000_000_000
    }

    /// Tells whether the instant is one that the calendar can express.
    pub fn is_sound(self) -> (r: bool)
        ensures
            r == self.wf(),
    {
        -MAX_EPOCH_SECONDS <= self.secs && self.secs <= MAX_EPOCH_SECONDS && self.nanos
            < 1_000_000_000
    }

    /// Builds an instant if the two numbers describe one.
    pub fn new(secs: i64, nanos: u32) -> (r: Option<UtcInstant>)
        ensures
            r is Some <==> (UtcInstant { secs, nanos }).wf(),
            r is Some ==> r.unwrap() == (UtcInstant { secs, nanos }),
    {
        if -MAX_EPOCH_SECONDS <= secs && secs <= MAX_EPOCH_SECONDS && nanos < 1_000_000_000 {
            Some(UtcInstant { secs, nanos })
        } else {
            None
        }
    }
}

/// A status record as it arrives, before it is known whom it is about.
#[derive(Clone, Copy, Debug, PartialEq, Eq)]
pub struct StatusRecord {
    /// When the vehicle leaves.
    pub depart_at: Option<UtcInstant>,
    /// How many milliseconds were left when the record was made.
    pub time_left_ms: Option<i64>,
}

impl StatusRecord {
    /// The departure, if there is one, is an instant that the calendar can
    /// express.
    pub open spec fn wf(self) -> bool {
        self.depart_at matches Some(at) ==> at.wf()
    }

    /// Tells whether the departure, if there is one, is sound.
    pub fn is_sound(self) -> (r: bool)
        ensures
            r == self.wf(),
    {
        match self.depart_at {
            Some(at) => at.is_sound(),
            None => true,
        }
    }
}

/// What is known about the next tram. Each field may be absent on its own;
/// a record stays valid until the next one replaces it.
#[derive(Clone, Copy, Debug, PartialEq, Eq)]
pub struct Tram {
    /// When the tram leaves.
    pub depart_at: Option<UtcInstant>,
    /// How many milliseconds were left when the record was made.
    pub time_left_ms: Option<i64>,
}

/// What is known about the next metro train.
#[derive(Clone, Copy, Debug, PartialEq, Eq)]
pub struct Metro {
    /// When the train leaves.
    pub depart_at: Option<UtcInstant>,
    /// How many milliseconds were left when the record was made.
    pub time_left_ms: Option<i64>,
}

/// A change that the network side reports to the display.
#[derive(Clone, Copy, Debug, PartialEq, Eq)]
pub enum StateEvent {
    /// The wireless link went down (`false`) or came up (`true`).
    WifiConnected(bool),
    /// The broker session closed (`false`) or opened (`true`).
    MqttConnected(bool),
    /// The clock was set from the network.
    TimeSynced(bool),
    /// A new tram record arrived.
    TramStateChanged(Tram),
    /// A new metro record arrived.
    MetroStateChanged(Metro),
}

} // verus!
