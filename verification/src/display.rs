//! The display's picture of the world.
//!
//! The display owns a snapshot that it folds the events of the bus into, one
//! of four screens that it rotates through, and the rules that say what each
//! screen shows. Painting itself is left to the driver of the panel.

use crate::clock::{budapest_clock_text, seconds_left, spec_budapest_clock_text, spec_seconds_left};
use crate::state::{Metro, StateEvent, Tram, UtcInstant};
use vstd::prelude::*;

verus! {

/// The screens that the display rotates through.
#[derive(Clone, Copy, Debug, PartialEq, Eq)]
pub enum Screen {
    Tram,
    DataNotAvailable,
    Metro,
    Weather,
}

/// What the display says while the device is not ready.
#[derive(Clone, Copy, Debug, PartialEq, Eq)]
pub enum Notice {
    /// The wireless link is down. Shown together with a picture.
    ConnectingWifi,
    /// The link is up, the broker session is not.
    ConnectingMqtt,
    /// Link and session are up, the clock is not set.
    SyncingTime,
    /// Everything is up and no data has been shown yet.
    WaitingForData,
}

/// What the tram screen shows.
#[derive(Clone, Copy, Debug, PartialEq, Eq)]
pub enum TramPanel {
    /// Nothing: without a clock no countdown can be trusted.
    Blank,
    /// No departure is known.
    NotAvailable,
    /// The tram is leaving or has left.
    Now,
    /// The tram leaves in this many minutes and seconds.
    Countdown { minutes: u64, seconds: u64 },
}

/// What the metro screen shows.
#[derive(Clone, Copy, Debug, PartialEq, Eq)]
pub enum MetroPanel {
    /// No record has arrived.
    NotAvailable,
    /// A record has arrived, but it names no departure.
    Blank,
    /// The train is leaving or has left.
    Now,
    /// The train leaves in this many seconds.
    Countdown { seconds: u64 },
}

/// What the weather screen shows.
#[derive(Clone, Copy, Debug, PartialEq, Eq)]
pub enum WeatherPanel {
    /// No weather is known.
    NotAvailable,
}

/// The content of the current screen.
#[derive(Clone, Copy, Debug, PartialEq, Eq)]
pub enum Panel {
    Tram(TramPanel),
    Metro(MetroPanel),
    Weather(WeatherPanel),
    DataNotAvailable(Notice),
}

/// Milliseconds after which the next screen is due.
pub const SCREEN_CYCLE_MS: u64 = 4000;

/// Milliseconds between two looks at the bus.
pub const POLL_INTERVAL_MS: u64 = 100;

/// The snapshot and the current screen.
#[derive(Clone, Copy, Debug, PartialEq, Eq)]
pub struct Display {
    pub tram: Option<Tram>,
    pub metro: Option<Metro>,
    pub wifi_connected: bool,
    pub mqtt_connected: bool,
    pub time_synced: bool,
    pub screen: Screen,
}

/// What is shown for a departure that may be known or not.
pub open spec fn spec_countdown(depart_at: Option<UtcInstant>, now: UtcInstant) -> Option<int> {
    match depart_at {
        Some(at) => Some(spec_seconds_left(at, now)),
        None => None,
    }
}

impl Display {
    /// Every instant in the snapshot is one that the calendar can express.
    pub open spec fn wf(self) -> bool {
        &&& self.tram matches Some(Tram { depart_at: Some(at), .. }) ==> at.wf()
        &&& self.metro matches Some(Metro { depart_at: Some(at), .. }) ==> at.wf()
    }

    /// Every instant in the event is one that the calendar can express.
    pub open spec fn spec_event_wf(event: StateEvent) -> bool {
        match event {
            StateEvent::TramStateChanged(Tram { depart_at: Some(at), .. }) => at.wf(),
            StateEvent::MetroStateChanged(Metro { depart_at: Some(at), .. }) => at.wf(),
            _ => true,
        }
    }

    /// The snapshot before any event: nothing is known, nothing is up.
    pub open spec fn spec_new() -> Display {
        Display {
            tram: None,
            metro: None,
            wifi_connected: false,
            mqtt_connected: false,
            time_synced: false,
            screen: Screen::DataNotAvailable,
        }
    }

    /// Link, session and clock are all up.
    pub open spec fn spec_ready(self) -> bool {
        self.wifi_connected && self.mqtt_connected && self.time_synced
    }

    /// The snapshot after an event: the event replaces the one value that it
    /// is about and leaves the others, the screen included, as they were.
    pub open spec fn spec_update(self, event: StateEvent) -> Display {
        match event {
            StateEvent::TramStateChanged(tram) => Display { tram: Some(tram), ..self },
            StateEvent::MetroStateChanged(metro) => Display { metro: Some(metro), ..self },
            StateEvent::WifiConnected(up) => Display { wifi_connected: up, ..self },
            StateEvent::MqttConnected(up) => Display { mqtt_connected: up, ..self },
            StateEvent::TimeSynced(set) => Display { time_synced: set, ..self },
        }
    }

    /// The snapshot after a run of events, taken in order.
    pub open spec fn spec_fold(self, events: Seq<StateEvent>) -> Display
        decreases events.len(),
    {
        if events.len() == 0 {
            self
        } else {
            self.spec_fold(events.drop_last()).spec_update(events.last())
        }
    }

    /// The screen that follows the current one. While the device is not
    /// ready the notice screen is shown. Once it is ready the notice gives
    /// way to the tram, the metro to the weather, the weather to the tram,
    /// and the tram stays.
    pub open spec fn spec_next_screen(self) -> Screen {
        if !self.spec_ready() {
            Screen::DataNotAvailable
        } else {
            match self.screen {
                Screen::Tram => Screen::Tram,
                Screen::Metro => Screen::Weather,
                Screen::Weather => Screen::Tram,
                Screen::DataNotAvailable => Screen::Tram,
            }
        }
    }

    /// The notice for the first thing that is not up: the link, then the
    /// session, then the clock.
    pub open spec fn spec_notice(self) -> Notice {
        if !self.wifi_connected {
            Notice::ConnectingWifi
        } else if !self.mqtt_connected {
            Notice::ConnectingMqtt
        } else if !self.time_synced {
            Notice::SyncingTime
        } else {
            Notice::WaitingForData
        }
    }

    /// The content of the tram screen at `now`.
    pub open spec fn spec_tram_panel(self, now: UtcInstant) -> TramPanel {
        if !self.time_synced {
            TramPanel::Blank
        } else {
            match self.tram {
                Some(Tram { depart_at: Some(at), .. }) => {
                    let left = spec_seconds_left(at, now);
                    if left <= 0 {
                        TramPanel::Now
                    } else {
                        TramPanel::Countdown {
                            minutes: (left / 60) as u64,
                            seconds: (left % 60) as u64,
                        }
                    }
                },
                _ => TramPanel::NotAvailable,
            }
        }
    }

    /// The content of the metro screen at `now`.
    pub open spec fn spec_metro_panel(self, now: UtcInstant) -> MetroPanel {
        match self.metro {
            None => MetroPanel::NotAvailable,
            Some(Metro { depart_at: None, .. }) => MetroPanel::Blank,
            Some(Metro { depart_at: Some(at), .. }) => {
                let left = spec_seconds_left(at, now);
                if left <= 0 {
                    MetroPanel::Now
                } else {
                    MetroPanel::Countdown { seconds: left as u64 }
                }
            },
        }
    }

    /// The content of the current screen at `now`.
    pub open spec fn spec_panel(self, now: UtcInstant) -> Panel {
        match self.screen {
            Screen::Tram => Panel::Tram(self.spec_tram_panel(now)),
            Screen::Metro => Panel::Metro(self.spec_metro_panel(now)),
            Screen::Weather => Panel::Weather(WeatherPanel::NotAvailable),
            Screen::DataNotAvailable => Panel::DataNotAvailable(self.spec_notice()),
        }
    }

    /// Tells whether every instant in the snapshot is sound.
    pub fn is_sound(&self) -> (r: bool)
        ensures
            r == self.wf(),
    {
        let tram_ok = match self.tram {
            Some(tram) => match tram.depart_at {
                Some(at) => at.is_sound(),
                None => true,
            },
            None => true,
        };
        let metro_ok = match self.metro {
            Some(metro) => match metro.depart_at {
                Some(at) => at.is_sound(),
                None => true,
            },
            None => true,
        };
        tram_ok && metro_ok
    }

    /// Tells whether every instant in the event is sound.
    pub fn event_is_sound(event: StateEvent) -> (r: bool)
        ensures
            r == Display::spec_event_wf(event),
    {
        match event {
            StateEvent::TramStateChanged(tram) => match tram.depart_at {
                Some(at) => at.is_sound(),
                None => true,
            },
            StateEvent::MetroStateChanged(metro) => match metro.depart_at {
                Some(at) => at.is_sound(),
                None => true,
            },
            _ => true,
        }
    }

    /// A display that knows nothing yet and shows the notice screen.
    pub fn new() -> (r: Display)
        ensures
            r == Display::spec_new(),
            r.wf(),
    {
        Display {
            tram: None,
            metro: None,
            wifi_connected: false,
            mqtt_connected: false,
            time_synced: false,
            screen: Screen::DataNotAvailable,
        }
    }

    /// Takes one event into the snapshot.
    pub fn update_state(&mut self, event: StateEvent)
        ensures
            *final(self) == old(self).spec_update(event),
            old(self).wf() && Display::spec_event_wf(event) ==> final(self).wf(),
    {
        match event {
            StateEvent::TramStateChanged(tram) => {
                self.tram = Some(tram);
            },
            StateEvent::MetroStateChanged(metro) => {
                self.metro = Some(metro);
            },
            StateEvent::WifiConnected(up) => {
                self.wifi_connected = up;
            },
            StateEvent::MqttConnected(up) => {
                self.mqtt_connected = up;
            },
            StateEvent::TimeSynced(set) => {
                self.time_synced = set;
            },
        }
    }

    /// Takes all pending events into the snapshot, in the order in which
    /// they were put on the bus.
    pub fn drain(&mut self, events: &Vec<StateEvent>)
        ensures
            *final(self) == old(self).spec_fold(events@),
            old(self).wf() && (forall|k: int|
                0 <= k < events@.len() ==> Display::spec_event_wf(#[trigger] events@[k]))
                ==> final(self).wf(),
    {
        let mut i: usize = 0;
        while i < events.len()
            invariant
                i <= events.len(),
                *self == old(self).spec_fold(events@.take(i as int)),
                old(self).wf() && (forall|k: int|
                    0 <= k < events@.len() ==> Display::spec_event_wf(#[trigger] events@[k]))
                    ==> self.wf(),
            decreases events.len() - i,
        {
            assert(events@.take(i + 1).drop_last() =~= events@.take(i as int));
            self.update_state(events[i]);
            i += 1;
        }
        assert(events@.take(i as int) =~= events@);
    }

    /// Link, session and clock are all up.
    pub fn ready(&self) -> (r: bool)
        ensures
            r == self.spec_ready(),
    {
        self.wifi_connected && self.mqtt_connected && self.time_synced
    }

    /// Moves on to the next screen.
    pub fn cycle_screen(&mut self)
        ensures
            *final(self) == (Display { screen: old(self).spec_next_screen(), ..*old(self) }),
            final(self).screen == Screen::DataNotAvailable <==> !old(self).spec_ready(),
    {
        if !self.ready() {
            self.screen = Screen::DataNotAvailable;
            return ;
        }
        match self.screen {
            Screen::Tram => {},
            Screen::Metro => {
                self.screen = Screen::Weather;
            },
            Screen::Weather => {
                self.screen = Screen::Tram;
            },
            Screen::DataNotAvailable => {
                self.screen = Screen::Tram;
            },
        }
    }

    /// One turn of the display's loop: takes the pending events in, and
    /// moves on to the next screen if more than the cycle time has passed
    /// since the last move. Returns whether it moved on, in which case the
    /// time since the last move starts again at zero.
    pub fn turn(&mut self, events: &Vec<StateEvent>, since_cycle_ms: u64) -> (cycled: bool)
        ensures
            cycled == (since_cycle_ms > SCREEN_CYCLE_MS),
            cycled ==> *final(self) == (Display {
                screen: old(self).spec_fold(events@).spec_next_screen(),
                ..old(self).spec_fold(events@)
            }),
            !cycled ==> *final(self) == old(self).spec_fold(events@),
            old(self).wf() && (forall|k: int|
                0 <= k < events@.len() ==> Display::spec_event_wf(#[trigger] events@[k]))
                ==> final(self).wf(),
    {
        self.drain(events);
        if since_cycle_ms > SCREEN_CYCLE_MS {
            self.cycle_screen();
            true
        } else {
            false
        }
    }

    /// The notice to show while the device is not ready.
    pub fn draw_data_not_available(&self) -> (r: Notice)
        ensures
            r == self.spec_notice(),
    {
        if !self.wifi_connected {
            Notice::ConnectingWifi
        } else if !self.mqtt_connected {
            Notice::ConnectingMqtt
        } else if !self.time_synced {
            Notice::SyncingTime
        } else {
            Notice::WaitingForData
        }
    }

    /// The content of the tram screen at `now`.
    pub fn draw_tram(&self, now: UtcInstant) -> (r: TramPanel)
        requires
            self.wf(),
            now.wf(),
        ensures
            r == self.spec_tram_panel(now),
    {
        if !self.time_synced {
            return TramPanel::Blank;
        }
        if let Some(tram) = self.tram {
            if let Some(at) = tram.depart_at {
                let left = seconds_left(at, now);
                if left <= 0 {
                    return TramPanel::Now;
                }
                return TramPanel::Countdown {
                    minutes: (left / 60) as u64,
                    seconds: (left % 60) as u64,
                };
            }
        }
        TramPanel::NotAvailable
    }

    /// The content of the metro screen at `now`.
    pub fn draw_metro(&self, now: UtcInstant) -> (r: MetroPanel)
        requires
            self.wf(),
            now.wf(),
        ensures
            r == self.spec_metro_panel(now),
    {
        match self.metro {
            None => MetroPanel::NotAvailable,
            Some(metro) => match metro.depart_at {
                None => MetroPanel::Blank,
                Some(at) => {
                    let left = seconds_left(at, now);
                    if left <= 0 {
                        MetroPanel::Now
                    } else {
                        MetroPanel::Countdown { seconds: left as u64 }
                    }
                },
            },
        }
    }

    /// The content of the weather screen.
    pub fn draw_weather(&self) -> (r: WeatherPanel)
        ensures
            r == WeatherPanel::NotAvailable,
    {
        WeatherPanel::NotAvailable
    }

    /// The content of the current screen at `now`.
    pub fn draw_screen(&self, now: UtcInstant) -> (r: Panel)
        requires
            self.wf(),
            now.wf(),
        ensures
            r == self.spec_panel(now),
    {
        match self.screen {
            Screen::Tram => Panel::Tram(self.draw_tram(now)),
            Screen::Metro => Panel::Metro(self.draw_metro(now)),
            Screen::Weather => Panel::Weather(self.draw_weather()),
            Screen::DataNotAvailable => Panel::DataNotAvailable(self.draw_data_not_available()),
        }
    }

    /// The local date and time to show above the screen, once the clock is
    /// set; nothing before.
    pub fn draw_time(&self, now: UtcInstant) -> (r: Option<String>)
        requires
            now.wf(),
        ensures
            r is Some <==> self.time_synced,
            r is Some ==> r.unwrap()@ == spec_budapest_clock_text(now.secs, now.nanos),
    {
        if !self.time_synced {
            None
        } else {
            Some(budapest_clock_text(now))
        }
    }
}

/// Two events are about the same value of the snapshot.
pub open spec fn spec_same_subject(a: StateEvent, b: StateEvent) -> bool {
    match (a, b) {
        (StateEvent::WifiConnected(_), StateEvent::WifiConnected(_)) => true,
        (StateEvent::MqttConnected(_), StateEvent::MqttConnected(_)) => true,
        (StateEvent::TimeSynced(_), StateEvent::TimeSynced(_)) => true,
        (StateEvent::TramStateChanged(_), StateEvent::TramStateChanged(_)) => true,
        (StateEvent::MetroStateChanged(_), StateEvent::MetroStateChanged(_)) => true,
        _ => false,
    }
}

/// Tells whether two events are about the same value of the snapshot.
pub fn same_subject(a: StateEvent, b: StateEvent) -> (r: bool)
    ensures
        r == spec_same_subject(a, b),
{
    match (a, b) {
        (StateEvent::WifiConnected(_), StateEvent::WifiConnected(_)) => true,
        (StateEvent::MqttConnected(_), StateEvent::MqttConnected(_)) => true,
        (StateEvent::TimeSynced(_), StateEvent::TimeSynced(_)) => true,
        (StateEvent::TramStateChanged(_), StateEvent::TramStateChanged(_)) => true,
        (StateEvent::MetroStateChanged(_), StateEvent::MetroStateChanged(_)) => true,
        _ => false,
    }
}

/// Of the events about one value the latest wins: after a run of events the
/// snapshot holds what the last event about each value said, so that taking
/// that event in once more changes nothing. The screen is not touched.
pub proof fn law_latest_event_wins(start: Display, events: Seq<StateEvent>, i: int)
    requires
        0 <= i < events.len(),
        forall|j: int| i < j < events.len() ==> !spec_same_subject(events[i], #[trigger] events[j]),
    ensures
        start.spec_fold(events).spec_update(events[i]) == start.spec_fold(events),
        start.spec_fold(events).screen == start.screen,
    decreases events.len(),
{
    lemma_fold_keeps_screen(start, events);
    let before = events.drop_last();
    if i < events.len() - 1 {
        assert(before[i] == events[i]);
        assert forall|j: int| i < j < before.len() implies !spec_same_subject(
            before[i],
            #[trigger] before[j],
        ) by {
            assert(before[j] == events[j]);
        }
        law_latest_event_wins(start, before, i);
        assert(!spec_same_subject(events[i], events[events.len() - 1]));
    }
}

proof fn lemma_fold_keeps_screen(start: Display, events: Seq<StateEvent>)
    ensures
        start.spec_fold(events).screen == start.screen,
    decreases events.len(),
{
    if events.len() > 0 {
        lemma_fold_keeps_screen(start, events.drop_last());
    }
}

/// The notice screen is shown exactly while something is not up: after a
/// move to the next screen the display shows the notice if and only if the
/// link, the session or the clock is down, and the notice that it shows
/// names the first of them.
pub proof fn law_notice_iff_not_ready(display: Display)
    ensures
        display.spec_next_screen() == Screen::DataNotAvailable <==> !display.spec_ready(),
        display.spec_notice() == Notice::WaitingForData <==> display.spec_ready(),
{
}

} // verus!
