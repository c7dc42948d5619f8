//! The pieces of text that the display shows.

use crate::display::{MetroPanel, Notice, TramPanel, WeatherPanel};
use vstd::prelude::*;
use vstd::string::*;

verus! {

/// The character of a decimal digit.
pub open spec fn spec_digit(d: nat) -> char
    recommends
        d < 10,
{
    if d == 0 {
        '0'
    } else if d == 1 {
        '1'
    } else if d == 2 {
        '2'
    } else if d == 3 {
        '3'
    } else if d == 4 {
        '4'
    } else if d == 5 {
        '5'
    } else if d == 6 {
        '6'
    } else if d == 7 {
        '7'
    } else if d == 8 {
        '8'
    } else {
        '9'
    }
}

/// The decimal digits of a number, without leading zeros.
pub open spec fn spec_decimal(n: nat) -> Seq<char>
    decreases n,
{
    if n < 10 {
        seq![spec_digit(n)]
    } else {
        spec_decimal(n / 10).push(spec_digit(n % 10))
    }
}

/// The decimal digits of a number, with a zero in front of a single digit.
pub open spec fn spec_two_digits(n: nat) -> Seq<char> {
    if n < 10 {
        seq!['0', spec_digit(n)]
    } else {
        spec_decimal(n)
    }
}

/// The text that `human_duration` returns for a number of seconds.
pub uninterp spec fn spec_human_duration(secs: u64) -> Seq<char>;

/// Formats a number with `std::format` at a width of two, filled with zeros.
/// Claimed: the result is the decimal digits of the number, with one zero
/// in front where there is only one digit.
#[verifier::external_body]
pub(crate) fn two_digits(n: u64) -> (r: String)
    ensures
        r@ == spec_two_digits(n as nat),
{
    format!("{:02}", n)
}

/// Calls `humantime::format_duration` on a duration of whole seconds and
/// takes the text it displays. Claimed: the text depends on the number of
/// seconds alone.
#[verifier::external_body]
pub(crate) fn human_duration(secs: u64) -> (r: String)
    ensures
        r@ == spec_human_duration(secs),
{
    humantime::format_duration(std::time::Duration::from_secs(secs)).to_string()
}

/// Text in front of the seconds of the tram countdown.
pub const SECONDS_PREFIX: &'static str = ": ";

/// Text in front of the time left for the metro.
pub const METRO_PREFIX: &'static str = "Metro: ";

/// Shown while the wireless link is down.
pub const NOTICE_WIFI: &'static str = "Connecting WiFi...";

/// Shown while the broker session is down.
pub const NOTICE_MQTT: &'static str = "Connecting MQTT...";

/// Shown while the clock is not set.
pub const NOTICE_TIME: &'static str = "Syncing time...";

/// Shown when everything is up and nothing has been shown yet.
pub const NOTICE_WAITING: &'static str = "Waiting for data...";

/// Shown when no tram departure is known.
pub const TRAM_NOT_AVAILABLE: &'static str = "Tram: N/A";

/// Shown when the tram is leaving.
pub const TRAM_NOW: &'static str = "now";

/// Shown when no metro record has arrived.
pub const METRO_NOT_AVAILABLE: &'static str = "Metro: N/A";

/// Shown when the metro is leaving.
pub const METRO_NOW: &'static str = "Metro: now";

/// Shown on the weather screen.
pub const WEATHER_NOT_AVAILABLE: &'static str = "Weather: N/A";

/// The line of a notice.
pub open spec fn spec_notice_text(notice: Notice) -> Seq<char> {
    match notice {
        Notice::ConnectingWifi => NOTICE_WIFI@,
        Notice::ConnectingMqtt => NOTICE_MQTT@,
        Notice::SyncingTime => NOTICE_TIME@,
        Notice::WaitingForData => NOTICE_WAITING@,
    }
}

/// The line of the tram screen, where it shows a line and no countdown.
pub open spec fn spec_tram_line(panel: TramPanel) -> Option<Seq<char>> {
    match panel {
        TramPanel::NotAvailable => Some(TRAM_NOT_AVAILABLE@),
        TramPanel::Now => Some(TRAM_NOW@),
        _ => None,
    }
}

/// The line of the metro screen, where it shows one.
pub open spec fn spec_metro_line(panel: MetroPanel) -> Option<Seq<char>> {
    match panel {
        MetroPanel::NotAvailable => Some(METRO_NOT_AVAILABLE@),
        MetroPanel::Blank => None,
        MetroPanel::Now => Some(METRO_NOW@),
        MetroPanel::Countdown { seconds } => Some(METRO_PREFIX@ + spec_human_duration(seconds)),
    }
}

/// The minutes of the tram countdown, at least two digits wide.
pub fn minutes_text(minutes: u64) -> (r: String)
    ensures
        r@ == spec_two_digits(minutes as nat),
{
    two_digits(minutes)
}

/// The seconds of the tram countdown: a colon, a space, and at least two
/// digits.
pub fn seconds_text(seconds: u64) -> (r: String)
    ensures
        r@ == SECONDS_PREFIX@ + spec_two_digits(seconds as nat),
{
    let digits = two_digits(seconds);
    with_prefix(SECONDS_PREFIX, digits.as_str())
}

/// The text `rest` with `prefix` in front of it.
pub fn with_prefix(prefix: &str, rest: &str) -> (r: String)
    ensures
        r@ == prefix@ + rest@,
{
    String::from_str(prefix).concat(rest)
}

/// The line that tells how long it is until the metro leaves.
pub fn metro_text(seconds: u64) -> (r: String)
    ensures
        r@ == METRO_PREFIX@ + spec_human_duration(seconds),
{
    let left = human_duration(seconds);
    with_prefix(METRO_PREFIX, left.as_str())
}

/// The line of a notice.
pub fn notice_text(notice: Notice) -> (r: &'static str)
    ensures
        r@ == spec_notice_text(notice),
{
    match notice {
        Notice::ConnectingWifi => NOTICE_WIFI,
        Notice::ConnectingMqtt => NOTICE_MQTT,
        Notice::SyncingTime => NOTICE_TIME,
        Notice::WaitingForData => NOTICE_WAITING,
    }
}

/// The line of the tram screen, where it shows a line and no countdown.
pub fn tram_line(panel: TramPanel) -> (r: Option<&'static str>)
    ensures
        r is Some <==> spec_tram_line(panel) is Some,
        r is Some ==> r.unwrap()@ == spec_tram_line(panel).unwrap(),
{
    match panel {
        TramPanel::NotAvailable => Some(TRAM_NOT_AVAILABLE),
        TramPanel::Now => Some(TRAM_NOW),
        _ => None,
    }
}

/// The line of the metro screen, where it shows one.
pub fn metro_line(panel: MetroPanel) -> (r: Option<String>)
    ensures
        r is Some <==> spec_metro_line(panel) is Some,
        r is Some ==> r.unwrap()@ == spec_metro_line(panel).unwrap(),
{
    match panel {
        MetroPanel::NotAvailable => Some(String::from_str(METRO_NOT_AVAILABLE)),
        MetroPanel::Blank => None,
        MetroPanel::Now => Some(String::from_str(METRO_NOW)),
        MetroPanel::Countdown { seconds } => Some(metro_text(seconds)),
    }
}

/// The line of the weather screen.
pub fn weather_line(panel: WeatherPanel) -> (r: &'static str)
    ensures
        r@ == WEATHER_NOT_AVAILABLE@,
{
    WEATHER_NOT_AVAILABLE
}

} // verus!
