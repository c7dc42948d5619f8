use tramcast::display::{
    Display, MetroPanel, Notice, Panel, Screen, TramPanel, WeatherPanel, POLL_INTERVAL_MS,
    SCREEN_CYCLE_MS,
};
use tramcast::state::{Metro, StateEvent, Tram, UtcInstant};

fn at(secs: i64, nanos: u32) -> UtcInstant {
    UtcInstant::new(secs, nanos).unwrap()
}

fn ready() -> Display {
    let mut display = Display::new();
    display.update_state(StateEvent::WifiConnected(true));
    display.update_state(StateEvent::MqttConnected(true));
    display.update_state(StateEvent::TimeSynced(true));
    display
}

#[test]
fn new_display_knows_nothing() {
    let display = Display::new();
    assert_eq!(
        display,
        Display {
            tram: None,
            metro: None,
            wifi_connected: false,
            mqtt_connected: false,
            time_synced: false,
            screen: Screen::DataNotAvailable,
        }
    );
    assert!(!display.ready());
}

#[test]
fn each_event_replaces_one_value() {
    let mut display = Display::new();
    let tram = Tram { depart_at: Some(at(100, 0)), time_left_ms: Some(5) };
    let metro = Metro { depart_at: None, time_left_ms: Some(7) };
    display.update_state(StateEvent::TramStateChanged(tram));
    assert_eq!(display, Display { tram: Some(tram), ..Display::new() });
    display.update_state(StateEvent::MetroStateChanged(metro));
    assert_eq!(display, Display { tram: Some(tram), metro: Some(metro), ..Display::new() });
    display.update_state(StateEvent::WifiConnected(true));
    assert!(display.wifi_connected && !display.mqtt_connected && !display.time_synced);
    display.update_state(StateEvent::MqttConnected(true));
    assert!(display.wifi_connected && display.mqtt_connected && !display.time_synced);
    display.update_state(StateEvent::TimeSynced(true));
    assert!(display.ready());
    display.update_state(StateEvent::WifiConnected(false));
    assert!(!display.ready());
    assert_eq!(display.tram, Some(tram));
    assert_eq!(display.metro, Some(metro));
    assert_eq!(display.screen, Screen::DataNotAvailable);
}

#[test]
fn draining_keeps_the_latest_of_each() {
    let old = Tram { depart_at: None, time_left_ms: Some(1) };
    let new = Tram { depart_at: Some(at(5, 5)), time_left_ms: None };
    let events = vec![
        StateEvent::WifiConnected(false),
        StateEvent::TramStateChanged(old),
        StateEvent::WifiConnected(true),
        StateEvent::MqttConnected(true),
        StateEvent::TramStateChanged(new),
        StateEvent::MqttConnected(false),
    ];
    let mut display = Display::new();
    display.drain(&events);
    assert_eq!(
        display,
        Display { tram: Some(new), wifi_connected: true, mqtt_connected: false, ..Display::new() }
    );
    let before = display;
    display.drain(&Vec::new());
    assert_eq!(display, before);
}

#[test]
fn screens_rotate_once_ready() {
    let mut display = ready();
    assert_eq!(display.screen, Screen::DataNotAvailable);
    display.cycle_screen();
    assert_eq!(display.screen, Screen::Tram);
    display.cycle_screen();
    assert_eq!(display.screen, Screen::Tram);
    display.screen = Screen::Metro;
    display.cycle_screen();
    assert_eq!(display.screen, Screen::Weather);
    display.cycle_screen();
    assert_eq!(display.screen, Screen::Tram);
}

#[test]
fn notice_screen_while_not_ready() {
    for screen in [Screen::Tram, Screen::Metro, Screen::Weather, Screen::DataNotAvailable] {
        for missing in 0..3 {
            let mut display = ready();
            display.screen = screen;
            match missing {
                0 => display.wifi_connected = false,
                1 => display.mqtt_connected = false,
                _ => display.time_synced = false,
            }
            let before = display;
            display.cycle_screen();
            assert_eq!(display, Display { screen: Screen::DataNotAvailable, ..before });
        }
    }
}

#[test]
fn notice_names_the_first_thing_that_is_down() {
    let mut display = Display::new();
    assert_eq!(display.draw_data_not_available(), Notice::ConnectingWifi);
    display.time_synced = true;
    display.mqtt_connected = true;
    assert_eq!(display.draw_data_not_available(), Notice::ConnectingWifi);
    display.wifi_connected = true;
    display.mqtt_connected = false;
    assert_eq!(display.draw_data_not_available(), Notice::ConnectingMqtt);
    display.mqtt_connected = true;
    display.time_synced = false;
    assert_eq!(display.draw_data_not_available(), Notice::SyncingTime);
    display.time_synced = true;
    assert_eq!(display.draw_data_not_available(), Notice::WaitingForData);
    assert_eq!(
        display.draw_screen(at(0, 0)),
        Panel::DataNotAvailable(Notice::WaitingForData)
    );
}

#[test]
fn turn_cycles_only_after_the_cycle_time() {
    assert_eq!(SCREEN_CYCLE_MS, 4000);
    assert_eq!(POLL_INTERVAL_MS, 100);
    let events = vec![
        StateEvent::WifiConnected(true),
        StateEvent::MqttConnected(true),
        StateEvent::TimeSynced(true),
    ];
    let mut display = Display::new();
    assert!(!display.turn(&events, 4000));
    assert_eq!(display, Display { screen: Screen::DataNotAvailable, ..ready() });
    let mut display = Display::new();
    assert!(display.turn(&events, 4001));
    assert_eq!(display, Display { screen: Screen::Tram, ..ready() });
}

#[test]
fn tram_countdown() {
    let now = at(1705320000, 0);
    let mut display = ready();
    display.screen = Screen::Tram;
    assert_eq!(display.draw_tram(now), TramPanel::NotAvailable);
    display.tram = Some(Tram { depart_at: None, time_left_ms: Some(300000) });
    assert_eq!(display.draw_tram(now), TramPanel::NotAvailable);
    display.tram = Some(Tram { depart_at: Some(at(1705320000 + 125, 0)), time_left_ms: None });
    assert_eq!(display.draw_tram(now), TramPanel::Countdown { minutes: 2, seconds: 5 });
    assert_eq!(
        display.draw_screen(now),
        Panel::Tram(TramPanel::Countdown { minutes: 2, seconds: 5 })
    );
    display.tram = Some(Tram { depart_at: Some(at(1705320000 + 7200, 0)), time_left_ms: None });
    assert_eq!(display.draw_tram(now), TramPanel::Countdown { minutes: 120, seconds: 0 });
    display.tram = Some(Tram { depart_at: Some(now), time_left_ms: None });
    assert_eq!(display.draw_tram(now), TramPanel::Now);
    display.tram = Some(Tram { depart_at: Some(at(1705320000 - 30, 0)), time_left_ms: None });
    assert_eq!(display.draw_tram(now), TramPanel::Now);
    display.tram = Some(Tram { depart_at: Some(at(1705320001, 0)), time_left_ms: None });
    assert_eq!(display.draw_tram(now), TramPanel::Countdown { minutes: 0, seconds: 1 });
    assert_eq!(display.draw_tram(at(1705320000, 1)), TramPanel::Now);
    display.time_synced = false;
    assert_eq!(display.draw_tram(now), TramPanel::Blank);
}

#[test]
fn tram_departure_is_rounded_to_the_second() {
    let now = at(1000, 0);
    let mut display = ready();
    display.tram = Some(Tram { depart_at: Some(at(1010, 499_999_999)), time_left_ms: None });
    assert_eq!(display.draw_tram(now), TramPanel::Countdown { minutes: 0, seconds: 10 });
    display.tram = Some(Tram { depart_at: Some(at(1010, 500_000_000)), time_left_ms: None });
    assert_eq!(display.draw_tram(now), TramPanel::Countdown { minutes: 0, seconds: 11 });
    display.tram = Some(Tram { depart_at: Some(at(999, 600_000_000)), time_left_ms: None });
    assert_eq!(display.draw_tram(now), TramPanel::Now);
}

#[test]
fn metro_countdown() {
    let now = at(1705320000, 0);
    let mut display = Display::new();
    display.screen = Screen::Metro;
    assert_eq!(display.draw_metro(now), MetroPanel::NotAvailable);
    display.metro = Some(Metro { depart_at: None, time_left_ms: Some(1) });
    assert_eq!(display.draw_metro(now), MetroPanel::Blank);
    display.metro = Some(Metro { depart_at: Some(at(1705320000 + 9420, 0)), time_left_ms: None });
    assert_eq!(display.draw_metro(now), MetroPanel::Countdown { seconds: 9420 });
    assert_eq!(display.draw_screen(now), Panel::Metro(MetroPanel::Countdown { seconds: 9420 }));
    display.metro = Some(Metro { depart_at: Some(at(1705320000 - 1, 0)), time_left_ms: None });
    assert_eq!(display.draw_metro(now), MetroPanel::Now);
}

#[test]
fn weather_is_not_available() {
    let mut display = ready();
    display.screen = Screen::Weather;
    assert_eq!(display.draw_weather(), WeatherPanel::NotAvailable);
    assert_eq!(display.draw_screen(at(0, 0)), Panel::Weather(WeatherPanel::NotAvailable));
}

#[test]
fn clock_line_shows_local_time_once_synced() {
    let mut display = Display::new();
    assert_eq!(display.draw_time(at(1705320000, 0)), None);
    display.time_synced = true;
    assert_eq!(display.draw_time(at(1705320000, 0)), Some("2024-01-15 13:00:00".to_string()));
    assert_eq!(
        display.draw_time(at(1719835200, 999_999_999)),
        Some("2024-07-01 14:00:00".to_string())
    );
    assert_eq!(display.draw_time(at(0, 0)), Some("1970-01-01 01:00:00".to_string()));
}

#[test]
fn sound_snapshots_and_events() {
    let far = UtcInstant { secs: i64::MAX, nanos: 0 };
    let split = UtcInstant { secs: 0, nanos: 1_000_000_000 };
    let fine = at(12, 34);
    assert!(Display::new().is_sound());
    assert!(Display { tram: Some(Tram { depart_at: Some(fine), time_left_ms: None }), ..ready() }
        .is_sound());
    assert!(!Display { tram: Some(Tram { depart_at: Some(far), time_left_ms: None }), ..ready() }
        .is_sound());
    assert!(!Display {
        metro: Some(Metro { depart_at: Some(split), time_left_ms: None }),
        ..ready()
    }
    .is_sound());
    assert!(Display::event_is_sound(StateEvent::WifiConnected(true)));
    let tram = Tram { depart_at: Some(fine), time_left_ms: None };
    assert!(Display::event_is_sound(StateEvent::TramStateChanged(tram)));
    let tram = Tram { depart_at: Some(far), time_left_ms: None };
    assert!(!Display::event_is_sound(StateEvent::TramStateChanged(tram)));
    let metro = Metro { depart_at: Some(split), time_left_ms: Some(1) };
    assert!(!Display::event_is_sound(StateEvent::MetroStateChanged(metro)));
    let metro = Metro { depart_at: None, time_left_ms: Some(1) };
    assert!(Display::event_is_sound(StateEvent::MetroStateChanged(metro)));
}
