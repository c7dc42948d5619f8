use tramcast::bus::{EventBus, BUS_CAPACITY, SUBJECTS};
use tramcast::display::{same_subject, Display};
use tramcast::state::{Metro, StateEvent, Tram};

#[test]
fn bus_needs_room_for_one_event() {
    assert!(EventBus::new(0).is_none());
    let bus = EventBus::new(3).unwrap();
    assert_eq!(bus.capacity(), 3);
    assert_eq!(bus.len(), 0);
}

#[test]
fn events_leave_in_the_order_they_were_sent() {
    let mut bus = EventBus::new(4).unwrap();
    assert_eq!(bus.send(StateEvent::WifiConnected(false)), None);
    assert_eq!(bus.send(StateEvent::WifiConnected(true)), None);
    assert_eq!(bus.send(StateEvent::TimeSynced(true)), None);
    assert_eq!(bus.len(), 3);
    assert_eq!(
        bus.drain(),
        vec![
            StateEvent::WifiConnected(false),
            StateEvent::WifiConnected(true),
            StateEvent::TimeSynced(true),
        ]
    );
    assert_eq!(bus.len(), 0);
    assert_eq!(bus.capacity(), 4);
    assert!(bus.drain().is_empty());
}

#[test]
fn full_bus_drops_the_oldest() {
    let mut bus = EventBus::new(2).unwrap();
    assert_eq!(bus.send(StateEvent::WifiConnected(false)), None);
    assert_eq!(bus.send(StateEvent::WifiConnected(true)), None);
    assert_eq!(bus.send(StateEvent::TimeSynced(true)), Some(StateEvent::WifiConnected(false)));
    assert_eq!(bus.send(StateEvent::MqttConnected(true)), Some(StateEvent::WifiConnected(true)));
    assert_eq!(bus.len(), 2);
    assert_eq!(
        bus.drain(),
        vec![StateEvent::TimeSynced(true), StateEvent::MqttConnected(true)]
    );
}

#[test]
fn bus_holds_the_last_events_that_fit() {
    let sent: Vec<StateEvent> =
        (0..10).map(|i| StateEvent::WifiConnected(i % 3 == 0)).collect();
    for capacity in 1..12usize {
        let mut bus = EventBus::new(capacity).unwrap();
        for event in &sent {
            bus.send(*event);
        }
        let kept = if sent.len() <= capacity { 0 } else { sent.len() - capacity };
        assert_eq!(bus.drain(), sent[kept..].to_vec());
    }
}

#[test]
fn stale_event_gives_way_before_the_oldest() {
    let tram = Tram { depart_at: None, time_left_ms: Some(9) };
    let mut bus = EventBus::new(3).unwrap();
    bus.send(StateEvent::TramStateChanged(tram));
    bus.send(StateEvent::WifiConnected(false));
    bus.send(StateEvent::WifiConnected(true));
    assert_eq!(bus.send(StateEvent::MqttConnected(true)), Some(StateEvent::WifiConnected(false)));
    assert_eq!(
        bus.send(StateEvent::MqttConnected(false)),
        Some(StateEvent::MqttConnected(true))
    );
    assert_eq!(
        bus.drain(),
        vec![
            StateEvent::TramStateChanged(tram),
            StateEvent::WifiConnected(true),
            StateEvent::MqttConnected(false),
        ]
    );
}

#[test]
fn subjects_of_events() {
    assert_eq!(SUBJECTS, 5);
    assert!(BUS_CAPACITY >= SUBJECTS);
    let tram = Tram { depart_at: None, time_left_ms: None };
    let metro = Metro { depart_at: None, time_left_ms: None };
    let events = [
        StateEvent::WifiConnected(true),
        StateEvent::MqttConnected(true),
        StateEvent::TimeSynced(true),
        StateEvent::TramStateChanged(tram),
        StateEvent::MetroStateChanged(metro),
    ];
    for (i, a) in events.iter().enumerate() {
        for (j, b) in events.iter().enumerate() {
            assert_eq!(same_subject(*a, *b), i == j);
        }
    }
    assert!(same_subject(StateEvent::WifiConnected(true), StateEvent::WifiConnected(false)));
    assert!(same_subject(
        StateEvent::TramStateChanged(tram),
        StateEvent::TramStateChanged(Tram { depart_at: None, time_left_ms: Some(1) })
    ));
}

#[test]
fn slow_display_misses_nothing_that_matters() {
    let mut sent = Vec::new();
    let mut seed: u64 = 12345;
    for _ in 0..200 {
        seed = seed.wrapping_mul(6364136223846793005).wrapping_add(1442695040888963407);
        let pick = (seed >> 33) % 5;
        let flag = (seed >> 40) % 2 == 0;
        let number = ((seed >> 20) % 1000) as i64;
        sent.push(match pick {
            0 => StateEvent::WifiConnected(flag),
            1 => StateEvent::MqttConnected(flag),
            2 => StateEvent::TimeSynced(flag),
            3 => StateEvent::TramStateChanged(Tram { depart_at: None, time_left_ms: Some(number) }),
            _ => StateEvent::MetroStateChanged(Metro {
                depart_at: None,
                time_left_ms: Some(number),
            }),
        });
    }
    for capacity in [5usize, 6, 7, 32] {
        for count in [0usize, 1, 4, 5, 6, 17, 200] {
            let mut bus = EventBus::new(capacity).unwrap();
            for event in &sent[..count] {
                bus.send(*event);
            }
            assert!(bus.len() <= capacity);
            let mut through_bus = Display::new();
            through_bus.drain(&bus.drain());
            let mut direct = Display::new();
            direct.drain(&sent[..count].to_vec());
            assert_eq!(through_bus, direct);
        }
    }
}
