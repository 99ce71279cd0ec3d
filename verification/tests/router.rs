use systemd_status_leds::config::{Config, ServiceConfig, StripConfig};
use systemd_status_leds::led::LedCollection;
use systemd_status_leds::router::{route_event, RouteOutcome};
use systemd_status_leds::table::ColorTable;
use systemd_status_leds::{Color, ServiceEvent, ServiceState};

fn config() -> Config {
    let mut colours = ColorTable::new();
    colours.insert("active".to_string(), "00ff0000".to_string());
    colours.insert("inactive".to_string(), "01010101".to_string());
    let mut own = ColorTable::new();
    own.insert("active".to_string(), "00ff5500".to_string());
    Config {
        services: vec![
            ServiceConfig { name: "a.service".to_string(), states_map: ColorTable::new() },
            ServiceConfig { name: "b.service".to_string(), states_map: own },
        ],
        strip: StripConfig {
            spidev: "0.0".to_string(),
            channels: 4,
            length: 3,
            hertz: 10,
            colours,
        },
    }
}

fn leds() -> LedCollection {
    let mut leds = LedCollection::new(3);
    leds.add_led("a.service".to_string()).unwrap();
    leds.add_led("b.service".to_string()).unwrap();
    leds.fill(Color::new(60, 60, 60, 60));
    leds
}

#[test]
fn event_sets_state_and_color_of_its_light_only() {
    let config = config();
    let mut leds = leds();
    let event = ServiceEvent::new("b.service".to_string(), ServiceState::Active, 5);
    assert_eq!(
        route_event(&config, &mut leds, &event),
        RouteOutcome::Applied { position: 1, color: Some(Color::new(0, 0xff, 0x55, 0)) }
    );
    assert_eq!(leds.get_led(1).unwrap().service_state(), ServiceState::Active);
    assert_eq!(leds.get_led(1).unwrap().color(), Color::new(0, 0xff, 0x55, 0));
    assert_eq!(leds.get_led(0).unwrap().service_state(), ServiceState::Unknown);
    assert_eq!(leds.get_led(0).unwrap().color(), Color::new(60, 60, 60, 60));
    assert_eq!(leds.len(), 2);
}

#[test]
fn event_without_a_color_keeps_the_color() {
    let config = config();
    let mut leds = leds();
    let event = ServiceEvent::new("a.service".to_string(), ServiceState::Failed, 5);
    assert_eq!(
        route_event(&config, &mut leds, &event),
        RouteOutcome::Applied { position: 0, color: None }
    );
    assert_eq!(leds.get_led(0).unwrap().service_state(), ServiceState::Failed);
    assert_eq!(leds.get_led(0).unwrap().color(), Color::new(60, 60, 60, 60));
}

#[test]
fn event_for_an_unknown_unit_changes_nothing() {
    let config = config();
    let mut leds = leds();
    let before = leds.to_buffer(3);
    let event = ServiceEvent::new("c.service".to_string(), ServiceState::Active, 5);
    assert_eq!(route_event(&config, &mut leds, &event), RouteOutcome::UnknownUnit);
    assert_eq!(leds.to_buffer(3), before);
    assert_eq!(leds.get_led(0).unwrap().service_state(), ServiceState::Unknown);
    assert_eq!(leds.get_led(1).unwrap().service_state(), ServiceState::Unknown);
}

#[test]
fn later_event_for_a_unit_wins() {
    let config = config();
    let mut leds = leds();
    route_event(
        &config,
        &mut leds,
        &ServiceEvent::new("a.service".to_string(), ServiceState::Active, 1),
    );
    route_event(
        &config,
        &mut leds,
        &ServiceEvent::new("a.service".to_string(), ServiceState::Inactive, 2),
    );
    assert_eq!(leds.get_led(0).unwrap().service_state(), ServiceState::Inactive);
    assert_eq!(leds.get_led(0).unwrap().color(), Color::new(1, 1, 1, 1));
}
