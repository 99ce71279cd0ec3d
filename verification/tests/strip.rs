use systemd_status_leds::config::{Config, ServiceConfig};
use systemd_status_leds::router::RouteOutcome;
use systemd_status_leds::strip::{
    classify_write, DeviceError, RendererState, SpiDevice, StopReport, Strip, StripConfig,
    StripError, WriteOutcome,
};
use systemd_status_leds::table::ColorTable;
use systemd_status_leds::{Color, ServiceEvent, ServiceState};

#[derive(Debug, Default)]
struct FakeDevice {
    frames: Vec<Vec<u8>>,
    fail: bool,
    take_at_most: Option<usize>,
}

impl SpiDevice for FakeDevice {
    fn write(&mut self, data: &[u8]) -> Result<usize, DeviceError> {
        self.frames.push(data.to_vec());
        if self.fail {
            return Err(DeviceError { message: "bus error".to_string() });
        }
        match self.take_at_most {
            Some(n) if n < data.len() => Ok(n),
            _ => Ok(data.len()),
        }
    }
}

fn strip_config(length: usize) -> StripConfig {
    StripConfig { device_path: "test".to_string(), length, channels: 4, frequency: 10 }
}

fn two_service_config() -> Config {
    let mut colours = ColorTable::new();
    colours.insert("active".to_string(), "00ff0000".to_string());
    colours.insert("failed".to_string(), "55002200".to_string());
    Config {
        services: vec![
            ServiceConfig { name: "svc1".to_string(), states_map: ColorTable::new() },
            ServiceConfig { name: "svc2".to_string(), states_map: ColorTable::new() },
        ],
        strip: systemd_status_leds::config::StripConfig {
            spidev: "0.0".to_string(),
            channels: 4,
            length: 5,
            hertz: 10,
            colours,
        },
    }
}

#[test]
fn test_strip_creation() {
    let config = strip_config(5);
    let strip = Strip::with_spi_device(config.clone(), FakeDevice::default()).unwrap();

    assert_eq!(strip.config().length, 5);
    assert_eq!(strip.config().channels, 4);
    assert_eq!(strip.service_count(), 0);
    assert!(!strip.is_full());
}

#[test]
fn strip_test_add_service() {
    let mut strip = Strip::with_spi_device(strip_config(2), FakeDevice::default()).unwrap();

    strip.add_service("service1.service".to_string()).unwrap();
    assert_eq!(strip.service_count(), 1);
    assert!(!strip.is_full());

    strip.add_service("service2.service".to_string()).unwrap();
    assert_eq!(strip.service_count(), 2);
    assert!(strip.is_full());

    // Should fail to add more services
    assert!(strip.add_service("service3.service".to_string()).is_err());
    assert_eq!(
        strip.add_service("service3.service".to_string()),
        Err(StripError::CapacityExceeded { length: 2 })
    );
    assert_eq!(strip.service_count(), 2);
}

#[test]
fn test_update() {
    let mut strip = Strip::with_spi_device(strip_config(2), FakeDevice::default()).unwrap();

    strip.add_service("service1.service".to_string()).unwrap();
    strip.add_service("service2.service".to_string()).unwrap();

    // Set colors
    strip.set_color(0, Color::new(255, 0, 0, 0)).unwrap();
    strip.set_color(1, Color::new(0, 255, 0, 0)).unwrap();

    strip.update().unwrap();
    strip.stop();

    // One write for the update and one for the shutdown, eight bytes each.
    assert_eq!(strip.spi_device().frames.len(), 2);
    assert_eq!(strip.spi_device().frames[0], vec![255, 0, 0, 0, 0, 255, 0, 0]);
    assert_eq!(strip.spi_device().frames[1], vec![0u8; 8]);
}

#[test]
fn test_loading_pattern() {
    let mut strip = Strip::with_spi_device(strip_config(3), FakeDevice::default()).unwrap();

    strip.add_service("service1.service".to_string()).unwrap();
    strip.add_service("service2.service".to_string()).unwrap();

    strip.set_loading_pattern().unwrap();

    let loading_color = Color::new(60, 60, 60, 60);
    for led in strip.led_collection().leds() {
        assert_eq!(led.color(), loading_color);
    }
    assert_eq!(strip.led_collection().len(), 2);
}

#[test]
fn test_turn_off_all() {
    let mut strip = Strip::with_spi_device(strip_config(2), FakeDevice::default()).unwrap();

    strip.add_service("service1.service".to_string()).unwrap();

    // Set a color
    strip.set_color(0, Color::new(255, 255, 255, 255)).unwrap();

    strip.turn_off_all();

    assert_eq!(strip.led_collection().get_led(0).unwrap().color(), Color::default());
    assert!(strip.spi_device().frames.is_empty());
}

#[test]
fn zero_frequency_is_refused() {
    let mut config = strip_config(2);
    config.frequency = 0;
    assert_eq!(
        Strip::with_spi_device(config, FakeDevice::default()).err(),
        Some(StripError::InvalidFrequency)
    );
}

#[test]
fn oversized_length_is_refused() {
    let config = strip_config(usize::MAX / 4 + 1);
    assert_eq!(
        Strip::with_spi_device(config, FakeDevice::default()).err(),
        Some(StripError::LengthTooLarge { length: usize::MAX / 4 + 1 })
    );
}

#[test]
fn period_is_whole_milliseconds() {
    let strip = Strip::with_spi_device(strip_config(1), FakeDevice::default()).unwrap();
    assert_eq!(strip.update_interval_millis(), 100);
    let mut config = strip_config(1);
    config.frequency = 3;
    let strip = Strip::with_spi_device(config, FakeDevice::default()).unwrap();
    assert_eq!(strip.update_interval_millis(), 333);
    let mut config = strip_config(1);
    config.frequency = 1200;
    let strip = Strip::with_spi_device(config, FakeDevice::default()).unwrap();
    assert_eq!(strip.update_interval_millis(), 0);
}

#[test]
fn classify_write_verdicts() {
    assert_eq!(classify_write(Ok(8), 8), Ok(WriteOutcome::Complete { written: 8 }));
    assert_eq!(classify_write(Ok(3), 8), Ok(WriteOutcome::Partial { written: 3, expected: 8 }));
    assert_eq!(classify_write(Ok(0), 0), Ok(WriteOutcome::Complete { written: 0 }));
    let e = DeviceError { message: "no".to_string() };
    assert_eq!(classify_write(Err(e.clone()), 8), Err(StripError::Device(e)));
}

#[test]
fn failed_and_short_writes_do_not_stop_the_renderer() {
    let device = FakeDevice { fail: true, ..FakeDevice::default() };
    let mut strip = Strip::with_spi_device(strip_config(1), device).unwrap();
    strip.add_service("a".to_string()).unwrap();
    assert!(strip.start());
    assert_eq!(
        strip.update(),
        Err(StripError::Device(DeviceError { message: "bus error".to_string() }))
    );
    assert_eq!(strip.state(), RendererState::Running);
    assert_eq!(
        strip.update(),
        Err(StripError::Device(DeviceError { message: "bus error".to_string() }))
    );
    assert_eq!(strip.spi_device().frames.len(), 2);

    let device = FakeDevice { take_at_most: Some(3), ..FakeDevice::default() };
    let mut strip = Strip::with_spi_device(strip_config(1), device).unwrap();
    assert_eq!(strip.update(), Ok(WriteOutcome::Partial { written: 3, expected: 4 }));
    assert_eq!(strip.state(), RendererState::Idle);
}

#[test]
fn start_runs_an_idle_renderer_only() {
    let mut strip = Strip::with_spi_device(strip_config(1), FakeDevice::default()).unwrap();
    assert_eq!(strip.state(), RendererState::Idle);
    assert!(strip.start());
    assert_eq!(strip.state(), RendererState::Running);
    assert!(!strip.start());
    assert_eq!(strip.state(), RendererState::Running);
    strip.stop();
    assert!(!strip.start());
    assert_eq!(strip.state(), RendererState::Stopped);
}

#[test]
fn stop_twice_writes_one_dark_frame() {
    let mut strip = Strip::with_spi_device(strip_config(2), FakeDevice::default()).unwrap();
    strip.add_service("a".to_string()).unwrap();
    strip.set_state(0, ServiceState::Active, Some(Color::new(1, 2, 3, 4))).unwrap();
    strip.start();
    strip.update().unwrap();

    let first = strip.stop();
    assert_eq!(first, StopReport::Flushed(Ok(WriteOutcome::Complete { written: 8 })));
    assert_eq!(strip.state(), RendererState::Stopped);
    assert_eq!(strip.spi_device().frames.len(), 2);
    assert_eq!(strip.spi_device().frames[1], vec![0u8; 8]);
    assert_eq!(strip.led_collection().get_led(0).unwrap().service_state(), ServiceState::Unknown);

    let second = strip.stop();
    assert_eq!(second, StopReport::AlreadyStopped);
    assert_eq!(strip.state(), RendererState::Stopped);
    assert_eq!(strip.spi_device().frames.len(), 2);

    // A stopped renderer writes nothing any more.
    assert_eq!(strip.update(), Err(StripError::Stopped));
    assert_eq!(strip.spi_device().frames.len(), 2);
}

#[test]
fn stop_without_start_and_with_a_failing_device() {
    let device = FakeDevice { fail: true, ..FakeDevice::default() };
    let mut strip = Strip::with_spi_device(strip_config(1), device).unwrap();
    let report = strip.stop();
    assert_eq!(
        report,
        StopReport::Flushed(Err(StripError::Device(DeviceError {
            message: "bus error".to_string()
        })))
    );
    assert_eq!(strip.state(), RendererState::Stopped);
    assert_eq!(strip.stop(), StopReport::AlreadyStopped);
    assert_eq!(strip.spi_device().frames.len(), 1);
}

#[test]
fn stop_in_two_steps() {
    let mut strip = Strip::with_spi_device(strip_config(2), FakeDevice::default()).unwrap();
    strip.add_service("a".to_string()).unwrap();
    strip.set_color(0, Color::new(9, 9, 9, 9)).unwrap();
    assert_eq!(strip.begin_stop(), Some(vec![0u8; 8]));
    assert_eq!(strip.state(), RendererState::Draining);
    assert_eq!(strip.begin_stop(), None);
    strip.finish_stop();
    assert_eq!(strip.state(), RendererState::Stopped);
    assert_eq!(strip.begin_stop(), None);
    strip.finish_stop();
    assert_eq!(strip.state(), RendererState::Stopped);
    assert!(strip.spi_device().frames.is_empty());
}

#[test]
fn from_config_builds_one_loading_light_per_service() {
    let strip = Strip::from_config(&two_service_config(), FakeDevice::default()).unwrap();
    assert_eq!(strip.service_count(), 2);
    assert_eq!(strip.config().length, 5);
    assert_eq!(strip.config().channels, 4);
    assert_eq!(strip.config().frequency, 10);
    assert_eq!(strip.config().device_path, "0.0");
    assert_eq!(strip.update_interval_millis(), 100);
    assert_eq!(strip.state(), RendererState::Idle);
    let leds = strip.led_collection();
    assert_eq!(leds.get_led(0).unwrap().unit_name(), "svc1");
    assert_eq!(leds.get_led(1).unwrap().unit_name(), "svc2");
    assert_eq!(leds.get_led(1).unwrap().position(), 1);
    assert_eq!(leds.get_led(0).unwrap().color(), Color::new(60, 60, 60, 60));
    assert_eq!(leds.get_led(1).unwrap().service_state(), ServiceState::Unknown);
}

#[test]
fn from_config_refuses_too_many_services_and_zero_hertz() {
    let mut config = two_service_config();
    config.strip.length = 1;
    assert_eq!(
        Strip::from_config(&config, FakeDevice::default()).err(),
        Some(StripError::TooManyServices { services: 2, length: 1 })
    );
    let mut config = two_service_config();
    config.strip.hertz = 0;
    assert_eq!(
        Strip::from_config(&config, FakeDevice::default()).err(),
        Some(StripError::InvalidFrequency)
    );
}

#[test]
fn end_to_end_event_reaches_the_next_frame() {
    let config = two_service_config();
    let mut strip = Strip::from_config(&config, FakeDevice::default()).unwrap();
    assert_eq!(strip.update_interval_millis(), 100);
    strip.start();

    let event = ServiceEvent::new("svc1".to_string(), ServiceState::Active, 0);
    let outcome = strip.apply_event(&config, &event);
    assert_eq!(
        outcome,
        RouteOutcome::Applied { position: 0, color: Some(Color::new(0, 0xff, 0, 0)) }
    );

    strip.update().unwrap();
    let frame = &strip.spi_device().frames[0];
    assert_eq!(frame.len(), 20);
    assert_eq!(&frame[0..4], &[0, 0xff, 0, 0]);
    assert_eq!(&frame[4..8], &[60, 60, 60, 60]);
    assert_eq!(&frame[8..20], &[0u8; 12]);

    let event = ServiceEvent::new("svc2".to_string(), ServiceState::Failed, 1);
    strip.apply_event(&config, &event);
    strip.update().unwrap();
    let frame = &strip.spi_device().frames[1];
    assert_eq!(&frame[0..4], &[0, 0xff, 0, 0]);
    assert_eq!(&frame[4..8], &[0x55, 0, 0x22, 0]);
}

#[test]
fn absent_light_is_reported_by_position() {
    let mut strip = Strip::with_spi_device(strip_config(2), FakeDevice::default()).unwrap();
    strip.add_service("a".to_string()).unwrap();
    assert_eq!(
        strip.set_color(1, Color::new(1, 1, 1, 1)),
        Err(StripError::NoSuchLed { position: 1 })
    );
    assert_eq!(
        strip.set_state(4, ServiceState::Active, None),
        Err(StripError::NoSuchLed { position: 4 })
    );
    assert_eq!(strip.frame(), vec![0u8; 8]);
}

#[test]
fn frame_covers_the_whole_strip() {
    let mut strip = Strip::with_spi_device(strip_config(3), FakeDevice::default()).unwrap();
    strip.add_service("a".to_string()).unwrap();
    strip.set_state(0, ServiceState::Active, Some(Color::new(1, 2, 3, 4))).unwrap();
    assert_eq!(strip.frame(), vec![1, 2, 3, 4, 0, 0, 0, 0, 0, 0, 0, 0]);
    assert!(strip.spi_device().frames.is_empty());
}

#[test]
fn event_for_a_unit_without_a_light_is_skipped() {
    let config = two_service_config();
    let mut strip = Strip::from_config(&config, FakeDevice::default()).unwrap();
    let before = strip.frame();
    let event = ServiceEvent::new("other.service".to_string(), ServiceState::Active, 0);
    assert_eq!(strip.apply_event(&config, &event), RouteOutcome::UnknownUnit);
    assert_eq!(strip.frame(), before);
}
