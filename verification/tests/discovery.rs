use input_lock::background_reader::BackgroundLineReader;
use input_lock::device::{
    list, parse_device, parse_devices, select, Device, DEVICE_PATH_PREFIX, DEVICE_TOOL,
    SETTLE_SECS,
};
use input_lock::CommandError;

fn device(event_path: &str, name: &str) -> Device {
    Device { event_path: event_path.to_string(), name: name.to_string() }
}

fn pairs(devices: &[Device]) -> Vec<(String, String)> {
    devices.iter().map(|d| (d.event_path.clone(), d.name.clone())).collect()
}

fn pair(event_path: &str, name: &str) -> (String, String) {
    (event_path.to_string(), name.to_string())
}

#[test]
fn listing_with_two_devices_among_other_lines() {
    let mut reader = BackgroundLineReader::new();
    for line in [
        "No device specified, trying to scan all of /dev/input/event*",
        "Available devices:",
        "/dev/input/event3: Logitech MX Master",
        "",
        "/dev/input/event5: Builtin Keyboard",
        "Select the device event number [0-5]: ",
    ] {
        assert!(reader.feed(Ok(line.to_string())));
    }
    let devices = list(&mut reader).unwrap();
    assert_eq!(
        pairs(&devices),
        vec![
            pair("/dev/input/event3", "Logitech MX Master"),
            pair("/dev/input/event5", "Builtin Keyboard"),
        ]
    );
}

#[test]
fn listing_trims_both_fields() {
    let device = parse_device("/dev/input/event12 \t:   USB  Optical Mouse \u{a0}\r").unwrap();
    assert_eq!(device.event_path, "/dev/input/event12");
    assert_eq!(device.name, "USB  Optical Mouse");
}

#[test]
fn listing_splits_at_the_first_colon() {
    let device = parse_device("/dev/input/event0:Lid Switch: left").unwrap();
    assert_eq!(device.event_path, "/dev/input/event0");
    assert_eq!(device.name, "Lid Switch: left");
}

#[test]
fn listing_keeps_an_empty_name() {
    let device = parse_device("/dev/input/event7:").unwrap();
    assert_eq!(device.event_path, "/dev/input/event7");
    assert_eq!(device.name, "");
    let device = parse_device("/dev/input/event7:   ").unwrap();
    assert_eq!(device.name, "");
}

#[test]
fn listing_passes_over_lines_that_name_no_device() {
    assert!(parse_device("").is_none());
    assert!(parse_device("Available devices:").is_none());
    assert!(parse_device(" /dev/input/event3: Mouse").is_none());
    assert!(parse_device("/dev/input/mice: Mouse").is_none());
    assert!(parse_device("/dev/input/even").is_none());
    assert!(parse_device("event3: /dev/input/event3").is_none());
}

#[test]
fn listing_passes_over_a_device_path_without_colon() {
    assert!(parse_device("/dev/input/event3").is_none());
    assert!(parse_device("/dev/input/event3 Logitech MX Master").is_none());
    let lines = vec![
        "/dev/input/event3 Logitech".to_string(),
        "/dev/input/event4: Touchpad".to_string(),
    ];
    assert_eq!(pairs(&parse_devices(&lines)), vec![pair("/dev/input/event4", "Touchpad")]);
}

#[test]
fn listing_keeps_the_order_of_the_lines_and_repeats() {
    let lines = vec![
        "/dev/input/event9: B".to_string(),
        "/dev/input/event1: A".to_string(),
        "/dev/input/event9: B".to_string(),
    ];
    assert_eq!(
        pairs(&parse_devices(&lines)),
        vec![
            pair("/dev/input/event9", "B"),
            pair("/dev/input/event1", "A"),
            pair("/dev/input/event9", "B"),
        ]
    );
}

#[test]
fn listing_of_nothing_is_empty() {
    let mut reader = BackgroundLineReader::new();
    assert!(list(&mut reader).unwrap().is_empty());
    assert!(parse_devices(&Vec::new()).is_empty());
}

#[test]
fn listing_reports_the_failure_to_read() {
    let mut reader = BackgroundLineReader::new();
    let failure = std::io::Error::new(std::io::ErrorKind::InvalidData, "stream did not contain valid UTF-8");
    assert!(!reader.feed(Err(failure)));
    match list(&mut reader) {
        Err(CommandError::Io(error)) => {
            assert_eq!(error.kind(), std::io::ErrorKind::InvalidData);
            assert_eq!(error.to_string(), "stream did not contain valid UTF-8");
        }
        other => panic!("expected the failure, got {:?}", other),
    }
}

#[test]
fn listing_gives_the_lines_before_a_failure_first() {
    let mut reader = BackgroundLineReader::new();
    reader.feed(Ok("/dev/input/event2: Power Button".to_string()));
    reader.feed(Err(std::io::Error::new(std::io::ErrorKind::InvalidData, "bad")));
    let devices = list(&mut reader).unwrap();
    assert_eq!(pairs(&devices), vec![pair("/dev/input/event2", "Power Button")]);
    assert!(matches!(list(&mut reader), Err(CommandError::Io(_))));
    assert!(list(&mut reader).unwrap().is_empty());
}

#[test]
fn selection_picks_by_name_in_listing_order() {
    let devices = vec![
        device("/dev/input/event1", "Keyboard"),
        device("/dev/input/event2", "Mouse"),
        device("/dev/input/event3", "Touchpad"),
    ];
    let names = vec!["Touchpad".to_string(), "Keyboard".to_string()];
    assert_eq!(
        pairs(&select(&devices, &names)),
        vec![pair("/dev/input/event1", "Keyboard"), pair("/dev/input/event3", "Touchpad")]
    );
}

#[test]
fn selection_keeps_one_device_per_device_node() {
    let devices = vec![
        device("/dev/input/event1", "Keyboard"),
        device("/dev/input/event2", "Mouse"),
        device("/dev/input/event1", "Keyboard"),
        device("/dev/input/event2", "Mouse"),
        device("/dev/input/event1", "Keyboard Consumer Control"),
    ];
    let names = vec![
        "Keyboard".to_string(),
        "Mouse".to_string(),
        "Keyboard Consumer Control".to_string(),
    ];
    assert_eq!(
        pairs(&select(&devices, &names)),
        vec![pair("/dev/input/event1", "Keyboard"), pair("/dev/input/event2", "Mouse")]
    );
}

#[test]
fn selection_keeps_devices_that_share_a_name() {
    let devices = vec![
        device("/dev/input/event4", "Mouse"),
        device("/dev/input/event6", "Mouse"),
    ];
    let names = vec!["Mouse".to_string()];
    assert_eq!(
        pairs(&select(&devices, &names)),
        vec![pair("/dev/input/event4", "Mouse"), pair("/dev/input/event6", "Mouse")]
    );
}

#[test]
fn selection_needs_the_whole_name() {
    let devices = vec![device("/dev/input/event4", "Mouse")];
    assert!(select(&devices, &vec!["mouse".to_string(), "Mous".to_string()]).is_empty());
    assert!(select(&devices, &Vec::new()).is_empty());
    assert!(select(&Vec::new(), &vec!["Mouse".to_string()]).is_empty());
}

#[test]
fn device_clone_is_equal() {
    let first = device("/dev/input/event3", "Logitech MX Master");
    let second = first.clone();
    assert_eq!(second.event_path, first.event_path);
    assert_eq!(second.name, first.name);
}

#[test]
fn discovery_constants() {
    assert_eq!(DEVICE_TOOL, "evtest");
    assert_eq!(DEVICE_PATH_PREFIX, "/dev/input/event");
    assert_eq!(SETTLE_SECS, 5);
}
