use controlnix::bluetooth::{
    connect_command, device_line_entry, device_list, device_row, power_script, powered_from,
    scan_step, ScanAction, ScanEvent, ScanStage, DEVICES_SCRIPT, POWER_QUERY_SCRIPT, SCAN_OFF_SCRIPT,
    SCAN_ON_SCRIPT, SCAN_SECONDS,
};

#[test]
fn power_scripts() {
    assert_eq!(power_script(true), "bluetoothctl power on");
    assert_eq!(power_script(false), "bluetoothctl power off");
    assert_eq!(POWER_QUERY_SCRIPT, "bluetoothctl show | grep PowerState | awk {'print $2'}");
}

#[test]
fn power_state_reading() {
    assert!(powered_from(true, "on\n"));
    assert!(powered_from(true, "  on "));
    assert!(!powered_from(true, "off\n"));
    assert!(!powered_from(false, "on\n"));
    assert!(!powered_from(true, ""));
    assert!(!powered_from(true, "on on"));
}

#[test]
fn device_lines() {
    assert_eq!(
        device_line_entry("Device 12:34:56:78:9A:BC My  Head Phones"),
        Some("12:34:56:78:9A:BC - My Head Phones".to_string())
    );
    assert_eq!(device_line_entry("Device 12:34 X"), Some("12:34 - X".to_string()));
    assert_eq!(device_line_entry("Device 12:34"), None);
    assert_eq!(device_line_entry("Controller 12:34 Laptop"), None);
    assert_eq!(device_line_entry(""), None);
}

#[test]
fn device_list_keeps_device_lines_in_order() {
    let out = "Device AA:AA Phone\nController CC:CC box [default]\nDevice BB:BB Big Speaker\nnoise\n";
    assert_eq!(device_list(out), vec!["AA:AA - Phone", "BB:BB - Big Speaker"]);
    assert_eq!(device_list(""), Vec::<String>::new());
}

#[test]
fn rows_show_first_name_word_and_address() {
    assert_eq!(
        device_row("AA:AA - Big Speaker"),
        Some(("Big".to_string(), "AA:AA".to_string()))
    );
    assert_eq!(device_row("Home"), None);
    assert_eq!(device_row("a b"), None);
}

#[test]
fn row_of_a_listed_device() {
    let line = "Device 00:11:22:33:44:55 Living Room TV";
    let entry = device_line_entry(line).unwrap();
    assert_eq!(
        device_row(&entry),
        Some(("Living".to_string(), "00:11:22:33:44:55".to_string()))
    );
}

#[test]
fn connect_command_names_the_address() {
    assert_eq!(connect_command("AA:BB"), vec!["bluetoothctl", "connect", "AA:BB"]);
    assert_eq!(connect_command("a b;c"), vec!["bluetoothctl", "connect", "a b;c"]);
}

#[test]
fn scan_runs_through_all_steps() {
    let (s, a) = scan_step(ScanStage::Idle, ScanEvent::Start);
    assert_eq!((s, a), (ScanStage::PoweringOn, ScanAction::Run("bluetoothctl power on".to_string())));
    let (s, a) = scan_step(s, ScanEvent::Finished(true, String::new()));
    assert_eq!((s, a), (ScanStage::StartingScan, ScanAction::Run(SCAN_ON_SCRIPT.to_string())));
    let (s, a) = scan_step(s, ScanEvent::Finished(true, String::new()));
    assert_eq!((s, a), (ScanStage::Scanning, ScanAction::Sleep(SCAN_SECONDS)));
    assert_eq!(SCAN_SECONDS, 5);
    let (s, a) = scan_step(s, ScanEvent::Slept);
    assert_eq!((s, a), (ScanStage::StoppingScan, ScanAction::Run(SCAN_OFF_SCRIPT.to_string())));
    let (s, a) = scan_step(s, ScanEvent::Finished(false, String::new()));
    assert_eq!((s, a), (ScanStage::Listing, ScanAction::Run(DEVICES_SCRIPT.to_string())));
    let (s, a) = scan_step(s, ScanEvent::Finished(true, "Device AA:AA Phone\n".to_string()));
    assert_eq!(
        (s, a),
        (ScanStage::Idle, ScanAction::Report(vec!["AA:AA - Phone".to_string()]))
    );
}

#[test]
fn scan_stops_when_power_or_scan_fails() {
    let (s, a) = scan_step(ScanStage::PoweringOn, ScanEvent::Finished(false, String::new()));
    assert_eq!((s, a), (ScanStage::Idle, ScanAction::Report(Vec::new())));
    let (s, a) = scan_step(ScanStage::StartingScan, ScanEvent::Finished(false, String::new()));
    assert_eq!((s, a), (ScanStage::Idle, ScanAction::Report(Vec::new())));
    let (s, a) = scan_step(ScanStage::Scanning, ScanEvent::Start);
    assert_eq!((s, a), (ScanStage::Scanning, ScanAction::Nothing));
}
