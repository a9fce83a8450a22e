use controlnix::controls::{
    brightness_arguments, mute_icon, slider_kind, volume_script, SliderKind, BRIGHTNESS_ICON,
    BRIGHTNESS_PROGRAM,
    BRIGHTNESS_QUERY_SCRIPT, MUTE_TOGGLE_SCRIPT, VOLUME_QUERY_SCRIPT,
};
use controlnix::panel::{
    accepts_selection, device_connect_status, forget_command, forget_selected, radio_of,
    switch_clicked, Radio,
};

#[test]
fn volume_script_renders_the_level() {
    assert_eq!(
        volume_script(45),
        "pamixer -u; pamixer --allow-boost --set-volume 45; kill \"$(pidof sleep)\""
    );
    assert_eq!(
        volume_script(0),
        "pamixer -u; pamixer --allow-boost --set-volume 0; kill \"$(pidof sleep)\""
    );
    assert_eq!(VOLUME_QUERY_SCRIPT, "pamixer --get-volume");
    assert_eq!(MUTE_TOGGLE_SCRIPT, "pamixer -t; kill \"$(pidof sleep)\"");
}

#[test]
fn brightness_arguments_for_xbacklight() {
    assert_eq!(BRIGHTNESS_PROGRAM, "xbacklight");
    assert_eq!(brightness_arguments(100), vec!["-set", "100%"]);
    assert_eq!(brightness_arguments(40), vec!["-set", "40%"]);
    assert_eq!(brightness_arguments(7), vec!["-set", "7%"]);
    assert_eq!(BRIGHTNESS_QUERY_SCRIPT, "xbacklight -get");
}

#[test]
fn sliders_and_mute_icon() {
    assert_eq!(slider_kind("audio-volume-high-symbolic"), SliderKind::Volume);
    assert_eq!(slider_kind(BRIGHTNESS_ICON), SliderKind::Brightness);
    assert_eq!(slider_kind("anything"), SliderKind::Brightness);
    assert_eq!(mute_icon(true), "audio-volume-muted-symbolic");
    assert_eq!(mute_icon(false), "audio-volume-high-symbolic");
}

#[test]
fn radio_labels() {
    assert_eq!(radio_of("Wifi"), Radio::Wifi);
    assert_eq!(radio_of("Bluetooth"), Radio::Bluetooth);
    assert_eq!(radio_of("wifi"), Radio::Bluetooth);
}

#[test]
fn switch_icons_and_requests() {
    let e = switch_clicked(Radio::Wifi, true, "network-wireless-symbolic");
    assert_eq!(e.icon, "network-wireless-offline-symbolic");
    assert!(!e.show_details);
    assert_eq!((e.wifi_radio, e.bluetooth_power), (Some(false), None));
    let e = switch_clicked(Radio::Wifi, false, "network-wireless-symbolic");
    assert_eq!(e.icon, "network-wireless-symbolic");
    assert_eq!((e.wifi_radio, e.bluetooth_power), (Some(true), None));
    let e = switch_clicked(Radio::Bluetooth, true, "bluetooth-symbolic");
    assert_eq!(e.icon, "bluetooth-disabled-symbolic");
    assert_eq!((e.wifi_radio, e.bluetooth_power), (None, Some(false)));
    let e = switch_clicked(Radio::Bluetooth, false, "bluetooth-symbolic");
    assert_eq!(e.icon, "bluetooth-symbolic");
    assert!(e.show_details);
    assert_eq!((e.wifi_radio, e.bluetooth_power), (None, Some(true)));
}

#[test]
fn selections() {
    assert!(accepts_selection(Radio::Wifi, "Home", ""));
    assert!(!accepts_selection(Radio::Wifi, "", "x"));
    assert!(!accepts_selection(Radio::Bluetooth, "Phone", ""));
    assert!(accepts_selection(Radio::Bluetooth, "Phone", "AA:BB"));
}

#[test]
fn forget_commands() {
    assert_eq!(forget_command("Wifi", "Joe's Home"), vec!["nmcli", "connection", "delete", "Joe's Home"]);
    assert_eq!(forget_command("Bluetooth", "AA:BB"), vec!["bluetoothctl", "remove", "AA:BB"]);
    assert_eq!(forget_selected(Radio::Wifi, "Home", "x"), vec!["nmcli", "connection", "delete", "Home"]);
    assert_eq!(forget_selected(Radio::Bluetooth, "Phone", "AA:BB"), vec!["bluetoothctl", "remove", "AA:BB"]);
}

#[test]
fn device_status_line() {
    assert_eq!(device_connect_status(true, "Phone"), "Phone");
    assert_eq!(device_connect_status(false, "Phone"), "Failed to connect");
}
