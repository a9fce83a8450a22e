use controlnix::wifi::{
    connect_step, wifi_connect_command, wifi_networks, wifi_radio_script, ConnectAction, ConnectEvent,
    ConnectStage, WIFI_LIST_SCRIPT,
};

#[test]
fn connected_network_comes_first() {
    let out = "no:Cafe\nno:Library\nyes:Home\nno:Neighbour\n";
    assert_eq!(wifi_networks(out), vec!["Home", "Cafe", "Library", "Neighbour"]);
}

#[test]
fn without_connection_the_order_is_kept() {
    let out = "no:B\nno:A\n";
    assert_eq!(wifi_networks(out), vec!["B", "A"]);
}

#[test]
fn last_active_entry_wins() {
    let out = "yes:First\nno:Other\nyes:Second\n";
    assert_eq!(wifi_networks(out), vec!["Second", "Other"]);
}

#[test]
fn lines_without_two_fields_are_skipped() {
    let out = "no:Ok\ngarbage\nno:Esc\\:aped\nyes:\n\nno:Last";
    assert_eq!(wifi_networks(out), vec!["", "Ok", "Last"]);
    assert_eq!(wifi_networks(""), Vec::<String>::new());
}

#[test]
fn crlf_lines_are_read_like_str_lines() {
    assert_eq!(wifi_networks("no:A\r\nyes:B\r\n"), vec!["B", "A"]);
}

#[test]
fn list_script_is_the_nmcli_pipeline() {
    assert_eq!(WIFI_LIST_SCRIPT, "nmcli -t -f ACTIVE,SSID device wifi list | sed '/^$/d' | sort -u");
}

#[test]
fn radio_scripts() {
    assert_eq!(wifi_radio_script(true), "nmcli radio wifi on");
    assert_eq!(wifi_radio_script(false), "nmcli radio wifi off");
}

#[test]
fn connect_commands_pass_names_as_they_are() {
    assert_eq!(wifi_connect_command("Home", None), vec!["nmcli", "dev", "wifi", "connect", "Home"]);
    assert_eq!(
        wifi_connect_command("it's; rm -rf ~", Some("pa ss'")),
        vec!["nmcli", "dev", "wifi", "connect", "it's; rm -rf ~", "password", "pa ss'"]
    );
}

#[test]
fn connect_flow_open_network() {
    let (s, a) = connect_step(ConnectStage::Idle, ConnectEvent::Clicked);
    assert_eq!((s, a), (ConnectStage::TryingOpen, ConnectAction::Join(None)));
    let (s, a) = connect_step(s, ConnectEvent::Joined(true));
    assert_eq!((s, a), (ConnectStage::Idle, ConnectAction::ShowConnected(false)));
}

#[test]
fn connect_flow_with_password() {
    let (s, _) = connect_step(ConnectStage::Idle, ConnectEvent::Clicked);
    let (s, a) = connect_step(s, ConnectEvent::Joined(false));
    assert_eq!((s, a), (ConnectStage::ReadingPassword, ConnectAction::ReadPassword));
    let (s, a) = connect_step(s, ConnectEvent::PasswordRead("pw".to_string()));
    assert_eq!(
        (s, a),
        (ConnectStage::TryingPassword, ConnectAction::Join(Some("pw".to_string())))
    );
    let (s, a) = connect_step(s, ConnectEvent::Joined(true));
    assert_eq!((s, a), (ConnectStage::Idle, ConnectAction::ShowConnected(true)));
}

#[test]
fn connect_flow_empty_or_wrong_password_focuses_the_field() {
    let (s, a) = connect_step(ConnectStage::ReadingPassword, ConnectEvent::PasswordRead(String::new()));
    assert_eq!((s, a), (ConnectStage::Idle, ConnectAction::FocusPassword));
    let (s, a) = connect_step(ConnectStage::TryingPassword, ConnectEvent::Joined(false));
    assert_eq!((s, a), (ConnectStage::Idle, ConnectAction::FocusPassword));
}

#[test]
fn connect_flow_ignores_unexpected_events() {
    let (s, a) = connect_step(ConnectStage::Idle, ConnectEvent::Joined(true));
    assert_eq!((s, a), (ConnectStage::Idle, ConnectAction::Nothing));
    let (s, a) = connect_step(ConnectStage::TryingOpen, ConnectEvent::Clicked);
    assert_eq!((s, a), (ConnectStage::TryingOpen, ConnectAction::Nothing));
}
