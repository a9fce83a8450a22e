//! The decisions of the panel's radio sections (Wi-Fi and Bluetooth): which
//! icon the switch shows, which list entries a selection accepts, what
//! "Forget" runs and what the status line says.

use vstd::prelude::*;
use crate::text::same_text;

verus! {

/// The label of the Wi-Fi section.
pub const WIFI_LABEL: &'static str = "Wifi";

/// The label of the Bluetooth section.
pub const BLUETOOTH_LABEL: &'static str = "Bluetooth";

/// The status line before any network was joined.
pub const NOT_CONNECTED: &'static str = "Not connected";

/// The status line after a device could not be connected.
pub const CONNECT_FAILED: &'static str = "Failed to connect";

/// The switch icon of the Wi-Fi section while it is switched off.
pub const WIFI_OFF_ICON: &'static str = "network-wireless-offline-symbolic";

/// The switch icon of the Bluetooth section while it is switched off.
pub const BLUETOOTH_OFF_ICON: &'static str = "bluetooth-disabled-symbolic";

/// A section of the panel.
#[derive(Clone, Copy, Debug, PartialEq, Eq)]
pub enum Radio {
    /// Wi-Fi networks, handled by NetworkManager.
    Wifi,
    /// Bluetooth devices, handled by `bluetoothctl`.
    Bluetooth,
}

/// The section with the label `label`: Wi-Fi for the Wi-Fi label, Bluetooth
/// for any other.
pub fn radio_of(label: &str) -> (res: Radio)
    ensures
        res == (if label@ == WIFI_LABEL@ {
            Radio::Wifi
        } else {
            Radio::Bluetooth
        }),
{
    if same_text(label, WIFI_LABEL) {
        Radio::Wifi
    } else {
        Radio::Bluetooth
    }
}

/// What a click on a section's switch changes.
#[derive(Debug, PartialEq, Eq)]
pub struct SwitchEffect {
    /// The icon the switch shows afterwards.
    pub icon: String,
    /// Whether the section's label and status stay visible.
    pub show_details: bool,
    /// The state the Wi-Fi radio is set to (on is `true`), if it changes.
    pub wifi_radio: Option<bool>,
    /// The state the Bluetooth controller's power is set to (on is `true`),
    /// if it changes.
    pub bluetooth_power: Option<bool>,
}

/// The effect of a click that leaves the switch `pressed` (pressed means
/// off): a pressed switch shows the section's off icon and hides the details,
/// a released one shows `icon` and the details. The click switches the
/// section's own radio off when the switch is pressed and on when it is
/// released, and leaves the other radio alone.
pub fn switch_clicked(radio: Radio, pressed: bool, icon: &str) -> (res: SwitchEffect)
    ensures
        res.icon@ == (if !pressed {
            icon@
        } else if radio == Radio::Wifi {
            WIFI_OFF_ICON@
        } else {
            BLUETOOTH_OFF_ICON@
        }),
        res.show_details == !pressed,
        res.wifi_radio == (if radio == Radio::Wifi {
            Some(!pressed)
        } else {
            None
        }),
        res.bluetooth_power == (if radio == Radio::Bluetooth {
            Some(!pressed)
        } else {
            None
        }),
{
    let shown = if !pressed {
        String::from_str(icon)
    } else {
        match radio {
            Radio::Wifi => String::from_str(WIFI_OFF_ICON),
            Radio::Bluetooth => String::from_str(BLUETOOTH_OFF_ICON),
        }
    };
    let (wifi_radio, bluetooth_power) = match radio {
        Radio::Wifi => (Some(!pressed), None),
        Radio::Bluetooth => (None, Some(!pressed)),
    };
    SwitchEffect { icon: shown, show_details: !pressed, wifi_radio, bluetooth_power }
}

/// Whether an activated row is acted on: it must name a network, and in the
/// Bluetooth section also an address.
pub fn accepts_selection(radio: Radio, network: &str, address: &str) -> (res: bool)
    ensures
        res == (network@.len() > 0 && (radio == Radio::Bluetooth ==> address@.len() > 0)),
{
    if network.is_empty() {
        return false;
    }
    match radio {
        Radio::Wifi => true,
        Radio::Bluetooth => !address.is_empty(),
    }
}

/// The command line that forgets `name`, each argument handed over as it
/// is: the saved NetworkManager connection of that name when `what` is the
/// Wi-Fi label, the paired Bluetooth device of that address otherwise.
pub fn forget_command(what: &str, name: &str) -> (res: Vec<String>)
    ensures
        res.deep_view() == (if what@ == WIFI_LABEL@ {
            seq!["nmcli"@, "connection"@, "delete"@, name@]
        } else {
            seq!["bluetoothctl"@, "remove"@, name@]
        }),
{
    let mut res: Vec<String> = Vec::new();
    if same_text(what, WIFI_LABEL) {
        res.push(String::from_str("nmcli"));
        res.push(String::from_str("connection"));
        res.push(String::from_str("delete"));
        res.push(String::from_str(name));
        assert(res.deep_view() =~= seq!["nmcli"@, "connection"@, "delete"@, name@]);
    } else {
        res.push(String::from_str("bluetoothctl"));
        res.push(String::from_str("remove"));
        res.push(String::from_str(name));
        assert(res.deep_view() =~= seq!["bluetoothctl"@, "remove"@, name@]);
    }
    res
}

/// What "Forget" runs for the selected row: the Wi-Fi section forgets the
/// network by name, the Bluetooth section the device by address.
pub fn forget_selected(radio: Radio, network: &str, address: &str) -> (res: Vec<String>)
    ensures
        res.deep_view() == match radio {
            Radio::Wifi => seq!["nmcli"@, "connection"@, "delete"@, network@],
            Radio::Bluetooth => seq!["bluetoothctl"@, "remove"@, address@],
        },
{
    proof {
        reveal_strlit("Wifi");
        reveal_strlit("Bluetooth");
    }
    match radio {
        Radio::Wifi => forget_command(WIFI_LABEL, network),
        Radio::Bluetooth => {
            assert(BLUETOOTH_LABEL@.len() != WIFI_LABEL@.len());
            forget_command(BLUETOOTH_LABEL, address)
        },
    }
}

/// The status line after connecting to a device: the network's name when it
/// worked, the failure text otherwise.
pub fn device_connect_status(connected: bool, network: &str) -> (res: String)
    ensures
        res@ == (if connected {
            network@
        } else {
            CONNECT_FAILED@
        }),
{
    if connected {
        String::from_str(network)
    } else {
        String::from_str(CONNECT_FAILED)
    }
}

} // verus!
