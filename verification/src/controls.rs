//! Volume and brightness: the commands that read and set them.

use vstd::prelude::*;
use crate::text::{decimal, push_decimal, same_text};

verus! {

/// Prints the current volume, in percent.
pub const VOLUME_QUERY_SCRIPT: &'static str = "pamixer --get-volume";

/// Mutes or unmutes the output, then wakes a waiting status bar.
pub const MUTE_TOGGLE_SCRIPT: &'static str = "pamixer -t; kill \"$(pidof sleep)\"";

/// Prints the current screen brightness, in percent.
pub const BRIGHTNESS_QUERY_SCRIPT: &'static str = "xbacklight -get";

/// The icon that marks the volume slider.
pub const VOLUME_ICON: &'static str = "audio-volume-high-symbolic";

/// The icon that marks the brightness slider.
pub const BRIGHTNESS_ICON: &'static str = "display-brightness-symbolic";

/// The icon of the mute button while the output is muted.
pub const MUTED_ICON: &'static str = "audio-volume-muted-symbolic";

/// The command that unmutes the output, sets the volume to `volume` percent
/// (boost above 100 allowed) and wakes a waiting status bar.
pub fn volume_script(volume: u8) -> (res: String)
    ensures
        res@ == "pamixer -u; pamixer --allow-boost --set-volume "@ + decimal(volume as nat)
            + "; kill \"$(pidof sleep)\""@,
{
    let mut res = String::from_str("pamixer -u; pamixer --allow-boost --set-volume ");
    push_decimal(&mut res, volume);
    res.append("; kill \"$(pidof sleep)\"");
    res
}

/// The program that sets the screen brightness.
pub const BRIGHTNESS_PROGRAM: &'static str = "xbacklight";

/// The arguments handed to `xbacklight` to set the brightness to `level`
/// percent: `-set` and the level with a `%` sign.
pub fn brightness_arguments(level: u8) -> (res: Vec<String>)
    ensures
        res.deep_view() == seq!["-set"@, decimal(level as nat) + "%"@],
{
    let mut res: Vec<String> = Vec::new();
    res.push(String::from_str("-set"));
    let mut last = String::new();
    push_decimal(&mut last, level);
    last.append("%");
    assert(last@ =~= decimal(level as nat) + "%"@);
    res.push(last);
    assert(res.deep_view() =~= seq!["-set"@, decimal(level as nat) + "%"@]);
    res
}

/// What a slider controls.
#[derive(Clone, Copy, Debug, PartialEq, Eq)]
pub enum SliderKind {
    /// The output volume.
    Volume,
    /// The screen brightness.
    Brightness,
}

/// The slider marked with `icon` controls the volume when the icon is the
/// volume icon, and the brightness otherwise.
pub fn slider_kind(icon: &str) -> (res: SliderKind)
    ensures
        res == (if icon@ == VOLUME_ICON@ {
            SliderKind::Volume
        } else {
            SliderKind::Brightness
        }),
{
    if same_text(icon, VOLUME_ICON) {
        SliderKind::Volume
    } else {
        SliderKind::Brightness
    }
}

/// The icon of the mute button: the muted icon while it is pressed, the
/// volume icon otherwise.
pub fn mute_icon(pressed: bool) -> (res: &'static str)
    ensures
        res@ == (if pressed {
            MUTED_ICON@
        } else {
            VOLUME_ICON@
        }),
{
    if pressed {
        MUTED_ICON
    } else {
        VOLUME_ICON
    }
}

} // verus!
