//! KDE Plasma on-screen-display popups via the `org.kde.osdService` D-Bus
//! interface: a "Microphone: Muted" style OSD when a mute is toggled, matching
//! what KDE shows for its own mute keys.
//!
//! The OSD takes themed icon *names* (not file paths).

use vstd::prelude::*;

use crate::text;

verus! {

/// Where the popups are sent.
pub const DEST: &'static str = "org.kde.plasmashell";

pub const PATH: &'static str = "/org/kde/osdService";

pub const IFACE: &'static str = "org.kde.osdService";

/// The method that shows a text with a themed icon (the form KDE uses for mute
/// toggles).
pub const SHOW_TEXT: &'static str = "showText";

/// A popup: a themed icon's name and a text.
#[derive(Debug, Clone)]
pub struct Popup {
    pub icon: String,
    pub text: String,
}

/// The popup of a mute toggle.
pub open spec fn is_mute_status(
    p: Popup,
    label: Seq<char>,
    muted: bool,
    muted_icon: Seq<char>,
    unmuted_icon: Seq<char>,
) -> bool {
    &&& p.icon@ == (if muted {
        muted_icon
    } else {
        unmuted_icon
    })
    &&& p.text@ == label + ": "@ + (if muted {
        "Muted"@
    } else {
        "Unmuted"@
    })
}

fn show_mute_status(label: &str, muted: bool, muted_icon: &str, unmuted_icon: &str) -> (r: Popup)
    ensures
        is_mute_status(r, label@, muted, muted_icon@, unmuted_icon@),
{
    let icon = if muted {
        muted_icon
    } else {
        unmuted_icon
    };
    let status = if muted {
        "Muted"
    } else {
        "Unmuted"
    };
    let mut words = text::chars(label);
    text::append(&mut words, ": ");
    text::append(&mut words, status);
    Popup { icon: icon.to_string(), text: text::string(&words) }
}

/// The mic-mute popup.
pub fn show_mic_mute(muted: bool) -> (r: Popup)
    ensures
        is_mute_status(
            r,
            "Microphone"@,
            muted,
            "microphone-sensitivity-muted"@,
            "microphone-sensitivity-high"@,
        ),
{
    show_mute_status(
        "Microphone",
        muted,
        "microphone-sensitivity-muted",
        "microphone-sensitivity-high",
    )
}

/// The system-output-mute popup.
pub fn show_system_mute(muted: bool) -> (r: Popup)
    ensures
        is_mute_status(r, "Output"@, muted, "audio-volume-muted"@, "audio-volume-high"@),
{
    show_mute_status("Output", muted, "audio-volume-muted", "audio-volume-high")
}

/// The popup of a mute has the icon of the state and says the device and the state.
pub proof fn popups_say_the_state(
    p: Popup,
    label: Seq<char>,
    muted_icon: Seq<char>,
    unmuted_icon: Seq<char>,
)
    ensures
        is_mute_status(p, label, true, muted_icon, unmuted_icon) <==> p.icon@ == muted_icon
            && p.text@ == label + ": "@ + "Muted"@,
        is_mute_status(p, label, false, muted_icon, unmuted_icon) <==> p.icon@ == unmuted_icon
            && p.text@ == label + ": "@ + "Unmuted"@,
{
}

} // verus!
