//! `--create-udev-rules`: install the scoped udev rules (Stream Deck HID +
//! /dev/uinput) so the daemon can run as a normal user. Root is required only for
//! this one-time write; the daemon itself never needs it.

use vstd::prelude::*;

verus! {

/// Where the rules go. Numbered 70 (not 99) on purpose: a `TAG+="uaccess"` rule
/// must sort before systemd's 71-seat.rules / 73-seat-late.rules, which consume
/// the tag and apply the ACL.
pub const RULES_PATH: &'static str = "/etc/udev/rules.d/70-sd_rust.rules";

/// What creating the rules comes to.
#[derive(Debug, Clone, Copy, PartialEq, Eq, Structural)]
pub enum UdevStep {
    /// It takes root.
    NeedsRoot,
    /// The rules exist: ask whether to overwrite them.
    Ask,
    /// Leave the rules as they are.
    Keep,
    /// Write the rules.
    Write,
}

/// What creating the rules comes to. `overwrite` is what was answered, once it was
/// asked.
pub fn create_udev_rules(root: bool, present: bool, overwrite: Option<bool>) -> (r: UdevStep)
    ensures
        r == (if !root {
            UdevStep::NeedsRoot
        } else if !present || overwrite == Some(true) {
            UdevStep::Write
        } else if overwrite is None {
            UdevStep::Ask
        } else {
            UdevStep::Keep
        }),
{
    if !root {
        return UdevStep::NeedsRoot;
    }
    if !present {
        return UdevStep::Write;
    }
    match overwrite {
        None => UdevStep::Ask,
        Some(true) => UdevStep::Write,
        Some(false) => UdevStep::Keep,
    }
}

} // verus!
