//! Where the build came from and whether it may report anything.
//!
//! Flathub requires reporting to be off until the user says otherwise, and
//! the Snap ships the same binary as the GitHub release, so the channel is
//! detected at runtime instead of being compiled in.

use vstd::prelude::*;

verus! {

/// How this build was installed.
#[derive(Debug, Clone, Copy, PartialEq, Eq, Structural)]
pub enum Channel {
    Flatpak,
    Snap,
    /// GitHub release and everything repackaging it: winget, Chocolatey,
    /// Homebrew, Scoop, deb/rpm, RuStore.
    Direct,
}

/// What to do on this launch.
#[derive(Debug, Clone, Copy, PartialEq, Eq, Structural)]
pub enum Decision {
    /// Collect nothing until the user answers the first-run dialog.
    Ask,
    /// Collect; `notice` asks for the one-time banner shown to users who
    /// were never given a dialog.
    Collect { notice: bool },
    Off,
}

/// The report key of a channel.
pub open spec fn channel_name(channel: Channel) -> Seq<char> {
    match channel {
        Channel::Flatpak => "flatpak"@,
        Channel::Snap => "snap"@,
        Channel::Direct => "direct"@,
    }
}

impl Channel {
    /// The channel from its markers: the Flatpak info file wins over a
    /// stray Snap variable; neither means a direct install.
    pub fn detect_from(flatpak_info: bool, snap_var: bool) -> (c: Channel)
        ensures
            c == if flatpak_info {
                Channel::Flatpak
            } else if snap_var {
                Channel::Snap
            } else {
                Channel::Direct
            },
    {
        match (flatpak_info, snap_var) {
            (true, _) => Channel::Flatpak,
            (false, true) => Channel::Snap,
            (false, false) => Channel::Direct,
        }
    }

    /// Reported as-is, so these names outlive any refactoring here.
    pub fn name(self) -> (r: &'static str)
        ensures
            r@ == channel_name(self),
    {
        match self {
            Channel::Flatpak => "flatpak",
            Channel::Snap => "snap",
            Channel::Direct => "direct",
        }
    }

    /// Store rules that demand an explicit opt-in.
    pub fn must_ask(self) -> (r: bool)
        ensures
            r == (self == Channel::Flatpak || self == Channel::Snap),
    {
        matches!(self, Channel::Flatpak | Channel::Snap)
    }
}

/// What to do on a launch: a saved choice is honoured on every channel;
/// never asked, store builds ask first and direct installs collect with a
/// one-time notice.
pub open spec fn decision_for(channel: Channel, saved: Option<bool>) -> Decision {
    match saved {
        Some(true) => Decision::Collect { notice: false },
        Some(false) => Decision::Off,
        None => if channel == Channel::Flatpak || channel == Channel::Snap {
            Decision::Ask
        } else {
            Decision::Collect { notice: true }
        },
    }
}

/// `saved` is the persisted choice; `None` means never asked.
pub fn decide(channel: Channel, saved: Option<bool>) -> (d: Decision)
    ensures
        d == decision_for(channel, saved),
{
    match saved {
        Some(true) => Decision::Collect { notice: false },
        Some(false) => Decision::Off,
        None => if channel.must_ask() {
            Decision::Ask
        } else {
            Decision::Collect { notice: true }
        },
    }
}

/// Nothing is collected before the user has said yes on a store build, and
/// a "no" is final on every channel.
pub proof fn law_no_collection_without_consent(channel: Channel, saved: Option<bool>)
    ensures
        (channel == Channel::Flatpak || channel == Channel::Snap) && saved is None ==> decision_for(
            channel,
            saved,
        ) == Decision::Ask,
        saved == Some(false) ==> decision_for(channel, saved) == Decision::Off,
        decision_for(channel, saved) matches Decision::Collect { notice } ==> saved == Some(true)
            || (saved is None && channel == Channel::Direct && notice),
{
}

} // verus!
