//! Why screen capture failed, and what to tell the user about it.

use vstd::prelude::*;

use crate::text::concat;

verus! {

/// Why capture failed, in terms a user can act on.
#[derive(Debug, PartialEq, Eq)]
pub enum CaptureError {
    /// The platform reported no usable displays.
    NoMonitors,
    /// Every monitor failed to capture; carries the reasons collected.
    AllMonitorsFailed(String),
    /// The capture backend itself could not be reached.
    Backend(String),
}

impl CaptureError {
    pub open spec fn message_text(&self) -> Seq<char> {
        match self {
            CaptureError::NoMonitors => "no displays were reported by the system"@,
            CaptureError::AllMonitorsFailed(reason) => "no display could be captured: "@ + reason@,
            CaptureError::Backend(reason) => "screen capture is unavailable: "@ + reason@,
        }
    }

    /// The sentence shown to the user.
    pub fn message(&self) -> (m: String)
        ensures
            m@ == self.message_text(),
    {
        match self {
            CaptureError::NoMonitors => "no displays were reported by the system".to_owned(),
            CaptureError::AllMonitorsFailed(reason) => concat(
                "no display could be captured: ",
                reason.as_str(),
            ),
            CaptureError::Backend(reason) => concat("screen capture is unavailable: ", reason.as_str()),
        }
    }
}

/// `parts` joined with `separator` between neighbours.
pub open spec fn joined(parts: Seq<Seq<char>>, separator: Seq<char>) -> Seq<char>
    decreases parts.len(),
{
    if parts.len() == 0 {
        Seq::empty()
    } else if parts.len() == 1 {
        parts[0]
    } else {
        joined(parts.drop_last(), separator) + separator + parts.last()
    }
}

/// The error reported when every capture backend failed: the reason each
/// one gave, in the order they were tried, separated by `"; "`.
pub fn all_attempts_failed(attempts: &Vec<String>) -> (e: CaptureError)
    ensures
        e matches CaptureError::AllMonitorsFailed(reason) && reason@ == joined(
            attempts@.map_values(|a: String| a@),
            "; "@,
        ),
{
    let ghost parts = attempts@.map_values(|a: String| a@);
    let mut reason = String::new();
    let mut i: usize = 0;
    while i < attempts.len()
        invariant
            0 <= i <= attempts@.len(),
            parts == attempts@.map_values(|a: String| a@),
            reason@ == joined(parts.take(i as int), "; "@),
        decreases attempts@.len() - i,
    {
        if i > 0 {
            reason.append("; ");
        }
        reason.append(attempts[i].as_str());
        proof {
            assert(parts.take(i + 1).drop_last() =~= parts.take(i as int));
            if i == 0 {
                assert(reason@ =~= parts.take(1)[0]);
            }
        }
        i = i + 1;
    }
    assert(parts.take(attempts@.len() as int) =~= parts);
    CaptureError::AllMonitorsFailed(reason)
}

/// The platform the tool runs on, as far as capture advice goes.
#[derive(Clone, Copy, Debug, PartialEq, Eq, Structural)]
pub enum Platform {
    MacOs,
    Windows,
    /// Linux and the other Unix desktops.
    Unix,
}

pub open spec fn permission_hint_text(platform: Platform, wayland: bool) -> Seq<char> {
    match platform {
        Platform::MacOs => "Grant Screen Recording permission in System Settings > Privacy & Security, then relaunch."@,
        Platform::Windows => "Check that the app is allowed to capture the screen and is not blocked by a protected-content policy."@,
        Platform::Unix => if wayland {
            "On Wayland, allow the screen-capture request from the desktop portal when prompted. A portal implementation (xdg-desktop-portal plus a backend such as xdg-desktop-portal-wlr, -gnome or -kde) must be running."@
        } else {
            "Check that the X server allows screen capture for this session."@
        },
    }
}

/// A platform-specific hint shown when capture fails, so the user knows what
/// to grant or install rather than just seeing an error.
pub fn permission_hint(platform: Platform, wayland: bool) -> (hint: &'static str)
    ensures
        hint@ == permission_hint_text(platform, wayland),
{
    match platform {
        Platform::MacOs => "Grant Screen Recording permission in System Settings > Privacy & Security, then relaunch.",
        Platform::Windows => "Check that the app is allowed to capture the screen and is not blocked by a protected-content policy.",
        Platform::Unix => if wayland {
            "On Wayland, allow the screen-capture request from the desktop portal when prompted. A portal implementation (xdg-desktop-portal plus a backend such as xdg-desktop-portal-wlr, -gnome or -kde) must be running."
        } else {
            "Check that the X server allows screen capture for this session."
        },
    }
}

/// How the native Wayland capture attempt went, given how many monitors it
/// returned or why it failed: `None` when it captured something and its
/// result is used, otherwise the line it adds to the list of failed attempts.
pub fn wayland_attempt_note(outcome: Result<usize, String>) -> (note: Option<String>)
    ensures
        match outcome {
            Ok(n) => if n > 0 {
                note is None
            } else {
                note matches Some(text) && text@ == "wlr-screencopy: no monitors returned"@
            },
            Err(reason) => note matches Some(text) && text@ == "wlr-screencopy: "@ + reason@,
        },
{
    match outcome {
        Ok(n) => if n > 0 {
            None
        } else {
            Some("wlr-screencopy: no monitors returned".to_owned())
        },
        Err(reason) => Some(concat("wlr-screencopy: ", reason.as_str())),
    }
}

/// The outcome of capturing each monitor through the cross-platform backend,
/// given how many monitors it captured and the first failure it met: `None`
/// when at least one was captured (failed ones are skipped), otherwise every
/// monitor failed, for the first reason seen or `"unknown reason"`.
pub fn per_monitor_outcome(captured: usize, first_error: Option<String>) -> (e: Option<CaptureError>)
    ensures
        captured > 0 <==> e is None,
        captured == 0 ==> (e matches Some(CaptureError::AllMonitorsFailed(reason)) && reason@ == (
        match first_error {
            Some(r) => r@,
            None => "unknown reason"@,
        })),
{
    if captured > 0 {
        return None;
    }
    let reason = match first_error {
        Some(r) => r,
        None => "unknown reason".to_owned(),
    };
    Some(CaptureError::AllMonitorsFailed(reason))
}

} // verus!
