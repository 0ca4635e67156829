use screen_ruler::capture::{
    all_attempts_failed, per_monitor_outcome, permission_hint, wayland_attempt_note, CaptureError, Platform,
};
use screen_ruler::clipboard::{image_helpers, text_helpers};

#[test]
fn failed_attempts_are_joined_in_order() {
    let attempts = vec![
        "wlr-screencopy: no monitors returned".to_string(),
        "screen capture is unavailable: nope".to_string(),
    ];
    assert_eq!(
        all_attempts_failed(&attempts),
        CaptureError::AllMonitorsFailed(
            "wlr-screencopy: no monitors returned; screen capture is unavailable: nope".to_string()
        )
    );
    assert_eq!(all_attempts_failed(&Vec::new()), CaptureError::AllMonitorsFailed(String::new()));
}

#[test]
fn capture_errors_read_as_sentences() {
    assert_eq!(CaptureError::NoMonitors.message(), "no displays were reported by the system");
    assert_eq!(
        CaptureError::AllMonitorsFailed("x".to_string()).message(),
        "no display could be captured: x"
    );
    assert_eq!(
        CaptureError::Backend("y".to_string()).message(),
        "screen capture is unavailable: y"
    );
}

#[test]
fn the_hint_depends_on_the_platform_and_session() {
    assert!(permission_hint(Platform::MacOs, false).contains("Screen Recording"));
    assert!(permission_hint(Platform::Windows, true).contains("protected-content"));
    assert!(permission_hint(Platform::Unix, true).starts_with("On Wayland"));
    assert_eq!(
        permission_hint(Platform::Unix, false),
        "Check that the X server allows screen capture for this session."
    );
}

#[test]
fn wayland_sessions_try_wl_copy_first() {
    let helpers = text_helpers(true);
    let names: Vec<&str> = helpers.iter().map(|(name, _)| *name).collect();
    assert_eq!(names, vec!["wl-copy", "xclip", "xsel"]);
    assert_eq!(helpers[1].1, vec!["-selection", "clipboard"]);

    let x11: Vec<&str> = text_helpers(false).iter().map(|(name, _)| *name).collect();
    assert_eq!(x11, vec!["xclip", "xsel", "wl-copy"]);
}

#[test]
fn image_helpers_ask_for_png() {
    let helpers = image_helpers(true);
    assert_eq!(helpers[0], ("wl-copy", vec!["--type", "image/png"]));
    assert_eq!(helpers[1], ("xclip", vec!["-selection", "clipboard", "-t", "image/png"]));
    assert_eq!(image_helpers(false)[0].0, "xclip");
}

#[test]
fn the_wayland_attempt_is_used_only_when_it_found_monitors() {
    assert_eq!(wayland_attempt_note(Ok(2)), None);
    assert_eq!(wayland_attempt_note(Ok(0)).as_deref(), Some("wlr-screencopy: no monitors returned"));
    assert_eq!(
        wayland_attempt_note(Err("compositor lacks the protocol".to_string())).as_deref(),
        Some("wlr-screencopy: compositor lacks the protocol")
    );
}

#[test]
fn failed_monitors_are_skipped_unless_all_fail() {
    assert_eq!(per_monitor_outcome(1, Some("HDMI-1: capture: busy".to_string())), None);
    assert_eq!(
        per_monitor_outcome(0, Some("HDMI-1: capture: busy".to_string())),
        Some(CaptureError::AllMonitorsFailed("HDMI-1: capture: busy".to_string()))
    );
    assert_eq!(
        per_monitor_outcome(0, None),
        Some(CaptureError::AllMonitorsFailed("unknown reason".to_string()))
    );
}
