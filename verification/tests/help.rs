use screen_ruler::help::shortcut_lines;
use screen_ruler::state::Mode;

#[test]
fn quick_mode_advertises_copy_and_quit() {
    let lines = shortcut_lines(Mode::Crosshair, false);
    assert!(
        lines.iter().any(|l| l.contains("copy measurement, then quit")),
        "{lines:?}"
    );
    assert!(lines.iter().any(|l| l.contains("Tab — enter session mode")));
}

#[test]
fn session_mode_advertises_markdown_export_and_undo() {
    let lines = shortcut_lines(Mode::Crosshair, true);
    assert!(lines.iter().any(|l| l.contains("as Markdown")), "{lines:?}");
    assert!(lines.iter().any(|l| l.contains("undo / redo")), "{lines:?}");
    assert!(
        !lines.iter().any(|l| l.contains("then quit")),
        "quick-copy hint leaked into session mode: {lines:?}"
    );
}

#[test]
fn rect_modes_advertise_dragging_and_enter() {
    let lines = shortcut_lines(Mode::RectDrag, false);
    assert!(lines.iter().any(|l| l.contains("Drag — create selection")));
    assert!(lines.iter().any(|l| l.starts_with("Enter —")));

    // Enter only copies a selection, so it is irrelevant elsewhere.
    let crosshair = shortcut_lines(Mode::Crosshair, false);
    assert!(!crosshair.iter().any(|l| l.starts_with("Enter —")));
}

#[test]
fn distance_mode_explains_the_two_click_flow() {
    let lines = shortcut_lines(Mode::Distance, false);
    assert!(
        lines.iter().any(|l| l.contains("place point A, then point B")),
        "{lines:?}"
    );
}

#[test]
fn the_overlay_always_ends_with_the_wheel_and_quit_hints() {
    for mode in Mode::ALL {
        for session in [false, true] {
            let lines = shortcut_lines(mode, session);
            assert_eq!(lines[0], "Keys 1-6 — switch measurement mode");
            assert_eq!(lines[lines.len() - 2], "Wheel — adjust the active mode's control");
            assert_eq!(
                lines[lines.len() - 1],
                "? or H — toggle this overlay    ·    Q or Esc — quit"
            );
        }
    }
    assert_eq!(shortcut_lines(Mode::ShrinkToFit, false).len(), 7);
    assert_eq!(shortcut_lines(Mode::ShrinkToFit, true).len(), 8);
}
