//! The shortcut overlay's text, tailored to the current mode and session.
//!
//! Context-sensitive on purpose: showing the drag hints while in crosshair
//! mode, or the quick-copy hint during a session, would teach the wrong thing.

use vstd::prelude::*;

use crate::state::Mode;

verus! {

/// The click hint for a mode, in or out of a session.
pub open spec fn click_line(mode: Mode, session: bool) -> Seq<char> {
    if mode == Mode::Distance {
        if session {
            "Click — place point A, then point B (persistent annotation)"@
        } else {
            "Click — place point A, then point B to copy, then quit"@
        }
    } else if !session && mode.drives_rect() {
        "Drag — create selection"@
    } else if session {
        "Click — place annotation (persistent)"@
    } else {
        "Click — copy measurement, then quit"@
    }
}

/// Every line of the overlay, top to bottom.
pub open spec fn shortcut_text(mode: Mode, session: bool) -> Seq<Seq<char>> {
    let head = seq![
        "Keys 1-6 — switch measurement mode"@,
        if session {
            "Ctrl+C — copy all annotations as Markdown"@
        } else {
            "Ctrl+C — copy measurement, then quit"@
        },
        click_line(mode, session),
    ];
    let enter = if !session && mode.drives_rect() {
        seq!["Enter — copy current selection, then quit"@]
    } else {
        Seq::empty()
    };
    let session_lines = if session {
        seq![
            "Ctrl+Z / Ctrl+Shift+Z — undo / redo annotation"@,
            "Ctrl+Shift+C — drag a region to copy it with annotations"@,
            "Tab or Esc — leave session mode"@,
        ]
    } else {
        seq!["Tab — enter session mode (persistent annotations)"@]
    };
    head + enter + session_lines + seq![
        "Wheel — adjust the active mode's control"@,
        "? or H — toggle this overlay    ·    Q or Esc — quit"@,
    ]
}

/// Builds the shortcut lines for the given mode and session state.
pub fn shortcut_lines(mode: Mode, session: bool) -> (lines: Vec<&'static str>)
    ensures
        lines@.map_values(|l: &'static str| l@) == shortcut_text(mode, session),
{
    let mut lines: Vec<&'static str> = Vec::new();
    lines.push("Keys 1-6 — switch measurement mode");
    lines.push(
        if session {
            "Ctrl+C — copy all annotations as Markdown"
        } else {
            "Ctrl+C — copy measurement, then quit"
        },
    );
    let click = if mode == Mode::Distance {
        if session {
            "Click — place point A, then point B (persistent annotation)"
        } else {
            "Click — place point A, then point B to copy, then quit"
        }
    } else if !session && mode.is_rect_selection() {
        "Drag — create selection"
    } else if session {
        "Click — place annotation (persistent)"
    } else {
        "Click — copy measurement, then quit"
    };
    lines.push(click);
    if !session && mode.is_rect_selection() {
        lines.push("Enter — copy current selection, then quit");
    }
    if session {
        lines.push("Ctrl+Z / Ctrl+Shift+Z — undo / redo annotation");
        lines.push("Ctrl+Shift+C — drag a region to copy it with annotations");
        lines.push("Tab or Esc — leave session mode");
    } else {
        lines.push("Tab — enter session mode (persistent annotations)");
    }
    lines.push("Wheel — adjust the active mode's control");
    lines.push("? or H — toggle this overlay    ·    Q or Esc — quit");
    assert(lines@.map_values(|l: &'static str| l@) =~= shortcut_text(mode, session));
    lines
}

} // verus!
