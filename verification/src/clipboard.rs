//! Which external clipboard helpers to try, in order.
//!
//! On X11 and Wayland the source application owns the selection, so a copy
//! made right before quitting is handed to a helper that keeps it alive.
//! Whether a Wayland session is running is read by the caller.

use vstd::prelude::*;

verus! {

/// A helper program and its arguments, as plain text.
pub open spec fn command_text(command: (&'static str, Vec<&'static str>)) -> (Seq<char>, Seq<Seq<char>>) {
    (command.0@, command.1@.map_values(|arg: &'static str| arg@))
}

/// A list of helper commands, as plain text.
pub open spec fn commands_text(commands: Seq<(&'static str, Vec<&'static str>)>) -> Seq<(Seq<char>, Seq<Seq<char>>)> {
    commands.map_values(|c: (&'static str, Vec<&'static str>)| command_text(c))
}

pub open spec fn wl_copy_text() -> (Seq<char>, Seq<Seq<char>>) {
    ("wl-copy"@, seq![])
}

pub open spec fn xclip_text() -> (Seq<char>, Seq<Seq<char>>) {
    ("xclip"@, seq!["-selection"@, "clipboard"@])
}

pub open spec fn xsel_text() -> (Seq<char>, Seq<Seq<char>>) {
    ("xsel"@, seq!["--clipboard"@, "--input"@])
}

pub open spec fn wl_copy_png() -> (Seq<char>, Seq<Seq<char>>) {
    ("wl-copy"@, seq!["--type"@, "image/png"@])
}

pub open spec fn xclip_png() -> (Seq<char>, Seq<Seq<char>>) {
    ("xclip"@, seq!["-selection"@, "clipboard"@, "-t"@, "image/png"@])
}

/// Clipboard helpers for text, most session-appropriate first.
pub fn text_helpers(wayland: bool) -> (helpers: Vec<(&'static str, Vec<&'static str>)>)
    ensures
        commands_text(helpers@) == (if wayland {
            seq![wl_copy_text(), xclip_text(), xsel_text()]
        } else {
            seq![xclip_text(), xsel_text(), wl_copy_text()]
        }),
{
    let wl_copy: (&'static str, Vec<&'static str>) = ("wl-copy", vec![]);
    let xclip: (&'static str, Vec<&'static str>) = ("xclip", vec!["-selection", "clipboard"]);
    let xsel: (&'static str, Vec<&'static str>) = ("xsel", vec!["--clipboard", "--input"]);
    assert(command_text(wl_copy) == wl_copy_text()) by {
        assert(wl_copy.1@.map_values(|arg: &'static str| arg@) =~= seq![]);
    }
    assert(command_text(xclip) == xclip_text()) by {
        assert(xclip.1@.map_values(|arg: &'static str| arg@) =~= seq!["-selection"@, "clipboard"@]);
    }
    assert(command_text(xsel) == xsel_text()) by {
        assert(xsel.1@.map_values(|arg: &'static str| arg@) =~= seq!["--clipboard"@, "--input"@]);
    }
    let helpers = if wayland {
        vec![wl_copy, xclip, xsel]
    } else {
        vec![xclip, xsel, wl_copy]
    };
    assert(commands_text(helpers@) =~= (if wayland {
        seq![wl_copy_text(), xclip_text(), xsel_text()]
    } else {
        seq![xclip_text(), xsel_text(), wl_copy_text()]
    }));
    helpers
}

/// Clipboard helpers for `image/png`, most session-appropriate first.
pub fn image_helpers(wayland: bool) -> (helpers: Vec<(&'static str, Vec<&'static str>)>)
    ensures
        commands_text(helpers@) == (if wayland {
            seq![wl_copy_png(), xclip_png()]
        } else {
            seq![xclip_png(), wl_copy_png()]
        }),
{
    let wl_copy: (&'static str, Vec<&'static str>) = ("wl-copy", vec!["--type", "image/png"]);
    let xclip: (&'static str, Vec<&'static str>) = ("xclip", vec!["-selection", "clipboard", "-t", "image/png"]);
    assert(command_text(wl_copy) == wl_copy_png()) by {
        assert(wl_copy.1@.map_values(|arg: &'static str| arg@) =~= seq!["--type"@, "image/png"@]);
    }
    assert(command_text(xclip) == xclip_png()) by {
        assert(xclip.1@.map_values(|arg: &'static str| arg@) =~= seq![
            "-selection"@,
            "clipboard"@,
            "-t"@,
            "image/png"@,
        ]);
    }
    let helpers = if wayland {
        vec![wl_copy, xclip]
    } else {
        vec![xclip, wl_copy]
    };
    assert(commands_text(helpers@) =~= (if wayland {
        seq![wl_copy_png(), xclip_png()]
    } else {
        seq![xclip_png(), wl_copy_png()]
    }));
    helpers
}

} // verus!
