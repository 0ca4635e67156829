//! Measurement modes, destructive actions and values that expire.

use vstd::prelude::*;

verus! {

/// How long a destructive action stays armed awaiting confirmation, in milliseconds.
pub const CONFIRM_WINDOW_MS: u64 = 1500;

/// How long transient session feedback stays on screen, in milliseconds.
pub const FEEDBACK_DURATION_MS: u64 = 1200;

/// How long the shortcut overlay shown at launch stays fully visible, in milliseconds.
pub const HELP_AUTO_HIDE_MS: u64 = 2000;

/// How long the shortcut overlay then takes to fade out, in milliseconds.
pub const HELP_FADE_MS: u64 = 220;

/// Number of measurement modes.
pub const MODE_COUNT: usize = 6;

/// The six measurement modes.
#[derive(Clone, Copy, Debug, PartialEq, Eq, Structural)]
pub enum Mode {
    /// Cast rays outward from the cursor to the nearest edges.
    Crosshair,
    /// Drag a freehand rectangle.
    RectDrag,
    /// Detect the enclosing container under the cursor.
    Container,
    /// Drag a rectangle, then tighten it onto the content it encloses.
    ShrinkToFit,
    /// Sample a colour under the cursor.
    ColorPicker,
    /// Measure between two placed points.
    Distance,
}

impl Mode {
    /// Every mode, in number-key order.
    pub const ALL: [Mode; 6] = [
        Mode::Crosshair,
        Mode::RectDrag,
        Mode::Container,
        Mode::ShrinkToFit,
        Mode::ColorPicker,
        Mode::Distance,
    ];

    /// Zero-based position of the mode, matching the `1`..`6` shortcuts.
    pub open spec fn position(self) -> nat {
        match self {
            Mode::Crosshair => 0,
            Mode::RectDrag => 1,
            Mode::Container => 2,
            Mode::ShrinkToFit => 3,
            Mode::ColorPicker => 4,
            Mode::Distance => 5,
        }
    }

    /// The mode at a zero-based position, if there is one.
    pub open spec fn at_position(index: int) -> Option<Mode> {
        if index == 0 {
            Some(Mode::Crosshair)
        } else if index == 1 {
            Some(Mode::RectDrag)
        } else if index == 2 {
            Some(Mode::Container)
        } else if index == 3 {
            Some(Mode::ShrinkToFit)
        } else if index == 4 {
            Some(Mode::ColorPicker)
        } else if index == 5 {
            Some(Mode::Distance)
        } else {
            None
        }
    }

    /// Zero-based index, matching the `1`..`6` number-key shortcuts.
    pub fn index(self) -> (i: usize)
        ensures
            i == self.position(),
            i < MODE_COUNT,
    {
        match self {
            Mode::Crosshair => 0,
            Mode::RectDrag => 1,
            Mode::Container => 2,
            Mode::ShrinkToFit => 3,
            Mode::ColorPicker => 4,
            Mode::Distance => 5,
        }
    }

    /// Inverse of [`Mode::index`]: the mode a number key selects.
    pub fn from_index(index: usize) -> (mode: Option<Mode>)
        ensures
            mode == Mode::at_position(index as int),
            mode is Some <==> index < MODE_COUNT,
    {
        match index {
            0 => Some(Mode::Crosshair),
            1 => Some(Mode::RectDrag),
            2 => Some(Mode::Container),
            3 => Some(Mode::ShrinkToFit),
            4 => Some(Mode::ColorPicker),
            5 => Some(Mode::Distance),
            _ => None,
        }
    }

    /// The mode a `1`-based number key selects: digit `d` selects index `d - 1`.
    pub fn from_digit(digit: usize) -> (mode: Option<Mode>)
        ensures
            mode == (if digit >= 1 {
                Mode::at_position(digit - 1)
            } else {
                None
            }),
    {
        if digit == 0 {
            None
        } else {
            Mode::from_index(digit - 1)
        }
    }

    pub open spec fn label_text(self) -> Seq<char> {
        match self {
            Mode::Crosshair => "Crosshair"@,
            Mode::RectDrag => "Drag rectangle"@,
            Mode::Container => "Container detection"@,
            Mode::ShrinkToFit => "Shrink-to-fit"@,
            Mode::ColorPicker => "Color picker"@,
            Mode::Distance => "Point distance"@,
        }
    }

    /// Tooltip shown on the mode button.
    pub fn label(self) -> (text: &'static str)
        ensures
            text@ == self.label_text(),
    {
        match self {
            Mode::Crosshair => "Crosshair",
            Mode::RectDrag => "Drag rectangle",
            Mode::Container => "Container detection",
            Mode::ShrinkToFit => "Shrink-to-fit",
            Mode::ColorPicker => "Color picker",
            Mode::Distance => "Point distance",
        }
    }

    pub open spec fn export_title_text(self) -> Seq<char> {
        match self {
            Mode::Crosshair => "Crosshair"@,
            Mode::RectDrag | Mode::Container | Mode::ShrinkToFit => "Rectangle"@,
            Mode::ColorPicker => "Color"@,
            Mode::Distance => "Distance"@,
        }
    }

    /// Heading used for this mode in the Markdown export.
    pub fn export_title(self) -> (title: &'static str)
        ensures
            title@ == self.export_title_text(),
    {
        match self {
            Mode::Crosshair => "Crosshair",
            Mode::RectDrag | Mode::Container | Mode::ShrinkToFit => "Rectangle",
            Mode::ColorPicker => "Color",
            Mode::Distance => "Distance",
        }
    }

    pub open spec fn drives_rect(self) -> bool {
        self == Mode::RectDrag || self == Mode::ShrinkToFit
    }

    /// True for the two modes driven by dragging a rectangle.
    pub fn is_rect_selection(self) -> (b: bool)
        ensures
            b == self.drives_rect(),
    {
        match self {
            Mode::RectDrag | Mode::ShrinkToFit => true,
            _ => false,
        }
    }
}

/// A number key and its mode round-trip: every mode's index selects that
/// mode again, and every valid index is the index of the mode it selects.
pub proof fn lemma_mode_index_round_trip(mode: Mode, index: int)
    ensures
        Mode::at_position(mode.position() as int) == Some(mode),
        0 <= index < MODE_COUNT ==> (Mode::at_position(index) matches Some(m) && m.position() == index),
        Mode::at_position(index) is Some <==> 0 <= index < MODE_COUNT,
{
}

/// An action that discards work and therefore asks for confirmation.
#[derive(Clone, Copy, Debug, PartialEq, Eq, Structural)]
pub enum Destructive {
    /// Leave session mode via Tab.
    ToggleSession,
    /// Leave session mode via the SESSION badge.
    SessionButton,
    /// Escape.
    Escape,
    /// Q.
    Quit,
}

impl Destructive {
    pub open spec fn prompt_text(self) -> Seq<char> {
        match self {
            Destructive::ToggleSession => "Press Tab again to discard annotations"@,
            Destructive::SessionButton => "Click SESSION again to discard annotations"@,
            Destructive::Escape => "Press Esc again to discard annotations"@,
            Destructive::Quit => "Press Q again to discard annotations"@,
        }
    }

    /// The confirmation prompt shown while this action is armed.
    pub fn prompt(self) -> (text: &'static str)
        ensures
            text@ == self.prompt_text(),
    {
        match self {
            Destructive::ToggleSession => "Press Tab again to discard annotations",
            Destructive::SessionButton => "Click SESSION again to discard annotations",
            Destructive::Escape => "Press Esc again to discard annotations",
            Destructive::Quit => "Press Q again to discard annotations",
        }
    }
}

/// A value that stops being reported once its deadline passes.
///
/// Times are milliseconds on a monotonic clock the caller reads.
pub struct Expiring<T> {
    slot: Option<(T, u64)>,
}

impl<T> View for Expiring<T> {
    type V = Option<(T, u64)>;

    closed spec fn view(&self) -> Option<(T, u64)> {
        self.slot
    }
}

impl<T> Expiring<T> {
    pub fn new() -> (e: Self)
        ensures
            e@ is None,
    {
        Expiring { slot: None }
    }

    /// Holds `value` until `lifetime` milliseconds after `now`.
    pub fn set(&mut self, value: T, now: u64, lifetime: u64)
        requires
            now + lifetime <= u64::MAX,
        ensures
            final(self)@ == Some((value, (now + lifetime) as u64)),
    {
        self.slot = Some((value, now + lifetime));
    }

    pub fn clear(&mut self)
        ensures
            final(self)@ is None,
    {
        self.slot = None;
    }

    /// The value, if one is set and unexpired at `now`. Drops it once it has expired.
    pub fn get(&mut self, now: u64) -> (value: Option<&T>)
        ensures
            match old(self)@ {
                Some((v, expiry)) if now < expiry => {
                    &&& final(self)@ == old(self)@
                    &&& (value matches Some(r) && *r == v)
                },
                _ => {
                    &&& final(self)@ is None
                    &&& value is None
                },
            },
    {
        let expired = match &self.slot {
            Some((_, expiry)) => now >= *expiry,
            None => true,
        };
        if expired {
            self.slot = None;
        }
        match &self.slot {
            Some((value, _)) => Some(value),
            None => None,
        }
    }

    /// The value regardless of expiry.
    pub fn peek(&self) -> (value: Option<&T>)
        ensures
            match self@ {
                Some((v, _)) => (value matches Some(r) && *r == v),
                None => value is None,
            },
    {
        match &self.slot {
            Some((value, _)) => Some(value),
            None => None,
        }
    }
}


/// A dial on the controls panel.
#[derive(Clone, Copy, Debug, PartialEq, Eq, Structural)]
pub enum Control {
    /// Edge-detection sensitivity.
    Sensitivity,
    /// Edge-snap radius.
    SnapDistance,
    /// Colour averaging radius.
    ColorRadius,
}

pub open spec fn wheel_control_of(mode: Mode) -> Control {
    match mode {
        Mode::RectDrag | Mode::ShrinkToFit => Control::SnapDistance,
        Mode::ColorPicker => Control::ColorRadius,
        _ => Control::Sensitivity,
    }
}

/// The dial a scroll gesture adjusts in `mode`: one wheel notch is one step
/// of whichever control the mode owns.
pub fn wheel_control(mode: Mode) -> (control: Control)
    ensures
        control == wheel_control_of(mode),
{
    match mode {
        Mode::RectDrag | Mode::ShrinkToFit => Control::SnapDistance,
        Mode::ColorPicker => Control::ColorRadius,
        _ => Control::Sensitivity,
    }
}

/// What survives a switch between modes.
#[derive(Clone, Copy, Debug, PartialEq, Eq, Structural)]
pub struct ModeSwitch {
    /// The mode actually changes.
    pub changed: bool,
    /// The dragged rectangle carries over.
    pub keep_drag: bool,
    /// The detected container carries over.
    pub keep_container: bool,
    /// The sampled colour carries over.
    pub keep_sample: bool,
    /// The first distance point carries over.
    pub keep_anchor: bool,
}

pub open spec fn mode_switch_of(current: Mode, next: Mode) -> ModeSwitch {
    if current == next {
        ModeSwitch {
            changed: false,
            keep_drag: true,
            keep_container: true,
            keep_sample: true,
            keep_anchor: true,
        }
    } else {
        ModeSwitch {
            changed: true,
            keep_drag: next.drives_rect(),
            keep_container: next == Mode::Container,
            keep_sample: next == Mode::ColorPicker,
            keep_anchor: next == Mode::Distance,
        }
    }
}

/// Switching modes discards any selection that does not carry over: a
/// dragged rectangle survives only into a rectangle mode, and each other
/// selection only into its own mode. Re-selecting the current mode keeps
/// everything.
pub fn mode_switch(current: Mode, next: Mode) -> (switch: ModeSwitch)
    ensures
        switch == mode_switch_of(current, next),
{
    if current == next {
        return ModeSwitch {
            changed: false,
            keep_drag: true,
            keep_container: true,
            keep_sample: true,
            keep_anchor: true,
        };
    }
    ModeSwitch {
        changed: true,
        keep_drag: next.is_rect_selection(),
        keep_container: next == Mode::Container,
        keep_sample: next == Mode::ColorPicker,
        keep_anchor: next == Mode::Distance,
    }
}

/// What one press of Escape does.
#[derive(Clone, Copy, Debug, PartialEq, Eq, Structural)]
pub enum EscapeStep {
    /// Disarm the composite export.
    CancelExport,
    /// Forget the first distance point.
    DropAnchor,
    /// Forget the finished rectangle selection.
    DropSelection,
    /// Nothing left to unwind: request [`Destructive::Escape`].
    Request,
}

pub open spec fn escape_step_of(export_armed: bool, anchor_placed: bool, has_selection: bool) -> EscapeStep {
    if export_armed {
        EscapeStep::CancelExport
    } else if anchor_placed {
        EscapeStep::DropAnchor
    } else if has_selection {
        EscapeStep::DropSelection
    } else {
        EscapeStep::Request
    }
}

/// Escape unwinds one level at a time before it asks to leave or quit.
pub fn escape_step(export_armed: bool, anchor_placed: bool, has_selection: bool) -> (step: EscapeStep)
    ensures
        step == escape_step_of(export_armed, anchor_placed, has_selection),
{
    if export_armed {
        EscapeStep::CancelExport
    } else if anchor_placed {
        EscapeStep::DropAnchor
    } else if has_selection {
        EscapeStep::DropSelection
    } else {
        EscapeStep::Request
    }
}


/// A key press, as far as the shortcuts care.
#[derive(Clone, Copy, Debug, PartialEq, Eq, Structural)]
pub enum Key {
    /// A number key, by the digit it types.
    Digit(usize),
    Tab,
    C,
    Z,
    Enter,
    QuestionMark,
    H,
    Escape,
    Q,
    /// Any key no shortcut uses.
    Other,
}

/// What a key press asks of the ruler.
#[derive(Clone, Copy, Debug, PartialEq, Eq, Structural)]
pub enum KeyAction {
    /// Switch to this mode.
    SelectMode(Mode),
    /// A number key with no mode behind it: swallowed, nothing happens.
    Swallow,
    /// Ask to leave session mode (a destructive request).
    LeaveSession,
    /// Drop any armed confirmation and enter session mode.
    EnterSession,
    /// Arm the composite-image export.
    ArmExport,
    /// Copy all annotations as Markdown.
    CopyAnnotations,
    /// Copy the current measurement and quit.
    CopyAndQuit,
    /// Copy the finished rectangle selection and quit.
    CopySelectionAndQuit,
    Redo,
    Undo,
    ToggleHelp,
    /// Unwind one level (see [`escape_step`]).
    Escape,
    /// Ask to quit (a destructive request).
    Quit,
    /// The key does nothing here.
    Ignore,
}

pub open spec fn key_action_of(key: Key, ctrl: bool, shift: bool, session: bool, mode: Mode) -> KeyAction {
    match key {
        Key::Digit(d) => match (if d >= 1 { Mode::at_position(d - 1) } else { None }) {
            Some(m) => KeyAction::SelectMode(m),
            None => KeyAction::Swallow,
        },
        Key::Tab => if session {
            KeyAction::LeaveSession
        } else {
            KeyAction::EnterSession
        },
        Key::C => if ctrl && shift {
            KeyAction::ArmExport
        } else if ctrl {
            if session {
                KeyAction::CopyAnnotations
            } else {
                KeyAction::CopyAndQuit
            }
        } else {
            KeyAction::Ignore
        },
        Key::Z => if ctrl && shift {
            KeyAction::Redo
        } else if session {
            KeyAction::Undo
        } else {
            KeyAction::Ignore
        },
        Key::Enter => if !session && mode.drives_rect() {
            KeyAction::CopySelectionAndQuit
        } else {
            KeyAction::Ignore
        },
        Key::QuestionMark | Key::H => KeyAction::ToggleHelp,
        Key::Escape => KeyAction::Escape,
        Key::Q => KeyAction::Quit,
        Key::Other => KeyAction::Ignore,
    }
}

/// The keyboard shortcuts: what pressing `key` does, given the modifiers
/// held, whether a session is running and the current mode.
pub fn key_action(key: Key, ctrl: bool, shift: bool, session: bool, mode: Mode) -> (action: KeyAction)
    ensures
        action == key_action_of(key, ctrl, shift, session, mode),
{
    match key {
        Key::Digit(d) => match Mode::from_digit(d) {
            Some(m) => KeyAction::SelectMode(m),
            None => KeyAction::Swallow,
        },
        Key::Tab => if session {
            KeyAction::LeaveSession
        } else {
            KeyAction::EnterSession
        },
        Key::C => if ctrl && shift {
            KeyAction::ArmExport
        } else if ctrl {
            if session {
                KeyAction::CopyAnnotations
            } else {
                KeyAction::CopyAndQuit
            }
        } else {
            KeyAction::Ignore
        },
        Key::Z => if ctrl && shift {
            KeyAction::Redo
        } else if session {
            KeyAction::Undo
        } else {
            KeyAction::Ignore
        },
        Key::Enter => if !session && mode.is_rect_selection() {
            KeyAction::CopySelectionAndQuit
        } else {
            KeyAction::Ignore
        },
        Key::QuestionMark | Key::H => KeyAction::ToggleHelp,
        Key::Escape => KeyAction::Escape,
        Key::Q => KeyAction::Quit,
        Key::Other => KeyAction::Ignore,
    }
}

/// What a left click does in the modes that measure whatever lies under the
/// cursor: Crosshair, Container and ColorPicker.
#[derive(Clone, Copy, Debug, PartialEq, Eq, Structural)]
pub enum ClickAction {
    /// Nothing happens.
    Nothing,
    /// Copy the measurement and quit; `crosshair_span` is whether the
    /// crosshair's span at the pointer goes with it.
    CopyAndQuit { crosshair_span: bool },
    /// Place a crosshair annotation at the pointer.
    PlaceCrosshair,
    /// Place the detected container as a rectangle annotation.
    PlaceContainer,
    /// Place the sampled colour as a colour annotation.
    PlaceSample,
}

pub open spec fn click_action_of(
    mode: Mode,
    has_pointer: bool,
    session: bool,
    has_container: bool,
    has_sample: bool,
) -> ClickAction {
    if !has_pointer {
        ClickAction::Nothing
    } else if !session {
        ClickAction::CopyAndQuit { crosshair_span: mode == Mode::Crosshair }
    } else {
        match mode {
            Mode::Crosshair => ClickAction::PlaceCrosshair,
            Mode::Container => if has_container {
                ClickAction::PlaceContainer
            } else {
                ClickAction::Nothing
            },
            Mode::ColorPicker => if has_sample {
                ClickAction::PlaceSample
            } else {
                ClickAction::Nothing
            },
            _ => ClickAction::Nothing,
        }
    }
}

/// A left click: with no pointer nothing happens; outside a session it copies
/// the measurement and quits (with the crosshair span only in Crosshair mode);
/// inside one it places an annotation when the mode has something to place.
pub fn click_action(
    mode: Mode,
    has_pointer: bool,
    session: bool,
    has_container: bool,
    has_sample: bool,
) -> (action: ClickAction)
    ensures
        action == click_action_of(mode, has_pointer, session, has_container, has_sample),
{
    if !has_pointer {
        return ClickAction::Nothing;
    }
    if !session {
        let crosshair_span = match mode {
            Mode::Crosshair => true,
            _ => false,
        };
        return ClickAction::CopyAndQuit { crosshair_span };
    }
    match mode {
        Mode::Crosshair => ClickAction::PlaceCrosshair,
        Mode::Container => if has_container {
            ClickAction::PlaceContainer
        } else {
            ClickAction::Nothing
        },
        Mode::ColorPicker => if has_sample {
            ClickAction::PlaceSample
        } else {
            ClickAction::Nothing
        },
        _ => ClickAction::Nothing,
    }
}

/// What a click does in Distance mode, where a measurement takes two points.
#[derive(Clone, Copy, Debug, PartialEq, Eq, Structural)]
pub enum DistanceClick {
    /// No point under the cursor: nothing happens.
    Nothing,
    /// Remember the clicked point as the first end.
    SetAnchor,
    /// Consume the first end and place a distance annotation to the clicked point.
    PlaceDistance,
    /// Consume the first end, copy the measurement and quit.
    CopyAndQuit,
}

pub open spec fn distance_click_of(has_point: bool, anchor_placed: bool, session: bool) -> DistanceClick {
    if !has_point {
        DistanceClick::Nothing
    } else if !anchor_placed {
        DistanceClick::SetAnchor
    } else if session {
        DistanceClick::PlaceDistance
    } else {
        DistanceClick::CopyAndQuit
    }
}

/// A click in Distance mode: the first click sets the anchor, the second
/// annotates (in a session) or copies and quits.
pub fn distance_click(has_point: bool, anchor_placed: bool, session: bool) -> (click: DistanceClick)
    ensures
        click == distance_click_of(has_point, anchor_placed, session),
{
    if !has_point {
        DistanceClick::Nothing
    } else if !anchor_placed {
        DistanceClick::SetAnchor
    } else if session {
        DistanceClick::PlaceDistance
    } else {
        DistanceClick::CopyAndQuit
    }
}

/// How the shortcut overlay is drawn at a given moment.
#[derive(Clone, Copy, Debug, PartialEq, Eq, Structural)]
pub enum HelpFade {
    /// Not drawn.
    Hidden,
    /// Drawn fully opaque.
    Opaque,
    /// Fading out: `elapsed` of the `HELP_FADE_MS` milliseconds have passed.
    Fading { elapsed: u64 },
}

/// The shortcut overlay: shown at launch until it fades on its own, and
/// toggled by hand afterwards.
pub struct HelpOverlay {
    visible: bool,
    hide_at: Option<u64>,
}

/// The overlay as plain values: whether it is shown, and when its automatic
/// fade starts, if it has one.
pub struct HelpView {
    pub visible: bool,
    pub hide_at: Option<u64>,
}

impl View for HelpOverlay {
    type V = HelpView;

    closed spec fn view(&self) -> HelpView {
        HelpView { visible: self.visible, hide_at: self.hide_at }
    }
}

/// Drawing the overlay at `now`: the new state and how it is drawn. Once the
/// fade has run its course the overlay is hidden for good and forgets its
/// deadline.
pub open spec fn help_fade_spec(v: HelpView, now: u64) -> (HelpView, HelpFade) {
    if !v.visible {
        (v, HelpFade::Hidden)
    } else {
        match v.hide_at {
            None => (v, HelpFade::Opaque),
            Some(t) => if now < t {
                (v, HelpFade::Opaque)
            } else if now - t >= HELP_FADE_MS {
                (HelpView { visible: false, hide_at: None }, HelpFade::Hidden)
            } else {
                (v, HelpFade::Fading { elapsed: (now - t) as u64 })
            },
        }
    }
}

impl HelpOverlay {
    /// The overlay as it stands at launch time `now`: shown, with its fade
    /// due `HELP_AUTO_HIDE_MS` later.
    pub fn at_launch(now: u64) -> (h: Self)
        requires
            now + HELP_AUTO_HIDE_MS <= u64::MAX,
        ensures
            h@ == (HelpView { visible: true, hide_at: Some((now + HELP_AUTO_HIDE_MS) as u64) }),
    {
        HelpOverlay { visible: true, hide_at: Some(now + HELP_AUTO_HIDE_MS) }
    }

    /// Shows or hides the overlay by hand; a toggled overlay never fades.
    pub fn toggle(&mut self)
        ensures
            final(self)@ == (HelpView { visible: !old(self)@.visible, hide_at: None }),
    {
        self.visible = !self.visible;
        self.hide_at = None;
    }

    /// The overlay is shown.
    pub fn is_visible(&self) -> (b: bool)
        ensures
            b == self@.visible,
    {
        self.visible
    }

    /// How the overlay is drawn at `now`, hiding it once its fade has finished.
    pub fn fade(&mut self, now: u64) -> (f: HelpFade)
        ensures
            (final(self)@, f) == help_fade_spec(old(self)@, now),
    {
        if !self.visible {
            return HelpFade::Hidden;
        }
        match self.hide_at {
            None => HelpFade::Opaque,
            Some(t) => if now < t {
                HelpFade::Opaque
            } else if now - t >= HELP_FADE_MS {
                self.visible = false;
                self.hide_at = None;
                HelpFade::Hidden
            } else {
                HelpFade::Fading { elapsed: now - t }
            },
        }
    }
}

/// The overlay shown at launch stays opaque for `HELP_AUTO_HIDE_MS`, then
/// fades for `HELP_FADE_MS`, then is hidden and stays hidden.
pub proof fn lemma_launch_overlay_fades(launch: u64, now: u64, later: u64)
    requires
        launch + HELP_AUTO_HIDE_MS + HELP_FADE_MS <= u64::MAX,
        now <= later,
    ensures
        ({
            let v = HelpView { visible: true, hide_at: Some((launch + HELP_AUTO_HIDE_MS) as u64) };
            let (after, f) = help_fade_spec(v, now);
            &&& now < launch + HELP_AUTO_HIDE_MS ==> f == HelpFade::Opaque && after == v
            &&& launch + HELP_AUTO_HIDE_MS <= now < launch + HELP_AUTO_HIDE_MS + HELP_FADE_MS ==> f
                == (HelpFade::Fading { elapsed: (now - launch - HELP_AUTO_HIDE_MS) as u64 })
                && after == v
            &&& now >= launch + HELP_AUTO_HIDE_MS + HELP_FADE_MS ==> f == HelpFade::Hidden
                && help_fade_spec(after, later).1 == HelpFade::Hidden
        }),
{
}

/// An overlay shown by hand never fades on its own.
pub proof fn lemma_toggled_overlay_stays(v: HelpView, now: u64)
    requires
        !v.visible,
    ensures
        ({
            let shown = HelpView { visible: !v.visible, hide_at: None };
            help_fade_spec(shown, now) == (shown, HelpFade::Opaque)
        }),
{
}

/// Undo and redo keys: in a session Z without Shift undoes, with or without
/// Ctrl; Ctrl+Shift+Z redoes, in a session or not; outside a session any other
/// Z does nothing.
pub proof fn lemma_z_keys(ctrl: bool, shift: bool, session: bool, mode: Mode)
    ensures
        session && !shift ==> key_action_of(Key::Z, ctrl, shift, session, mode) == KeyAction::Undo,
        ctrl && shift ==> key_action_of(Key::Z, ctrl, shift, session, mode) == KeyAction::Redo,
        !session && !(ctrl && shift) ==> key_action_of(Key::Z, ctrl, shift, session, mode)
            == KeyAction::Ignore,
{
}

/// Escape unwinds one level at a time, innermost first: an armed export is
/// cancelled before anything else, then a placed distance anchor is dropped,
/// then a finished selection; only when none of these is left does it
/// request leaving the session or quitting.
pub proof fn lemma_escape_order(export_armed: bool, anchor_placed: bool, has_selection: bool)
    ensures
        ({
            let step = escape_step_of(export_armed, anchor_placed, has_selection);
            &&& (step == EscapeStep::CancelExport) <==> export_armed
            &&& (step == EscapeStep::DropAnchor) <==> (!export_armed && anchor_placed)
            &&& (step == EscapeStep::DropSelection) <==> (!export_armed && !anchor_placed
                && has_selection)
            &&& (step == EscapeStep::Request) <==> (!export_armed && !anchor_placed && !has_selection)
        }),
{
}

} // verus!
