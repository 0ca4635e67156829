use screen_ruler::session::Session;
use screen_ruler::state::{
    click_action, distance_click, escape_step, key_action, mode_switch, wheel_control, ClickAction, Control,
    Destructive, DistanceClick, EscapeStep, Expiring, HelpFade, HelpOverlay, Key, KeyAction, Mode,
};

#[test]
fn mode_indices_match_the_number_key_shortcuts() {
    assert_eq!(Mode::Crosshair.index(), 0);
    assert_eq!(Mode::Distance.index(), 5);
    assert_eq!(Mode::from_index(0), Some(Mode::Crosshair));
    assert_eq!(Mode::from_index(5), Some(Mode::Distance));
    assert_eq!(Mode::from_index(6), None);
    for (i, mode) in Mode::ALL.iter().enumerate() {
        assert_eq!(mode.index(), i);
    }
}

#[test]
fn every_index_round_trips_through_its_mode() {
    for mode in Mode::ALL {
        assert_eq!(Mode::from_index(mode.index()), Some(mode));
    }
}

#[test]
fn mode_labels_and_export_titles() {
    assert_eq!(Mode::Crosshair.label(), "Crosshair");
    assert_eq!(Mode::RectDrag.label(), "Drag rectangle");
    assert_eq!(Mode::Container.label(), "Container detection");
    assert_eq!(Mode::ShrinkToFit.label(), "Shrink-to-fit");
    assert_eq!(Mode::ColorPicker.label(), "Color picker");
    assert_eq!(Mode::Distance.label(), "Point distance");
    assert_eq!(Mode::ShrinkToFit.export_title(), "Rectangle");
    assert_eq!(Mode::Container.export_title(), "Rectangle");
    assert_eq!(Mode::ColorPicker.export_title(), "Color");
    assert!(Mode::RectDrag.is_rect_selection());
    assert!(Mode::ShrinkToFit.is_rect_selection());
    assert!(!Mode::Container.is_rect_selection());
}

#[test]
fn each_destructive_action_has_its_own_prompt() {
    assert_eq!(Destructive::ToggleSession.prompt(), "Press Tab again to discard annotations");
    assert_eq!(Destructive::SessionButton.prompt(), "Click SESSION again to discard annotations");
    assert_eq!(Destructive::Escape.prompt(), "Press Esc again to discard annotations");
    assert_eq!(Destructive::Quit.prompt(), "Press Q again to discard annotations");
}

#[test]
fn an_expiring_value_disappears_at_its_deadline() {
    let mut value = Expiring::new();
    assert_eq!(value.get(0), None);
    value.set(7u32, 100, 50);
    assert_eq!(value.get(149), Some(&7));
    assert_eq!(value.peek(), Some(&7));
    assert_eq!(value.get(150), None);
    assert_eq!(value.peek(), None);
    value.set(8u32, 0, 10);
    value.clear();
    assert_eq!(value.peek(), None);
}

#[test]
fn undo_and_redo_walk_the_annotation_history() {
    let mut s = Session::new();
    s.add_annotation(1u32);
    s.add_annotation(2u32);
    assert_eq!(s.annotations().len(), 2);

    assert!(s.undo());
    assert_eq!(s.annotations().len(), 1);
    assert!(s.redo());
    assert_eq!(s.annotations().len(), 2);

    // Nothing left to redo.
    assert!(!s.redo());
    assert_eq!(s.annotations().len(), 2);
}

#[test]
fn placing_a_new_annotation_discards_the_redo_stack() {
    let mut s = Session::new();
    s.add_annotation(1u32);
    assert!(s.undo());
    s.add_annotation(2u32);

    assert!(!s.redo(), "redo should not resurrect a discarded branch");
    assert_eq!(s.annotations().len(), 1);
}

#[test]
fn undo_on_an_empty_history_is_a_no_op() {
    let mut s: Session<u32> = Session::new();
    assert!(!s.undo());
    assert!(!s.redo());
}

#[test]
fn undo_then_redo_restores_the_same_annotations() {
    let mut s = Session::new();
    s.add_annotation("a");
    s.add_annotation("b");
    let before = s.annotations().clone();
    assert!(s.undo());
    assert_eq!(s.annotations(), &vec!["a"]);
    assert!(s.redo());
    assert_eq!(s.annotations(), &before);
}

#[test]
fn leaving_session_mode_with_annotations_asks_for_confirmation() {
    let mut s = Session::new();
    s.set_session(true);
    s.add_annotation(1u32);

    assert!(!s.request_destructive(Destructive::ToggleSession, 0));
    assert!(s.is_active(), "first press must not discard anything");
    assert_eq!(s.destructive_prompt(10), Some("Press Tab again to discard annotations"));

    assert!(!s.request_destructive(Destructive::ToggleSession, 20));
    assert!(!s.is_active(), "second press confirms");
    assert!(s.annotations().is_empty());
}

#[test]
fn a_different_destructive_action_re_arms_rather_than_confirming() {
    let mut s = Session::new();
    s.set_session(true);
    s.add_annotation(1u32);

    assert!(!s.request_destructive(Destructive::ToggleSession, 0));
    // Pressing Q now must not be treated as confirming the Tab.
    let quit = s.request_destructive(Destructive::Quit, 10);
    assert!(s.is_active(), "Q must not confirm a pending Tab");
    assert!(!quit);
    assert_eq!(s.destructive_prompt(20), Some("Press Q again to discard annotations"));

    assert!(s.request_destructive(Destructive::Quit, 30));
}

#[test]
fn destructive_actions_run_immediately_when_nothing_would_be_lost() {
    let mut s: Session<u32> = Session::new();
    assert!(s.request_destructive(Destructive::Quit, 0));

    // In session mode but with no annotations, there is nothing to confirm.
    let mut s: Session<u32> = Session::new();
    s.set_session(true);
    assert!(!s.request_destructive(Destructive::ToggleSession, 0));
    assert!(!s.is_active());
}

#[test]
fn escape_leaves_session_mode_before_it_quits() {
    let mut s: Session<u32> = Session::new();
    s.set_session(true);
    let quit = s.request_destructive(Destructive::Escape, 0);
    assert!(!s.is_active());
    assert!(!quit, "escape should exit the session, not the app");

    assert!(s.request_destructive(Destructive::Escape, 10));
}

#[test]
fn an_armed_prompt_expires() {
    let mut s = Session::new();
    s.set_session(true);
    s.add_annotation(1u32);
    assert!(!s.request_destructive(Destructive::Escape, 1000));
    assert_eq!(s.destructive_prompt(2499), Some("Press Esc again to discard annotations"));
    assert_eq!(s.destructive_prompt(2500), None);
    // Once expired and dropped, the next press arms again instead of confirming.
    assert!(!s.request_destructive(Destructive::Escape, 2600));
    assert!(s.is_active());
}

#[test]
fn export_requires_a_session_with_annotations() {
    let mut s = Session::new();
    s.arm_export(0);
    assert!(!s.export_armed(), "export outside a session should be inert");

    s.set_session(true);
    s.arm_export(0);
    assert!(!s.export_armed(), "export needs at least one annotation");
    assert_eq!(s.feedback_message(10).as_deref(), Some("Place an annotation before exporting"));

    s.add_annotation(1u32);
    s.arm_export(100);
    assert!(s.export_armed());
    assert_eq!(s.feedback_message(200).as_deref(), Some("Drag a region to copy it with annotations"));
    assert_eq!(s.feedback_message(1300), None);

    s.cancel_export();
    assert!(!s.export_armed());
}

#[test]
fn leaving_the_session_disarms_the_export() {
    let mut s = Session::new();
    s.set_session(true);
    s.add_annotation(1u32);
    s.arm_export(0);
    assert!(s.export_armed());
    s.set_session(false);
    assert!(!s.export_armed());
    assert!(s.annotations().is_empty());
    assert!(!s.redo());
}

#[test]
fn switching_mode_drops_only_the_state_that_cannot_carry_over() {
    let switch = mode_switch(Mode::Crosshair, Mode::RectDrag);
    assert!(switch.changed);
    assert!(!switch.keep_container, "container selection should clear");
    assert!(!switch.keep_anchor, "distance anchor should clear");
    assert!(switch.keep_drag, "rect selection carries into a rect mode");

    // Shrink-to-fit is also a rect mode, so the selection survives.
    assert!(mode_switch(Mode::RectDrag, Mode::ShrinkToFit).keep_drag);

    assert!(!mode_switch(Mode::ShrinkToFit, Mode::Crosshair).keep_drag, "rect selection should clear");

    // Re-selecting the current mode keeps everything.
    let same = mode_switch(Mode::Container, Mode::Container);
    assert!(!same.changed && same.keep_drag && same.keep_container && same.keep_sample && same.keep_anchor);
}

#[test]
fn the_wheel_control_follows_the_mode() {
    assert_eq!(wheel_control(Mode::Crosshair), Control::Sensitivity);
    assert_eq!(wheel_control(Mode::Container), Control::Sensitivity);
    assert_eq!(wheel_control(Mode::Distance), Control::Sensitivity);
    assert_eq!(wheel_control(Mode::RectDrag), Control::SnapDistance);
    assert_eq!(wheel_control(Mode::ShrinkToFit), Control::SnapDistance);
    assert_eq!(wheel_control(Mode::ColorPicker), Control::ColorRadius);
}

#[test]
fn escape_unwinds_one_level_at_a_time() {
    assert_eq!(escape_step(true, true, true), EscapeStep::CancelExport);
    assert_eq!(escape_step(false, true, true), EscapeStep::DropAnchor);
    assert_eq!(escape_step(false, false, true), EscapeStep::DropSelection);
    assert_eq!(escape_step(false, false, false), EscapeStep::Request);
}

#[test]
fn number_keys_select_modes_and_swallow_the_rest() {
    assert_eq!(Mode::from_digit(1), Some(Mode::Crosshair));
    assert_eq!(Mode::from_digit(6), Some(Mode::Distance));
    assert_eq!(Mode::from_digit(0), None);
    assert_eq!(Mode::from_digit(7), None);
    assert_eq!(
        key_action(Key::Digit(4), false, false, false, Mode::Crosshair),
        KeyAction::SelectMode(Mode::ShrinkToFit)
    );
    assert_eq!(key_action(Key::Digit(7), false, false, false, Mode::Crosshair), KeyAction::Swallow);
}

#[test]
fn shortcuts_depend_on_modifiers_and_session() {
    let m = Mode::Crosshair;
    assert_eq!(key_action(Key::Tab, false, false, false, m), KeyAction::EnterSession);
    assert_eq!(key_action(Key::Tab, false, false, true, m), KeyAction::LeaveSession);
    assert_eq!(key_action(Key::C, true, true, true, m), KeyAction::ArmExport);
    assert_eq!(key_action(Key::C, true, false, true, m), KeyAction::CopyAnnotations);
    assert_eq!(key_action(Key::C, true, false, false, m), KeyAction::CopyAndQuit);
    assert_eq!(key_action(Key::C, false, false, false, m), KeyAction::Ignore);
    assert_eq!(key_action(Key::Z, true, true, false, m), KeyAction::Redo);
    assert_eq!(key_action(Key::Z, false, false, true, m), KeyAction::Undo);
    assert_eq!(key_action(Key::Z, true, false, false, m), KeyAction::Ignore);
    assert_eq!(key_action(Key::Enter, false, false, false, Mode::RectDrag), KeyAction::CopySelectionAndQuit);
    assert_eq!(key_action(Key::Enter, false, false, true, Mode::RectDrag), KeyAction::Ignore);
    assert_eq!(key_action(Key::Enter, false, false, false, m), KeyAction::Ignore);
    assert_eq!(key_action(Key::H, false, false, false, m), KeyAction::ToggleHelp);
    assert_eq!(key_action(Key::QuestionMark, false, true, false, m), KeyAction::ToggleHelp);
    assert_eq!(key_action(Key::Escape, false, false, false, m), KeyAction::Escape);
    assert_eq!(key_action(Key::Q, false, false, false, m), KeyAction::Quit);
    assert_eq!(key_action(Key::Other, true, true, true, m), KeyAction::Ignore);
}

#[test]
fn a_repeat_after_the_window_re_arms_instead_of_confirming() {
    let mut s = Session::new();
    s.set_session(true);
    s.add_annotation(1u32);
    assert!(!s.request_destructive(Destructive::Quit, 0));
    // The window closed at 1500: the late repeat only arms again.
    assert!(!s.request_destructive(Destructive::Quit, 1500));
    assert!(s.is_active());
    assert_eq!(s.annotations().len(), 1);
    // A repeat inside the fresh window (until 3000) confirms.
    assert!(s.request_destructive(Destructive::Quit, 2999));
}

#[test]
fn a_late_tab_does_not_discard_the_session() {
    let mut s = Session::new();
    s.set_session(true);
    s.add_annotation(1u32);
    assert!(!s.request_destructive(Destructive::ToggleSession, 100));
    assert!(!s.request_destructive(Destructive::ToggleSession, 5100));
    assert!(s.is_active());
    assert_eq!(s.destructive_prompt(5200), Some("Press Tab again to discard annotations"));
}

#[test]
fn switching_mode_disarms_the_export_and_drops_the_prompt() {
    let mut s = Session::new();
    s.set_session(true);
    s.add_annotation(1u32);
    s.arm_export(0);
    assert!(!s.request_destructive(Destructive::Quit, 0));
    // Even re-selecting the current mode clears both.
    let switch = s.switch_mode(Mode::Crosshair, Mode::Crosshair);
    assert!(!switch.changed);
    assert!(!s.export_armed());
    assert_eq!(s.destructive_prompt(10), None);
    assert!(s.is_active());
    assert_eq!(s.annotations(), &vec![1u32]);

    let switch = s.switch_mode(Mode::Crosshair, Mode::Container);
    assert!(switch.changed && switch.keep_container && !switch.keep_drag);
}

#[test]
fn a_click_outside_a_session_copies_and_quits() {
    assert_eq!(
        click_action(Mode::Crosshair, true, false, false, false),
        ClickAction::CopyAndQuit { crosshair_span: true }
    );
    assert_eq!(
        click_action(Mode::Container, true, false, true, false),
        ClickAction::CopyAndQuit { crosshair_span: false }
    );
    assert_eq!(
        click_action(Mode::ColorPicker, true, false, false, true),
        ClickAction::CopyAndQuit { crosshair_span: false }
    );
    assert_eq!(click_action(Mode::Crosshair, false, false, false, false), ClickAction::Nothing);
}

#[test]
fn a_click_in_a_session_places_what_the_mode_measures() {
    assert_eq!(click_action(Mode::Crosshair, true, true, false, false), ClickAction::PlaceCrosshair);
    assert_eq!(click_action(Mode::Container, true, true, true, false), ClickAction::PlaceContainer);
    assert_eq!(click_action(Mode::Container, true, true, false, true), ClickAction::Nothing);
    assert_eq!(click_action(Mode::ColorPicker, true, true, false, true), ClickAction::PlaceSample);
    assert_eq!(click_action(Mode::ColorPicker, true, true, true, false), ClickAction::Nothing);
    assert_eq!(click_action(Mode::RectDrag, true, true, true, true), ClickAction::Nothing);
    assert_eq!(click_action(Mode::Crosshair, false, true, true, true), ClickAction::Nothing);
}

#[test]
fn distance_takes_two_clicks() {
    assert_eq!(distance_click(false, false, true), DistanceClick::Nothing);
    assert_eq!(distance_click(true, false, true), DistanceClick::SetAnchor);
    assert_eq!(distance_click(true, false, false), DistanceClick::SetAnchor);
    assert_eq!(distance_click(true, true, true), DistanceClick::PlaceDistance);
    assert_eq!(distance_click(true, true, false), DistanceClick::CopyAndQuit);
}

#[test]
fn the_launch_overlay_holds_then_fades_then_hides() {
    let mut help = HelpOverlay::at_launch(1000);
    assert_eq!(help.fade(1000), HelpFade::Opaque);
    assert_eq!(help.fade(2999), HelpFade::Opaque);
    assert_eq!(help.fade(3000), HelpFade::Fading { elapsed: 0 });
    assert_eq!(help.fade(3110), HelpFade::Fading { elapsed: 110 });
    assert!(help.is_visible());
    assert_eq!(help.fade(3220), HelpFade::Hidden);
    assert!(!help.is_visible());
    assert_eq!(help.fade(1000), HelpFade::Hidden);
}

#[test]
fn a_toggled_overlay_never_fades() {
    let mut help = HelpOverlay::at_launch(0);
    help.toggle();
    assert!(!help.is_visible());
    assert_eq!(help.fade(10), HelpFade::Hidden);
    help.toggle();
    assert_eq!(help.fade(1_000_000), HelpFade::Opaque);
}
