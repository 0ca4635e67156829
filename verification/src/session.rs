//! The session workspace: placed annotations with undo and redo, and the
//! confirm-before-discard flow that guards them.
//!
//! Annotations are kept as an opaque payload `A`; what they measure is the
//! caller's business. Times are milliseconds on a monotonic clock the caller
//! reads.

use vstd::prelude::*;

use crate::state::{
    mode_switch, mode_switch_of, Destructive, Expiring, Mode, ModeSwitch, CONFIRM_WINDOW_MS,
    FEEDBACK_DURATION_MS,
};

verus! {

/// What a session holds, as plain values.
pub struct SessionView<A> {
    /// Session mode is on.
    pub active: bool,
    /// Placed annotations, oldest first.
    pub annotations: Seq<A>,
    /// Undone annotations, most recently undone last.
    pub redo: Seq<A>,
    /// The destructive action awaiting confirmation, with its deadline.
    pub pending: Option<(Destructive, u64)>,
    /// The transient feedback message, with its deadline.
    pub feedback: Option<(Seq<char>, u64)>,
    /// The composite-export selection is armed.
    pub export_armed: bool,
}

/// Leaving or entering session mode. Leaving discards every annotation and
/// disarms the export; either way a pending confirmation is dropped. Asking
/// for the mode already in force changes nothing.
pub open spec fn set_session_spec<A>(v: SessionView<A>, enabled: bool) -> SessionView<A> {
    if v.active == enabled {
        v
    } else if enabled {
        SessionView { active: true, pending: None, ..v }
    } else {
        SessionView {
            active: false,
            annotations: Seq::empty(),
            redo: Seq::empty(),
            export_armed: false,
            pending: None,
            ..v
        }
    }
}

/// Leaving session mode now would throw away placed annotations.
pub open spec fn has_work_to_lose<A>(v: SessionView<A>) -> bool {
    v.active && v.annotations.len() > 0
}

/// Carrying out a destructive action; the boolean is whether the
/// application should quit.
pub open spec fn perform_spec<A>(v: SessionView<A>, action: Destructive) -> (SessionView<A>, bool) {
    match action {
        Destructive::ToggleSession | Destructive::SessionButton => (set_session_spec(v, false), false),
        Destructive::Escape => if v.active {
            (set_session_spec(v, false), false)
        } else {
            (v, true)
        },
        Destructive::Quit => (v, true),
    }
}

/// The same action is armed and its confirmation window is still open at `now`.
pub open spec fn confirms_armed<A>(v: SessionView<A>, action: Destructive, now: u64) -> bool {
    v.pending matches Some((armed, deadline)) && armed == action && now < deadline
}

/// Requesting a destructive action at time `now`: it runs at once when
/// nothing would be lost, or when it repeats the action armed within its
/// confirmation window; otherwise it is armed afresh and nothing else changes.
pub open spec fn request_spec<A>(v: SessionView<A>, action: Destructive, now: u64) -> (SessionView<A>, bool) {
    if !has_work_to_lose(v) {
        perform_spec(SessionView { pending: None, ..v }, action)
    } else if confirms_armed(v, action, now) {
        perform_spec(SessionView { pending: None, ..v }, action)
    } else {
        (SessionView { pending: Some((action, (now + CONFIRM_WINDOW_MS) as u64)), ..v }, false)
    }
}

/// Placing an annotation, which discards whatever could be redone.
pub open spec fn add_spec<A>(v: SessionView<A>, annotation: A) -> SessionView<A> {
    SessionView { annotations: v.annotations.push(annotation), redo: Seq::empty(), ..v }
}

/// Undoing the last annotation; the boolean is whether there was one.
pub open spec fn undo_spec<A>(v: SessionView<A>) -> (SessionView<A>, bool) {
    if v.annotations.len() == 0 {
        (v, false)
    } else {
        (
            SessionView {
                annotations: v.annotations.drop_last(),
                redo: v.redo.push(v.annotations.last()),
                ..v
            },
            true,
        )
    }
}

/// Redoing the last undone annotation; the boolean is whether there was one.
pub open spec fn redo_spec<A>(v: SessionView<A>) -> (SessionView<A>, bool) {
    if v.redo.len() == 0 {
        (v, false)
    } else {
        (
            SessionView {
                annotations: v.annotations.push(v.redo.last()),
                redo: v.redo.drop_last(),
                ..v
            },
            true,
        )
    }
}

/// Arming the composite export at time `now`: inert outside a session,
/// refused with feedback while there is nothing to export.
pub open spec fn arm_export_spec<A>(v: SessionView<A>, now: u64) -> SessionView<A> {
    if !v.active {
        v
    } else if v.annotations.len() == 0 {
        SessionView {
            feedback: Some(("Place an annotation before exporting"@, (now + FEEDBACK_DURATION_MS) as u64)),
            ..v
        }
    } else {
        SessionView {
            export_armed: true,
            feedback: Some(("Drag a region to copy it with annotations"@, (now + FEEDBACK_DURATION_MS) as u64)),
            ..v
        }
    }
}

/// The session workspace.
pub struct Session<A> {
    active: bool,
    annotations: Vec<A>,
    redo_stack: Vec<A>,
    pending_destructive: Expiring<Destructive>,
    feedback: Expiring<String>,
    export_armed: bool,
}

impl<A> View for Session<A> {
    type V = SessionView<A>;

    closed spec fn view(&self) -> SessionView<A> {
        SessionView {
            active: self.active,
            annotations: self.annotations@,
            redo: self.redo_stack@,
            pending: self.pending_destructive@,
            feedback: match self.feedback@ {
                Some((text, deadline)) => Some((text@, deadline)),
                None => None,
            },
            export_armed: self.export_armed,
        }
    }
}

impl<A> Session<A> {
    /// A fresh workspace: not in a session, nothing placed or pending.
    pub fn new() -> (s: Self)
        ensures
            s@ == (SessionView::<A> {
                active: false,
                annotations: Seq::empty(),
                redo: Seq::empty(),
                pending: None,
                feedback: None,
                export_armed: false,
            }),
    {
        let s = Session {
            active: false,
            annotations: Vec::new(),
            redo_stack: Vec::new(),
            pending_destructive: Expiring::new(),
            feedback: Expiring::new(),
            export_armed: false,
        };
        assert(s@.annotations =~= Seq::empty());
        assert(s@.redo =~= Seq::empty());
        s
    }

    /// Session mode is on.
    pub fn is_active(&self) -> (b: bool)
        ensures
            b == self@.active,
    {
        self.active
    }

    /// The composite-export selection is armed.
    pub fn export_armed(&self) -> (b: bool)
        ensures
            b == self@.export_armed,
    {
        self.export_armed
    }

    /// The placed annotations, oldest first.
    pub fn annotations(&self) -> (a: &Vec<A>)
        ensures
            a@ == self@.annotations,
    {
        &self.annotations
    }

    /// Records an annotation, clearing the redo stack.
    pub fn add_annotation(&mut self, annotation: A)
        ensures
            final(self)@ == add_spec(old(self)@, annotation),
    {
        self.annotations.push(annotation);
        self.redo_stack.clear();
        assert(self@.redo =~= Seq::empty());
    }

    /// Undoes the last annotation. Returns false when there is nothing to undo.
    pub fn undo(&mut self) -> (done: bool)
        ensures
            (final(self)@, done) == undo_spec(old(self)@),
    {
        match self.annotations.pop() {
            Some(annotation) => {
                self.redo_stack.push(annotation);
                true
            },
            None => false,
        }
    }

    /// Redoes the last undone annotation. Returns false when there is nothing to redo.
    pub fn redo(&mut self) -> (done: bool)
        ensures
            (final(self)@, done) == redo_spec(old(self)@),
    {
        match self.redo_stack.pop() {
            Some(annotation) => {
                self.annotations.push(annotation);
                true
            },
            None => false,
        }
    }

    /// Enters or leaves session mode.
    pub fn set_session(&mut self, enabled: bool)
        ensures
            final(self)@ == set_session_spec(old(self)@, enabled),
    {
        if self.active == enabled {
            return;
        }
        self.active = enabled;
        if !enabled {
            self.annotations.clear();
            self.redo_stack.clear();
            self.cancel_export();
        }
        self.clear_pending_destructive();
        proof {
            if !enabled {
                assert(self@.annotations =~= Seq::empty());
                assert(self@.redo =~= Seq::empty());
            }
        }
    }

    /// True when leaving session mode would throw away placed annotations.
    pub fn has_work_to_lose(&self) -> (b: bool)
        ensures
            b == has_work_to_lose(self@),
    {
        self.active && self.annotations.len() > 0
    }

    /// Runs a destructive action, or arms it for confirmation when it would
    /// discard annotations. Returns whether the application should quit.
    pub fn request_destructive(&mut self, action: Destructive, now: u64) -> (quit: bool)
        requires
            now + CONFIRM_WINDOW_MS <= u64::MAX,
        ensures
            (final(self)@, quit) == request_spec(old(self)@, action, now),
    {
        if !self.has_work_to_lose() {
            self.clear_pending_destructive();
            return self.perform_destructive(action);
        }
        let repeated = match self.pending_destructive.get(now) {
            Some(armed) => *armed == action,
            None => false,
        };
        if repeated {
            self.clear_pending_destructive();
            return self.perform_destructive(action);
        }
        self.pending_destructive.set(action, now, CONFIRM_WINDOW_MS);
        false
    }

    fn perform_destructive(&mut self, action: Destructive) -> (quit: bool)
        ensures
            (final(self)@, quit) == perform_spec(old(self)@, action),
    {
        match action {
            Destructive::ToggleSession | Destructive::SessionButton => {
                self.set_session(false);
                false
            },
            Destructive::Escape => {
                if self.active {
                    self.set_session(false);
                    false
                } else {
                    true
                }
            },
            Destructive::Quit => true,
        }
    }

    /// Drops any armed confirmation.
    pub fn clear_pending_destructive(&mut self)
        ensures
            final(self)@ == (SessionView { pending: None, ..old(self)@ }),
    {
        self.pending_destructive.clear();
    }

    /// The confirmation prompt to display at `now`, if one is armed and
    /// unexpired; an expired one is dropped.
    pub fn destructive_prompt(&mut self, now: u64) -> (prompt: Option<&'static str>)
        ensures
            match old(self)@.pending {
                Some((action, deadline)) if now < deadline => {
                    &&& final(self)@ == old(self)@
                    &&& (prompt matches Some(text) && text@ == action.prompt_text())
                },
                _ => {
                    &&& final(self)@ == (SessionView { pending: None, ..old(self)@ })
                    &&& prompt is None
                },
            },
    {
        match self.pending_destructive.get(now) {
            Some(action) => Some(action.prompt()),
            None => None,
        }
    }

    /// Shows `message` as transient feedback until `FEEDBACK_DURATION_MS` after `now`.
    pub fn show_feedback(&mut self, message: &str, now: u64)
        requires
            now + FEEDBACK_DURATION_MS <= u64::MAX,
        ensures
            final(self)@ == (SessionView {
                feedback: Some((message@, (now + FEEDBACK_DURATION_MS) as u64)),
                ..old(self)@
            }),
    {
        self.feedback.set(message.to_owned(), now, FEEDBACK_DURATION_MS);
    }

    /// The transient feedback message to display at `now`, if unexpired; an
    /// expired one is dropped.
    pub fn feedback_message(&mut self, now: u64) -> (message: Option<String>)
        ensures
            match old(self)@.feedback {
                Some((text, deadline)) if now < deadline => {
                    &&& final(self)@ == old(self)@
                    &&& (message matches Some(m) && m@ == text)
                },
                _ => {
                    &&& final(self)@ == (SessionView { feedback: None, ..old(self)@ })
                    &&& message is None
                },
            },
    {
        match self.feedback.get(now) {
            Some(text) => Some(text.clone()),
            None => None,
        }
    }

    /// Arms the composite-export selection, if there is anything to export.
    pub fn arm_export(&mut self, now: u64)
        requires
            now + FEEDBACK_DURATION_MS <= u64::MAX,
        ensures
            final(self)@ == arm_export_spec(old(self)@, now),
    {
        if !self.active {
            return;
        }
        if self.annotations.len() == 0 {
            self.show_feedback("Place an annotation before exporting", now);
            return;
        }
        self.export_armed = true;
        self.show_feedback("Drag a region to copy it with annotations", now);
    }

    /// Disarms the composite export.
    pub fn cancel_export(&mut self)
        ensures
            final(self)@ == (SessionView { export_armed: false, ..old(self)@ }),
    {
        self.export_armed = false;
    }

    /// Switches from mode `current` to `next`. Whatever the target, even the
    /// mode already in force, a pending confirmation is dropped and the
    /// export disarmed; annotations, redo history and session mode stay.
    /// Returns which selections carry over.
    pub fn switch_mode(&mut self, current: Mode, next: Mode) -> (switch: ModeSwitch)
        ensures
            switch == mode_switch_of(current, next),
            final(self)@ == (SessionView { pending: None, export_armed: false, ..old(self)@ }),
    {
        self.clear_pending_destructive();
        self.cancel_export();
        mode_switch(current, next)
    }
}


/// Undo followed by redo restores the workspace exactly.
pub proof fn lemma_undo_then_redo_restores<A>(v: SessionView<A>)
    requires
        v.annotations.len() > 0,
    ensures
        undo_spec(v).1,
        redo_spec(undo_spec(v).0) == (v, true),
{
    let u = undo_spec(v).0;
    assert(u.annotations.push(u.redo.last()) =~= v.annotations);
    assert(u.redo.drop_last() =~= v.redo);
}

/// Redo followed by undo restores the workspace exactly.
pub proof fn lemma_redo_then_undo_restores<A>(v: SessionView<A>)
    requires
        v.redo.len() > 0,
    ensures
        redo_spec(v).1,
        undo_spec(redo_spec(v).0) == (v, true),
{
    let r = redo_spec(v).0;
    assert(r.annotations.drop_last() =~= v.annotations);
    assert(r.redo.push(r.annotations.last()) =~= v.redo);
}

/// Placing an annotation and undoing it leaves the annotations as they were,
/// with that annotation as the only thing left to redo.
pub proof fn lemma_add_then_undo<A>(v: SessionView<A>, annotation: A)
    ensures
        undo_spec(add_spec(v, annotation)).1,
        undo_spec(add_spec(v, annotation)).0.annotations == v.annotations,
        undo_spec(add_spec(v, annotation)).0.redo == seq![annotation],
{
    let a = add_spec(v, annotation);
    assert(a.annotations.drop_last() =~= v.annotations);
    assert(Seq::<A>::empty().push(annotation) =~= seq![annotation]);
}

/// A new annotation discards the redo branch: nothing can be redone after it.
pub proof fn lemma_add_discards_redo<A>(v: SessionView<A>, annotation: A)
    ensures
        redo_spec(add_spec(v, annotation)) == (add_spec(v, annotation), false),
{
}

/// Undo and redo on an empty history change nothing and report failure.
pub proof fn lemma_empty_history_is_inert<A>(v: SessionView<A>)
    requires
        v.annotations.len() == 0,
        v.redo.len() == 0,
    ensures
        undo_spec(v) == (v, false),
        redo_spec(v) == (v, false),
{
}

/// With annotations at stake, a request that does not confirm an armed
/// action discards nothing and only arms it; repeating the same action
/// within the confirmation window then carries it out.
pub proof fn lemma_second_press_confirms<A>(v: SessionView<A>, action: Destructive, first: u64, second: u64)
    requires
        has_work_to_lose(v),
        !confirms_armed(v, action, first),
        first + CONFIRM_WINDOW_MS <= u64::MAX,
        second < first + CONFIRM_WINDOW_MS,
    ensures
        ({
            let (armed, quit) = request_spec(v, action, first);
            &&& !quit
            &&& armed.active == v.active
            &&& armed.annotations == v.annotations
            &&& armed.redo == v.redo
            &&& armed.pending == Some((action, (first + CONFIRM_WINDOW_MS) as u64))
            &&& request_spec(armed, action, second) == perform_spec(
                SessionView { pending: None, ..armed },
                action,
            )
        }),
{
}

/// A repeat that comes once the confirmation window has closed does not
/// confirm: the action is armed afresh and nothing is discarded.
pub proof fn lemma_late_repeat_rearms<A>(v: SessionView<A>, action: Destructive, deadline: u64, second: u64)
    requires
        has_work_to_lose(v),
        v.pending == Some((action, deadline)),
        second >= deadline,
        second + CONFIRM_WINDOW_MS <= u64::MAX,
    ensures
        request_spec(v, action, second) == (SessionView {
            pending: Some((action, (second + CONFIRM_WINDOW_MS) as u64)),
            ..v
        }, false),
{
}

/// A different action does not confirm the armed one: it re-arms in its
/// place and discards nothing.
pub proof fn lemma_other_action_rearms<A>(
    v: SessionView<A>,
    armed: Destructive,
    other: Destructive,
    now: u64,
)
    requires
        has_work_to_lose(v),
        v.pending matches Some((a, _)) && a == armed,
        armed != other,
        now + CONFIRM_WINDOW_MS <= u64::MAX,
    ensures
        request_spec(v, other, now) == (SessionView {
            pending: Some((other, (now + CONFIRM_WINDOW_MS) as u64)),
            ..v
        }, false),
{
}

/// With nothing to lose, a destructive action runs at once.
pub proof fn lemma_nothing_to_lose_runs_at_once<A>(v: SessionView<A>, action: Destructive, now: u64)
    requires
        !has_work_to_lose(v),
    ensures
        request_spec(v, action, now) == perform_spec(SessionView { pending: None, ..v }, action),
{
}

/// Escape leaves session mode before it ever quits: inside a session it
/// never asks to quit, and outside one it quits at once.
pub proof fn lemma_escape_leaves_session_first<A>(v: SessionView<A>, now: u64)
    ensures
        v.active ==> !request_spec(v, Destructive::Escape, now).1,
        !v.active ==> request_spec(v, Destructive::Escape, now).1,
{
}

/// Leaving session mode discards every annotation and everything that could
/// be redone, and disarms the export.
pub proof fn lemma_leaving_discards_annotations<A>(v: SessionView<A>)
    requires
        v.active,
    ensures
        !set_session_spec(v, false).active,
        set_session_spec(v, false).annotations.len() == 0,
        set_session_spec(v, false).redo.len() == 0,
        !set_session_spec(v, false).export_armed,
{
}

/// The export arms only inside a session that holds annotations.
pub proof fn lemma_export_needs_annotations<A>(v: SessionView<A>, now: u64)
    requires
        !v.export_armed,
    ensures
        arm_export_spec(v, now).export_armed <==> (v.active && v.annotations.len() > 0),
{
}

/// Tab and the SESSION badge never quit the application. Each either arms
/// itself for confirmation, changing nothing else, or leaves session mode; a
/// session left that way keeps no annotation and nothing to redo.
pub proof fn lemma_session_exits_never_quit<A>(v: SessionView<A>, action: Destructive, now: u64)
    requires
        action == Destructive::ToggleSession || action == Destructive::SessionButton,
        now + CONFIRM_WINDOW_MS <= u64::MAX,
    ensures
        ({
            let (w, quit) = request_spec(v, action, now);
            &&& !quit
            &&& !w.active || w == (SessionView {
                pending: Some((action, (now + CONFIRM_WINDOW_MS) as u64)),
                ..v
            })
            &&& v.active && !w.active ==> w.annotations.len() == 0 && w.redo.len() == 0
            &&& (has_work_to_lose(v) && !confirms_armed(v, action, now)) ==> w.active
        }),
{
}

/// Confirming Tab or the SESSION badge with a second press inside the window
/// leaves the session and discards its annotations, without quitting.
pub proof fn lemma_confirmed_exit_leaves_session<A>(v: SessionView<A>, action: Destructive, now: u64)
    requires
        action == Destructive::ToggleSession || action == Destructive::SessionButton,
        v.active,
        v.pending matches Some((armed, deadline)) && armed == action && now < deadline,
    ensures
        ({
            let (w, quit) = request_spec(v, action, now);
            &&& !quit
            &&& !w.active
            &&& w.annotations.len() == 0
            &&& w.redo.len() == 0
            &&& w.pending is None
        }),
{
}

} // verus!
