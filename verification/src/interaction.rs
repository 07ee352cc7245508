//! Whether the overlay takes the mouse.
//!
//! The window lets the mouse through unless the overlay is active. It becomes
//! active when the cursor comes over it, and while it is locked only over the
//! corner that holds the lock.

use vstd::prelude::*;

use crate::settings::{Settings, SettingsView};

verus! {

/// What is to be done to the window and said to the page, in order.
#[derive(Debug, Clone, Copy, PartialEq, Eq, Structural)]
pub enum UiAction {
    /// Let the mouse through, or not.
    IgnoreCursor(bool),
    /// Say whether the overlay is active.
    EmitInteractive(bool),
    /// Say whether the cursor is near the window.
    EmitProximity(bool),
    /// Write the settings to disk.
    SaveSettings,
    /// Say what the settings are now.
    EmitSettings,
}

/// Whether the overlay is active, and whether it is locked.
#[derive(Debug, Clone, Copy, PartialEq, Eq, Structural)]
pub struct Interaction {
    pub active: bool,
    pub locked: bool,
}

/// Where the cursor is: near the window, over the corner with the lock, over
/// the window.
#[derive(Debug, Clone, Copy, PartialEq, Eq, Structural)]
pub struct CursorSample {
    pub near: bool,
    pub over_icon: bool,
    pub over_window: bool,
}

/// Makes the overlay active or not.
pub open spec fn switched(active: bool) -> Seq<UiAction> {
    seq![UiAction::IgnoreCursor(!active), UiAction::EmitInteractive(active)]
}

impl Interaction {
    /// Whether the cursor is where it makes the overlay active.
    pub open spec fn holds(self, cursor: CursorSample) -> bool {
        if self.locked {
            cursor.over_icon
        } else {
            cursor.over_window
        }
    }

    /// The mouse has left the page: the overlay after it, and what is to be done.
    pub open spec fn left(self) -> (Interaction, Seq<UiAction>) {
        (Interaction { active: false, ..self }, switched(false))
    }

    /// The shortcut has been pressed.
    pub open spec fn toggled(self) -> (Interaction, Seq<UiAction>) {
        (Interaction { active: !self.active, ..self }, switched(!self.active))
    }

    /// The lock has been closed or opened. Closing it also makes the overlay
    /// inactive.
    pub open spec fn lock_set(self, locked: bool) -> (Interaction, Seq<UiAction>) {
        (
            Interaction { active: self.active && !locked, locked },
            seq![UiAction::SaveSettings] + (if locked {
                switched(false)
            } else {
                Seq::empty()
            }) + seq![UiAction::EmitSettings],
        )
    }

    /// The cursor has been looked for; `was_near` is what was found before.
    pub open spec fn hovered(self, was_near: bool, cursor: CursorSample) -> (
        Interaction,
        Seq<UiAction>,
    ) {
        let held = self.holds(cursor);
        (
            Interaction { active: held, ..self },
            (if cursor.near != was_near {
                seq![UiAction::EmitProximity(cursor.near)]
            } else {
                Seq::empty()
            }) + (if held != self.active {
                switched(held)
            } else {
                Seq::empty()
            }),
        )
    }

    /// An overlay that is not active.
    pub fn new(locked: bool) -> (r: Interaction)
        ensures
            r == (Interaction { active: false, locked }),
    {
        Interaction { active: false, locked }
    }

    /// The mouse has left the page.
    pub fn deactivate(&mut self) -> (actions: Vec<UiAction>)
        ensures
            (*final(self), actions@) == old(self).left(),
    {
        self.active = false;
        let mut actions: Vec<UiAction> = Vec::new();
        actions.push(UiAction::IgnoreCursor(true));
        actions.push(UiAction::EmitInteractive(false));
        assert(actions@ =~= switched(false));
        actions
    }

    /// The shortcut has been pressed.
    pub fn toggle_active(&mut self) -> (actions: Vec<UiAction>)
        ensures
            (*final(self), actions@) == old(self).toggled(),
    {
        self.active = !self.active;
        let mut actions: Vec<UiAction> = Vec::new();
        actions.push(UiAction::IgnoreCursor(!self.active));
        actions.push(UiAction::EmitInteractive(self.active));
        assert(actions@ =~= switched(self.active));
        actions
    }

    /// The lock has been clicked.
    pub fn toggle_lock(&mut self, settings: &mut Settings) -> (actions: Vec<UiAction>)
        ensures
            final(settings)@ == (SettingsView { locked: !old(settings).locked, ..old(settings)@ }),
            (*final(self), actions@) == old(self).lock_set(!old(settings).locked),
            final(self).locked == final(settings).locked,
    {
        settings.locked = !settings.locked;
        self.locked = settings.locked;
        let mut actions: Vec<UiAction> = Vec::new();
        actions.push(UiAction::SaveSettings);
        if settings.locked {
            self.active = false;
            actions.push(UiAction::IgnoreCursor(true));
            actions.push(UiAction::EmitInteractive(false));
        }
        actions.push(UiAction::EmitSettings);
        assert(actions@ =~= old(self).lock_set(settings.locked).1);
        actions
    }

    /// The cursor has been looked for. `was_near` is what was found before.
    pub fn hover(&mut self, was_near: &mut bool, cursor: CursorSample) -> (actions: Vec<UiAction>)
        ensures
            *final(was_near) == cursor.near,
            (*final(self), actions@) == old(self).hovered(*old(was_near), cursor),
    {
        let mut actions: Vec<UiAction> = Vec::new();
        if cursor.near != *was_near {
            *was_near = cursor.near;
            actions.push(UiAction::EmitProximity(cursor.near));
        }
        let held: bool = if self.locked {
            cursor.over_icon
        } else {
            cursor.over_window
        };
        if held != self.active {
            self.active = held;
            actions.push(UiAction::IgnoreCursor(!held));
            actions.push(UiAction::EmitInteractive(held));
        }
        assert(actions@ =~= old(self).hovered(*old(was_near), cursor).1);
        actions
    }
}

/// The window and the page: whether the window lets the mouse through, and
/// whether the page was last told that the overlay is active.
pub struct Shown {
    pub ignoring: bool,
    pub interactive: bool,
}

/// The window and the page after `actions`.
pub open spec fn performed(shown: Shown, actions: Seq<UiAction>) -> Shown
    decreases actions.len(),
{
    if actions.len() == 0 {
        shown
    } else {
        let before = performed(shown, actions.drop_last());
        match actions.last() {
            UiAction::IgnoreCursor(ignoring) => Shown { ignoring, ..before },
            UiAction::EmitInteractive(interactive) => Shown { interactive, ..before },
            _ => before,
        }
    }
}

/// The window lets the mouse through, and the page knows the overlay to be
/// inactive, exactly while it is.
pub open spec fn agrees(overlay: Interaction, shown: Shown) -> bool {
    shown == (Shown { ignoring: !overlay.active, interactive: overlay.active })
}

/// What can happen to the overlay.
pub enum UiInput {
    MouseLeft,
    Shortcut,
    Lock(bool),
    Cursor { was_near: bool, cursor: CursorSample },
}

/// The overlay after an input, and what is to be done.
pub open spec fn responded(overlay: Interaction, input: UiInput) -> (Interaction, Seq<UiAction>) {
    match input {
        UiInput::MouseLeft => overlay.left(),
        UiInput::Shortcut => overlay.toggled(),
        UiInput::Lock(locked) => overlay.lock_set(locked),
        UiInput::Cursor { was_near, cursor } => overlay.hovered(was_near, cursor),
    }
}

/// Whatever happens to the overlay, window and page go on agreeing with it once
/// the actions are performed.
pub proof fn law_window_follows_overlay(overlay: Interaction, shown: Shown, input: UiInput)
    requires
        agrees(overlay, shown),
    ensures
        ({
            let (after, actions) = responded(overlay, input);
            agrees(after, performed(shown, actions))
        }),
{
    let (after, actions) = responded(overlay, input);
    reveal_with_fuel(performed, 6);
    if actions.len() > 0 {
        let a1 = actions.drop_last();
        if a1.len() > 0 {
            let a2 = a1.drop_last();
            if a2.len() > 0 {
                let a3 = a2.drop_last();
                assert(a3.len() <= 1);
            }
        }
    }
}

/// The overlay, the window and the page after these inputs.
pub open spec fn after_inputs(overlay: Interaction, shown: Shown, inputs: Seq<UiInput>) -> (
    Interaction,
    Shown,
)
    decreases inputs.len(),
{
    if inputs.len() == 0 {
        (overlay, shown)
    } else {
        let (o, s) = after_inputs(overlay, shown, inputs.drop_last());
        let (next, actions) = responded(o, inputs.last());
        (next, performed(s, actions))
    }
}

/// From a start at which the overlay is inactive and the window lets the mouse
/// through, window and page agree with the overlay for ever.
pub proof fn law_window_always_follows(locked: bool, inputs: Seq<UiInput>)
    ensures
        ({
            let start = Interaction { active: false, locked };
            let (overlay, shown) = after_inputs(
                start,
                Shown { ignoring: true, interactive: false },
                inputs,
            );
            agrees(overlay, shown)
        }),
    decreases inputs.len(),
{
    if inputs.len() > 0 {
        law_window_always_follows(locked, inputs.drop_last());
        let (o, s) = after_inputs(
            Interaction { active: false, locked },
            Shown { ignoring: true, interactive: false },
            inputs.drop_last(),
        );
        law_window_follows_overlay(o, s, inputs.last());
    }
}

/// An overlay that is locked becomes active under the cursor only over the
/// corner with the lock, and one that is not only over the window.
pub proof fn law_hover_respects_lock(overlay: Interaction, was_near: bool, cursor: CursorSample)
    ensures
        overlay.hovered(was_near, cursor).0.active ==> if overlay.locked {
            cursor.over_icon
        } else {
            cursor.over_window
        },
        overlay.hovered(was_near, cursor).0.locked == overlay.locked,
{
}

/// A cursor that stays where it is asks for nothing a second time.
pub proof fn law_resting_cursor_is_quiet(
    overlay: Interaction,
    was_near: bool,
    cursor: CursorSample,
)
    ensures
        overlay.hovered(was_near, cursor).0.hovered(cursor.near, cursor) == (
            overlay.hovered(was_near, cursor).0,
            Seq::<UiAction>::empty(),
        ),
{
    assert(overlay.hovered(was_near, cursor).0.hovered(cursor.near, cursor).1 =~= Seq::empty());
}

/// After a look at the cursor the overlay is active exactly when the cursor is
/// over the corner with the lock, where it is locked, and over the window, where
/// it is not: whatever it was before.
pub proof fn law_cursor_decides_activity(overlay: Interaction, was_near: bool, cursor: CursorSample)
    ensures
        overlay.locked ==> (overlay.hovered(was_near, cursor).0.active <==> cursor.over_icon),
        !overlay.locked ==> (overlay.hovered(was_near, cursor).0.active <==> cursor.over_window),
        overlay.hovered(was_near, cursor).0.locked == overlay.locked,
{
}

/// A look at the cursor tells what has changed and nothing else: first whether
/// the cursor is near, where that differs from what was found before, and then
/// that the window takes the mouse or lets it through, where the overlay has
/// become active or inactive.
pub proof fn law_look_tells_changes_only(overlay: Interaction, was_near: bool, cursor: CursorSample)
    ensures
        ({
            let (after, actions) = overlay.hovered(was_near, cursor);
            let turned = after.active != overlay.active;
            let moved = cursor.near != was_near;
            let n: int = if moved {
                1
            } else {
                0
            };
            &&& actions.len() == n + (if turned {
                2int
            } else {
                0int
            })
            &&& moved ==> actions[0] == UiAction::EmitProximity(cursor.near)
            &&& turned ==> actions[n] == UiAction::IgnoreCursor(!after.active)
            &&& turned ==> actions[n + 1] == UiAction::EmitInteractive(after.active)
        }),
{
}

/// When the mouse leaves the page the overlay is inactive, the window lets the
/// mouse through, and the page is told; the lock stays as it is.
pub proof fn law_leaving_deactivates(overlay: Interaction)
    ensures
        !overlay.left().0.active,
        overlay.left().0.locked == overlay.locked,
        overlay.left().1 == seq![UiAction::IgnoreCursor(true), UiAction::EmitInteractive(false)],
{
}

/// The shortcut turns the overlay from active to inactive and back, and the
/// window and the page with it; the lock stays as it is.
pub proof fn law_shortcut_turns_activity(overlay: Interaction)
    ensures
        overlay.toggled().0.active != overlay.active,
        overlay.toggled().0.locked == overlay.locked,
        overlay.toggled().0.toggled().0 == overlay,
        overlay.toggled().1 == seq![
            UiAction::IgnoreCursor(overlay.active),
            UiAction::EmitInteractive(!overlay.active),
        ],
{
}

/// The lock is as it was set. Closing it makes the overlay inactive and lets the
/// mouse through; opening it leaves the overlay as it was. Either way the
/// settings are saved first and told last.
pub proof fn law_lock_closes_the_overlay(overlay: Interaction, locked: bool)
    ensures
        overlay.lock_set(locked).0.locked == locked,
        locked ==> !overlay.lock_set(locked).0.active,
        !locked ==> overlay.lock_set(locked).0.active == overlay.active,
        locked ==> overlay.lock_set(locked).1 == seq![
            UiAction::SaveSettings,
            UiAction::IgnoreCursor(true),
            UiAction::EmitInteractive(false),
            UiAction::EmitSettings,
        ],
        !locked ==> overlay.lock_set(locked).1 == seq![
            UiAction::SaveSettings,
            UiAction::EmitSettings,
        ],
{
}

} // verus!
