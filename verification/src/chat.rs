use vstd::prelude::*;
use crate::keyboard::{Keyboard, KeyboardView, MAX_CONTENT};

verus! {

/// What the eight buttons read on one pass of the chat program's loop.
pub struct ChatButtons {
    /// The left pad's up button is pressed.
    pub l_up: bool,
    /// The left pad's left button is pressed.
    pub l_left: bool,
    /// The left pad's down button is pressed.
    pub l_down: bool,
    /// The left pad's right button is pressed.
    pub l_right: bool,
    /// The right pad's left button is pressed.
    pub r_left: bool,
    /// The right pad's down button is pressed.
    pub r_down: bool,
    /// The right pad's up button has been held down.
    pub r_up_held: bool,
    /// The right pad's right button has been held down.
    pub r_right_held: bool,
}

/// What one pass of the chat program's loop does.
pub enum ChatAction {
    /// Reset the board through the watchdog.
    Reset,
    /// Type the selected key, shown held down until its button is let go.
    Type,
    /// Remove the last typed character.
    Delete,
    /// Move the selection a row up.
    Up,
    /// Move the selection a key left.
    Left,
    /// Move the selection a row down.
    Down,
    /// Move the selection a key right.
    Right,
    /// Nothing: wait for the next pass.
    Wait,
}

/// The action for a reading of the buttons. Holding the right pad's up and
/// right buttons together resets, whatever else is pressed; otherwise the
/// first pressed button in the order right-left (type), right-down
/// (delete), left-up, left-left, left-down, left-right decides.
pub open spec fn chat_decision(b: ChatButtons) -> ChatAction {
    if b.r_up_held && b.r_right_held {
        ChatAction::Reset
    } else if b.r_left {
        ChatAction::Type
    } else if b.r_down {
        ChatAction::Delete
    } else if b.l_up {
        ChatAction::Up
    } else if b.l_left {
        ChatAction::Left
    } else if b.l_down {
        ChatAction::Down
    } else if b.l_right {
        ChatAction::Right
    } else {
        ChatAction::Wait
    }
}

/// The keyboard's state after the action. A reset or a wait leaves it as
/// it is.
pub open spec fn keyboard_after(kb: KeyboardView, a: ChatAction) -> KeyboardView {
    match a {
        ChatAction::Type => kb.press(),
        ChatAction::Delete => kb.delete(),
        ChatAction::Up => kb.moved(-10),
        ChatAction::Left => kb.moved(-1),
        ChatAction::Down => kb.moved(10),
        ChatAction::Right => kb.moved(1),
        ChatAction::Reset | ChatAction::Wait => kb,
    }
}

/// The action for this pass of the loop.
pub fn chat_action(b: &ChatButtons) -> (a: ChatAction)
    ensures
        a == chat_decision(*b),
{
    if b.r_up_held && b.r_right_held {
        ChatAction::Reset
    } else if b.r_left {
        ChatAction::Type
    } else if b.r_down {
        ChatAction::Delete
    } else if b.l_up {
        ChatAction::Up
    } else if b.l_left {
        ChatAction::Left
    } else if b.l_down {
        ChatAction::Down
    } else if b.l_right {
        ChatAction::Right
    } else {
        ChatAction::Wait
    }
}

/// Applies the action to the keyboard. Typing needs room in the text
/// buffer: typing into a full one panics.
pub fn apply_chat_action(kb: &mut Keyboard, a: &ChatAction)
    requires
        *a is Type ==> old(kb)@.text.len() < MAX_CONTENT,
    ensures
        final(kb)@ == keyboard_after(old(kb)@, *a),
{
    match a {
        ChatAction::Type => kb.press(),
        ChatAction::Delete => kb.delete(),
        ChatAction::Up => kb.up(),
        ChatAction::Left => kb.left(),
        ChatAction::Down => kb.down(),
        ChatAction::Right => kb.right(),
        ChatAction::Reset | ChatAction::Wait => {},
    }
}

/// Holding the reset chord resets whatever else is pressed, and the pass
/// that resets leaves the keyboard as it is.
pub proof fn lemma_reset_wins(b: ChatButtons, kb: KeyboardView)
    requires
        b.r_up_held,
        b.r_right_held,
    ensures
        chat_decision(b) == ChatAction::Reset,
        keyboard_after(kb, chat_decision(b)) == kb,
{
}

/// With no button pressed and no reset chord held, a pass of the loop
/// leaves the keyboard as it is.
pub proof fn lemma_idle_pass_changes_nothing(b: ChatButtons, kb: KeyboardView)
    requires
        !(b.r_up_held && b.r_right_held),
        !b.r_left,
        !b.r_down,
        !b.l_up,
        !b.l_left,
        !b.l_down,
        !b.l_right,
    ensures
        chat_decision(b) == ChatAction::Wait,
        keyboard_after(kb, chat_decision(b)) == kb,
{
}

} // verus!
