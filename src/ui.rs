//! Screen states of the interface, the close-key decision on them, and
//! editing of input-field text.

use vstd::prelude::*;

verus! {

/// Longest text, in UTF-8 bytes, that an input field accepts.
pub const MAX_INPUT_LENGTH: usize = 120;

/// Numeric identifier of a screen state; remembers where a dialog returns to.
#[derive(Clone, Copy, Debug, PartialEq, Eq, Structural)]
pub struct UIStateID(pub u32);

/// The screen the interface shows.
#[derive(Clone, Copy, Debug, PartialEq, Eq, Structural)]
pub enum UIState {
    Uninitialized,
    BootScreen,
    WorldSelection,
    Multiplayer,
    NewWorld,
    Escape,
    InGame,
    Settings(UIStateID),
    Loading,
    Confirm(UIStateID, u8),
    Error(UIStateID, u8),
}

/// The identifier of each state, its payload dropped.
pub open spec fn id_of_state(s: UIState) -> u32 {
    match s {
        UIState::Uninitialized => 0,
        UIState::BootScreen => 1,
        UIState::WorldSelection => 2,
        UIState::Multiplayer => 3,
        UIState::NewWorld => 4,
        UIState::Escape => 5,
        UIState::InGame => 6,
        UIState::Settings(..) => 7,
        UIState::Confirm(..) => 8,
        UIState::Loading => 9,
        UIState::Error(..) => 10,
    }
}

/// The state an identifier stands for, with default payloads; unknown
/// identifiers give `UIState::Uninitialized`.
pub open spec fn state_of_id(id: u32) -> UIState {
    if id == 1 {
        UIState::BootScreen
    } else if id == 2 {
        UIState::WorldSelection
    } else if id == 3 {
        UIState::Multiplayer
    } else if id == 4 {
        UIState::NewWorld
    } else if id == 5 {
        UIState::Escape
    } else if id == 6 {
        UIState::InGame
    } else if id == 7 {
        UIState::Settings(UIStateID(0))
    } else if id == 8 {
        UIState::Confirm(UIStateID(0), 0)
    } else if id == 9 {
        UIState::Loading
    } else if id == 10 {
        UIState::Error(UIStateID(0), 0)
    } else {
        UIState::Uninitialized
    }
}

impl UIStateID {
    pub fn new(id: u32) -> (r: UIStateID)
        ensures
            r == UIStateID(id),
    {
        UIStateID(id)
    }
}

impl<'a> From<&'a UIState> for UIStateID {
    /// The identifier of `state`.
    fn from(state: &'a UIState) -> (r: UIStateID)
        ensures
            r == UIStateID(id_of_state(*state)),
    {
        match state {
            UIState::Uninitialized => UIStateID(0),
            UIState::BootScreen => UIStateID(1),
            UIState::WorldSelection => UIStateID(2),
            UIState::Multiplayer => UIStateID(3),
            UIState::NewWorld => UIStateID(4),
            UIState::Escape => UIStateID(5),
            UIState::InGame => UIStateID(6),
            UIState::Settings(..) => UIStateID(7),
            UIState::Confirm(..) => UIStateID(8),
            UIState::Loading => UIStateID(9),
            UIState::Error(..) => UIStateID(10),
        }
    }
}

impl<'a> vstd::std_specs::convert::FromSpecImpl<&'a UIState> for UIStateID {
    open spec fn obeys_from_spec() -> bool {
        true
    }

    open spec fn from_spec(state: &'a UIState) -> UIStateID {
        UIStateID(id_of_state(*state))
    }
}

impl Default for UIStateID {
    /// The identifier of `UIState::Uninitialized`.
    fn default() -> (r: UIStateID)
        ensures
            r == UIStateID(0),
    {
        UIStateID::from(&UIState::Uninitialized)
    }
}

impl Default for UIState {
    fn default() -> (r: UIState)
        ensures
            r == UIState::Uninitialized,
    {
        UIState::Uninitialized
    }
}

impl From<UIStateID> for UIState {
    /// The state that `id` stands for.
    fn from(id: UIStateID) -> (r: UIState)
        ensures
            r == state_of_id(id.0),
    {
        match id.0 {
            1 => UIState::BootScreen,
            2 => UIState::WorldSelection,
            3 => UIState::Multiplayer,
            4 => UIState::NewWorld,
            5 => UIState::Escape,
            6 => UIState::InGame,
            7 => UIState::Settings(UIStateID(0)),
            8 => UIState::Confirm(UIStateID(0), 0u8),
            9 => UIState::Loading,
            10 => UIState::Error(UIStateID(0), 0u8),
            _ => UIState::Uninitialized,
        }
    }
}

impl vstd::std_specs::convert::FromSpecImpl<UIStateID> for UIState {
    open spec fn obeys_from_spec() -> bool {
        true
    }

    open spec fn from_spec(id: UIStateID) -> UIState {
        state_of_id(id.0)
    }
}

impl UIState {
    /// The dialog number carried by a confirm or error screen.
    pub fn inner(&self) -> (r: Option<u8>)
        ensures
            r == match *self {
                UIState::Confirm(_, id) => Some(id),
                UIState::Error(_, id) => Some(id),
                _ => None,
            },
    {
        match self {
            UIState::Confirm(_, id) => Some(*id),
            UIState::Error(_, id) => Some(*id),
            _ => None,
        }
    }

    /// The state a confirm or error screen returns to; `UIState::Uninitialized` for
    /// every other screen.
    pub fn inner_state(&self) -> (r: UIState)
        ensures
            r == match *self {
                UIState::Confirm(id, _) => state_of_id(id.0),
                UIState::Error(id, _) => state_of_id(id.0),
                _ => UIState::Uninitialized,
            },
    {
        match self {
            UIState::Confirm(id, _) => UIState::from(*id),
            UIState::Error(id, _) => UIState::from(*id),
            _ => UIState::Uninitialized,
        }
    }
}

/// What pressing the close key (Escape) asks for on a given screen.
#[derive(Clone, Copy, Debug, PartialEq, Eq, Structural)]
pub enum CloseAction {
    /// Nothing happens (loading, or not yet initialized).
    Ignore,
    /// The application quits (from the boot screen).
    CloseApp,
    /// The interface switches to this screen and is rebuilt.
    Show(UIState),
    /// The game pauses: the escape menu is shown, held keys are released and
    /// the world stops running.
    Pause,
    /// The game resumes: the in-game screen is shown and the world runs again.
    Resume,
    /// The dialog with this number is cancelled and the interface returns to
    /// the given screen.
    CancelDialog(u8, UIState),
}

/// The response to the close key on screen `s`.
pub open spec fn close_action_of(s: UIState) -> CloseAction {
    match s {
        UIState::WorldSelection => CloseAction::Show(UIState::BootScreen),
        UIState::Multiplayer => CloseAction::Show(UIState::BootScreen),
        UIState::BootScreen => CloseAction::CloseApp,
        UIState::InGame => CloseAction::Pause,
        UIState::Escape => CloseAction::Resume,
        UIState::Loading => CloseAction::Ignore,
        UIState::Uninitialized => CloseAction::Ignore,
        UIState::NewWorld => CloseAction::Show(UIState::WorldSelection),
        UIState::Error(prev, dialog) => CloseAction::CancelDialog(dialog, state_of_id(prev.0)),
        UIState::Confirm(prev, dialog) => CloseAction::CancelDialog(dialog, state_of_id(prev.0)),
        UIState::Settings(prev) => CloseAction::Show(state_of_id(prev.0)),
    }
}

/// Decides what the close key does on the screen `current`; the caller
/// carries the action out on the interface and the game.
pub fn close_pressed(current: &UIState) -> (r: CloseAction)
    ensures
        r == close_action_of(*current),
{
    match current {
        UIState::WorldSelection | UIState::Multiplayer => CloseAction::Show(UIState::BootScreen),
        UIState::BootScreen => CloseAction::CloseApp,
        UIState::InGame => CloseAction::Pause,
        UIState::Escape => CloseAction::Resume,
        UIState::Loading | UIState::Uninitialized => CloseAction::Ignore,
        UIState::NewWorld => CloseAction::Show(UIState::WorldSelection),
        UIState::Error(prev_state, dialog_id) | UIState::Confirm(prev_state, dialog_id) => {
            CloseAction::CancelDialog(*dialog_id, UIState::from(*prev_state))
        },
        UIState::Settings(prev_state) => CloseAction::Show(UIState::from(*prev_state)),
    }
}

/// Whether `c` is in the Unicode general category Cc (control codes):
/// U+0000 to U+001F and U+007F to U+009F.
pub open spec fn is_control_char(c: char) -> bool {
    c <= '\u{1F}' || ('\u{7F}' <= c && c <= '\u{9F}')
}

/// Relies on `char::is_control`: true exactly for the general category Cc.
#[verifier::external_body]
fn char_is_control(c: char) -> (r: bool)
    ensures
        r == is_control_char(c),
{
    c.is_control()
}

/// Relies on `String::push`: appends `c` to the end.
#[verifier::external_body]
fn string_push(s: &mut String, c: char)
    ensures
        final(s)@ == old(s)@.push(c),
{
    s.push(c)
}

/// Relies on `String::pop`: removes and returns the last character, or
/// returns `None` and leaves an empty string as it is.
#[verifier::external_body]
fn string_pop(s: &mut String) -> (r: Option<char>)
    ensures
        old(s)@.len() == 0 ==> r is None && final(s)@ == old(s)@,
        old(s)@.len() > 0 ==> r == Some(old(s)@.last()) && final(s)@ == old(s)@.drop_last(),
{
    s.pop()
}

/// Length in bytes of the UTF-8 encoding of `s`.
pub open spec fn utf8_len(s: Seq<char>) -> nat {
    vstd::utf8::encode_utf8(s).len()
}

/// Appends a typed character to an input field's text, unless the text has
/// reached its length limit or the character is a control code; returns
/// whether it was appended.
pub fn process_text_input(text: &mut String, c: char) -> (r: bool)
    ensures
        r == ((utf8_len(old(text)@) as usize) < MAX_INPUT_LENGTH && !is_control_char(c)),
        final(text)@ == if r {
            old(text)@.push(c)
        } else {
            old(text)@
        },
{
    if text.as_str().len() >= MAX_INPUT_LENGTH || char_is_control(c) {
        return false;
    }
    string_push(text, c);
    true
}

/// Deletes the last character of an input field's text; returns whether
/// there was one.
pub fn handle_backspace(text: &mut String) -> (r: bool)
    ensures
        r == (old(text)@.len() > 0),
        final(text)@ == if r {
            old(text)@.drop_last()
        } else {
            old(text)@
        },
{
    if !text.as_str().is_empty() {
        string_pop(text);
        true
    } else {
        false
    }
}

} // verus!
