//! Keys, the actions of the pager, and the bindings between them.
//!
//! Actions form a closed set. Which key triggers which action is data: a
//! keymap is a list of bindings, and a binding added later overrides an
//! earlier one for the same key.

use crate::search::Direction;
use vstd::prelude::*;

verus! {

/// A key of the keyboard.
#[derive(Clone, Copy, Debug, PartialEq, Eq, Structural)]
pub enum Key {
    /// One byte of typed text.
    Char(u8),
    Enter,
    Escape,
    Backspace,
    Delete,
    Tab,
    Up,
    Down,
    Left,
    Right,
    PageUp,
    PageDown,
    Home,
    End,
}

/// A key press with its modifiers.
#[derive(Clone, Copy, Debug, PartialEq, Eq, Structural)]
pub struct KeyEvent {
    pub key: Key,
    pub ctrl: bool,
    pub alt: bool,
}

/// What the pager can be asked to do.
#[derive(Clone, Copy, Debug, PartialEq, Eq, Structural)]
pub enum Action {
    /// Move the viewport up by a number of lines.
    ScrollUp(usize),
    /// Move the viewport down by a number of lines.
    ScrollDown(usize),
    /// Move the viewport up by one screen.
    PageUp,
    /// Move the viewport down by one screen.
    PageDown,
    /// Show the first line.
    Top,
    /// Show the last screen.
    Bottom,
    /// Ask for a line number to jump to.
    PromptGoToLine,
    /// Ask for a pattern to search for.
    PromptSearch(Direction),
    /// Move to the next occurrence in the direction of the search.
    NextMatch,
    /// Move to the next occurrence against the direction of the search.
    PreviousMatch,
    /// Show the error stream of the current file, or go back to its
    /// output.
    ToggleErrorView,
    /// Show the next file.
    NextFile,
    /// Show the previous file.
    PreviousFile,
    /// Draw the screen again.
    Refresh,
    /// Leave a prompt without submitting.
    Cancel,
    /// Leave the pager.
    Quit,
}

/// One key bound to one action.
#[derive(Clone, Copy, Debug, PartialEq, Eq, Structural)]
pub struct Binding {
    pub key: KeyEvent,
    pub action: Action,
}

/// A plain key press.
pub open spec fn plain_key(key: Key) -> KeyEvent {
    KeyEvent { key, ctrl: false, alt: false }
}

/// A plain press of the key that types `c`.
pub open spec fn plain_char(c: u8) -> KeyEvent {
    plain_key(Key::Char(c))
}

/// A press of the key that types `c` with Control held.
pub open spec fn ctrl_char(c: u8) -> KeyEvent {
    KeyEvent { key: Key::Char(c), ctrl: true, alt: false }
}

/// The action to which `bindings` bind `key`: that of the last binding
/// for it.
pub open spec fn bound_action(bindings: Seq<Binding>, key: KeyEvent) -> Option<Action>
    decreases bindings.len(),
{
    if bindings.len() == 0 {
        None
    } else if bindings.last().key == key {
        Some(bindings.last().action)
    } else {
        bound_action(bindings.drop_last(), key)
    }
}

/// The bindings of a fresh keymap.
pub open spec fn default_bindings() -> Seq<Binding> {
    seq![
        Binding { key: plain_char(113), action: Action::Quit },
        Binding { key: ctrl_char(99), action: Action::Quit },
        Binding { key: plain_key(Key::Escape), action: Action::Cancel },
        Binding { key: plain_char(106), action: Action::ScrollDown(1) },
        Binding { key: plain_key(Key::Down), action: Action::ScrollDown(1) },
        Binding { key: plain_key(Key::Enter), action: Action::ScrollDown(1) },
        Binding { key: plain_char(107), action: Action::ScrollUp(1) },
        Binding { key: plain_key(Key::Up), action: Action::ScrollUp(1) },
        Binding { key: plain_char(32), action: Action::PageDown },
        Binding { key: plain_key(Key::PageDown), action: Action::PageDown },
        Binding { key: plain_char(98), action: Action::PageUp },
        Binding { key: plain_key(Key::PageUp), action: Action::PageUp },
        Binding { key: plain_char(103), action: Action::Top },
        Binding { key: plain_key(Key::Home), action: Action::Top },
        Binding { key: plain_char(71), action: Action::Bottom },
        Binding { key: plain_key(Key::End), action: Action::Bottom },
        Binding { key: plain_char(58), action: Action::PromptGoToLine },
        Binding { key: plain_char(47), action: Action::PromptSearch(Direction::Forward) },
        Binding { key: plain_char(63), action: Action::PromptSearch(Direction::Backward) },
        Binding { key: plain_char(110), action: Action::NextMatch },
        Binding { key: plain_char(78), action: Action::PreviousMatch },
        Binding { key: plain_char(101), action: Action::ToggleErrorView },
        Binding { key: plain_char(93), action: Action::NextFile },
        Binding { key: plain_char(91), action: Action::PreviousFile },
        Binding { key: ctrl_char(108), action: Action::Refresh },
    ]
}

/// A later binding for a key hides every earlier one; a binding for
/// another key changes nothing.
pub proof fn lemma_bind_overrides(bindings: Seq<Binding>, binding: Binding, key: KeyEvent)
    ensures
        bound_action(bindings.push(binding), key) == if binding.key == key {
            Some(binding.action)
        } else {
            bound_action(bindings, key)
        },
{
    assert(bindings.push(binding).drop_last() == bindings);
}

/// The bindings from keys to actions.
pub struct Keymap {
    bindings: Vec<Binding>,
}

impl View for Keymap {
    type V = Seq<Binding>;

    closed spec fn view(&self) -> Seq<Binding> {
        self.bindings@
    }
}

impl Keymap {
    /// A keymap without bindings.
    pub fn empty() -> (keymap: Keymap)
        ensures
            keymap@ == Seq::<Binding>::empty(),
    {
        Keymap { bindings: Vec::new() }
    }

    /// The keymap with the usual bindings of a pager.
    pub fn new() -> (keymap: Keymap)
        ensures
            keymap@ == default_bindings(),
    {
        let mut keymap = Keymap::empty();
        keymap.bind(key_event(Key::Char(113), false), Action::Quit);
        keymap.bind(key_event(Key::Char(99), true), Action::Quit);
        keymap.bind(key_event(Key::Escape, false), Action::Cancel);
        keymap.bind(key_event(Key::Char(106), false), Action::ScrollDown(1));
        keymap.bind(key_event(Key::Down, false), Action::ScrollDown(1));
        keymap.bind(key_event(Key::Enter, false), Action::ScrollDown(1));
        keymap.bind(key_event(Key::Char(107), false), Action::ScrollUp(1));
        keymap.bind(key_event(Key::Up, false), Action::ScrollUp(1));
        keymap.bind(key_event(Key::Char(32), false), Action::PageDown);
        keymap.bind(key_event(Key::PageDown, false), Action::PageDown);
        keymap.bind(key_event(Key::Char(98), false), Action::PageUp);
        keymap.bind(key_event(Key::PageUp, false), Action::PageUp);
        keymap.bind(key_event(Key::Char(103), false), Action::Top);
        keymap.bind(key_event(Key::Home, false), Action::Top);
        keymap.bind(key_event(Key::Char(71), false), Action::Bottom);
        keymap.bind(key_event(Key::End, false), Action::Bottom);
        keymap.bind(key_event(Key::Char(58), false), Action::PromptGoToLine);
        keymap.bind(key_event(Key::Char(47), false), Action::PromptSearch(Direction::Forward));
        keymap.bind(key_event(Key::Char(63), false), Action::PromptSearch(Direction::Backward));
        keymap.bind(key_event(Key::Char(110), false), Action::NextMatch);
        keymap.bind(key_event(Key::Char(78), false), Action::PreviousMatch);
        keymap.bind(key_event(Key::Char(101), false), Action::ToggleErrorView);
        keymap.bind(key_event(Key::Char(93), false), Action::NextFile);
        keymap.bind(key_event(Key::Char(91), false), Action::PreviousFile);
        keymap.bind(key_event(Key::Char(108), true), Action::Refresh);
        assert(keymap@ =~= default_bindings());
        keymap
    }

    /// Binds `key` to `action`, overriding any earlier binding for it.
    pub fn bind(&mut self, key: KeyEvent, action: Action)
        ensures
            final(self)@ == old(self)@.push(Binding { key, action }),
    {
        self.bindings.push(Binding { key, action });
    }

    /// The action bound to `key`, if any.
    pub fn lookup(&self, key: KeyEvent) -> (action: Option<Action>)
        ensures
            action == bound_action(self@, key),
    {
        let mut i: usize = self.bindings.len();
        proof {
            assert(self.bindings@.take(i as int) == self.bindings@);
        }
        while i > 0
            invariant
                i <= self.bindings@.len(),
                bound_action(self.bindings@, key) == bound_action(
                    self.bindings@.take(i as int),
                    key,
                ),
            decreases i,
        {
            i -= 1;
            proof {
                assert(self.bindings@.take(i + 1).drop_last() == self.bindings@.take(i as int));
            }
            if self.bindings[i].key == key {
                return Some(self.bindings[i].action);
            }
        }
        None
    }
}

/// A press of `key`, with or without Control.
pub fn key_event(key: Key, ctrl: bool) -> (event: KeyEvent)
    ensures
        event == (KeyEvent { key, ctrl, alt: false }),
{
    KeyEvent { key, ctrl, alt: false }
}

} // verus!
