use vstd::prelude::*;

verus! {

/// Intents that the input listener hands to the session.
#[derive(Debug, Clone, Copy, PartialEq, Eq, Structural)]
pub enum Event {
    TogglePause,
    Skip,
}

/// A key event, with what the listener reads of it.
#[derive(Debug, Clone, Copy, PartialEq, Eq, Structural)]
pub struct KeyInput {
    /// The character of the key, if it is a character key.
    pub code: Option<char>,
    /// No modifier key is held.
    pub no_modifiers: bool,
    /// No lock or keypad state is set.
    pub no_state: bool,
    /// The key was pressed (not repeated or released).
    pub press: bool,
}

/// A raw input event.
#[derive(Debug, Clone, Copy, PartialEq, Eq, Structural)]
pub enum Input {
    Key(KeyInput),
    /// The terminal was resized.
    Resize,
    /// Anything else (mouse, focus, paste).
    Other,
}

/// What the input listener does with an input.
#[derive(Debug, Clone, Copy, PartialEq, Eq, Structural)]
pub enum Reaction {
    /// Hand this intent to the session.
    Send(Event),
    /// Ask the presentation side to draw the screen again (best effort).
    Refresh,
    /// Stop listening; the session sees its intent source close.
    Quit,
    /// Nothing.
    Ignore,
}

/// A plain press: no modifier, no state, a press.
pub open spec fn is_plain(k: KeyInput) -> bool {
    k.no_modifiers && k.no_state && k.press
}

/// What the listener does with `input`: `p` or space toggles the pause, `s` skips, `q` quits,
/// each only as a plain press; a resize asks for a redraw; anything else is ignored.
pub open spec fn reaction(input: Input) -> Reaction {
    match input {
        Input::Key(k) => if !is_plain(k) {
            Reaction::Ignore
        } else if k.code == Some('p') || k.code == Some(' ') {
            Reaction::Send(Event::TogglePause)
        } else if k.code == Some('s') {
            Reaction::Send(Event::Skip)
        } else if k.code == Some('q') {
            Reaction::Quit
        } else {
            Reaction::Ignore
        },
        Input::Resize => Reaction::Refresh,
        Input::Other => Reaction::Ignore,
    }
}

/// The input listener.
pub struct EventHandler();

impl EventHandler {
    /// Classifies one input (see `reaction`).
    pub fn classify(input: Input) -> (r: Reaction)
        ensures
            r == reaction(input),
    {
        match input {
            Input::Key(k) => {
                if !(k.no_modifiers && k.no_state && k.press) {
                    return Reaction::Ignore;
                }
                match k.code {
                    Some('p') | Some(' ') => Reaction::Send(Event::TogglePause),
                    Some('s') => Reaction::Send(Event::Skip),
                    Some('q') => Reaction::Quit,
                    _ => Reaction::Ignore,
                }
            },
            Input::Resize => Reaction::Refresh,
            Input::Other => Reaction::Ignore,
        }
    }
}

} // verus!
