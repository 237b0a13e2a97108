//! Translation of raw terminal input into playback commands.
//!
//! A key arrives either as a single character (the direct mapping table) or
//! as a three-byte ANSI CSI sequence for the arrow keys.  The translator is a
//! small state machine fed one character at a time; the caller reads the
//! input stream and reports end of stream through [`Command::end_of_input`].

use vstd::prelude::*;

verus! {

/// A playback command produced by the translator and consumed by the
/// playback session.
#[derive(Clone, Copy, Debug, PartialEq, Eq, Structural)]
pub enum Key {
    Pause,
    Exit,
    Forward,
    Backward,
    Next,
    Previous,
}

/// Where the translator stands inside a possible escape sequence.
#[derive(Clone, Copy, Debug, PartialEq, Eq, Structural)]
pub enum EscapeState {
    /// Not inside an escape sequence.
    Ground,
    /// An escape character was read; waiting for the CSI introducer.
    Escape,
    /// Escape and `[` were read; the next character decides the arrow key.
    Bracket,
}

/// The direct single-character mapping table.
pub open spec fn direct_key(c: char) -> Option<Key> {
    if c == ' ' {
        Some(Key::Pause)
    } else if c == 'q' {
        Some(Key::Exit)
    } else if c == 'f' {
        Some(Key::Forward)
    } else if c == 'b' {
        Some(Key::Backward)
    } else if c == 'n' {
        Some(Key::Next)
    } else if c == 'p' {
        Some(Key::Previous)
    } else {
        None
    }
}

/// The final byte of a CSI arrow sequence, mapped to its directional command.
pub open spec fn arrow_key(c: char) -> Option<Key> {
    if c == 'C' {
        Some(Key::Forward)
    } else if c == 'D' {
        Some(Key::Backward)
    } else if c == 'A' {
        Some(Key::Next)
    } else if c == 'B' {
        Some(Key::Previous)
    } else {
        None
    }
}

/// One step of the translator: from a state and an input character to the
/// next state and the command emitted, if any.
pub open spec fn translate(st: EscapeState, c: char) -> (EscapeState, Option<Key>) {
    match st {
        EscapeState::Ground => {
            if c == '\x1b' {
                (EscapeState::Escape, None)
            } else {
                (EscapeState::Ground, direct_key(c))
            }
        },
        EscapeState::Escape => {
            if c == '[' {
                (EscapeState::Bracket, None)
            } else {
                (EscapeState::Ground, None)
            }
        },
        EscapeState::Bracket => (EscapeState::Ground, arrow_key(c)),
    }
}

/// The command emitted when the input stream ends in the given state.  A
/// stream that dies while an escape sequence is still unresolved after the
/// escape character, or at the top level, is a disconnect and maps to
/// `Exit`; one that dies after the CSI introducer discards the sequence.
pub open spec fn end_key(st: EscapeState) -> Option<Key> {
    match st {
        EscapeState::Ground => Some(Key::Exit),
        EscapeState::Escape => Some(Key::Exit),
        EscapeState::Bracket => None,
    }
}

/// The stateless command translator, holding only its position inside a
/// possible escape sequence.
pub struct Command {
    esc: EscapeState,
}

impl View for Command {
    type V = EscapeState;

    closed spec fn view(&self) -> EscapeState {
        self.esc
    }
}

impl Command {
    /// A fresh translator, outside any escape sequence.
    pub fn new() -> (r: Self)
        ensures
            r@ == EscapeState::Ground,
    {
        Command { esc: EscapeState::Ground }
    }

    /// Feed one input character; the returned command, if any, is what the
    /// character resolves to in the current state.
    pub fn process(&mut self, c: char) -> (r: Option<Key>)
        ensures
            final(self)@ == translate(old(self)@, c).0,
            r == translate(old(self)@, c).1,
    {
        match self.esc {
            EscapeState::Ground => {
                match c {
                    ' ' => Some(Key::Pause),
                    'q' => Some(Key::Exit),
                    'f' => Some(Key::Forward),
                    'b' => Some(Key::Backward),
                    'n' => Some(Key::Next),
                    'p' => Some(Key::Previous),
                    '\x1b' => {
                        self.esc = EscapeState::Escape;
                        None
                    },
                    _ => None,
                }
            },
            EscapeState::Escape => {
                if c == '[' {
                    self.esc = EscapeState::Bracket;
                } else {
                    self.esc = EscapeState::Ground;
                }
                None
            },
            EscapeState::Bracket => {
                self.esc = EscapeState::Ground;
                match c {
                    'C' => Some(Key::Forward),
                    'D' => Some(Key::Backward),
                    'A' => Some(Key::Next),
                    'B' => Some(Key::Previous),
                    _ => None,
                }
            },
        }
    }

    /// Report that the input stream has ended.  The translator falls back to
    /// its ground state and reports the command the dead stream stands for.
    pub fn end_of_input(&mut self) -> (r: Option<Key>)
        ensures
            final(self)@ == EscapeState::Ground,
            r == end_key(old(self)@),
    {
        let r = match self.esc {
            EscapeState::Ground => Some(Key::Exit),
            EscapeState::Escape => Some(Key::Exit),
            EscapeState::Bracket => None,
        };
        self.esc = EscapeState::Ground;
        r
    }
}

/// Every entry of the direct mapping table yields exactly its documented
/// command, and any other single character, the escape character aside,
/// yields no command and leaves the translator in its ground state.
pub proof fn lemma_direct_mapping(c: char)
    ensures
        translate(EscapeState::Ground, ' ').1 == Some(Key::Pause),
        translate(EscapeState::Ground, 'q').1 == Some(Key::Exit),
        translate(EscapeState::Ground, 'f').1 == Some(Key::Forward),
        translate(EscapeState::Ground, 'b').1 == Some(Key::Backward),
        translate(EscapeState::Ground, 'n').1 == Some(Key::Next),
        translate(EscapeState::Ground, 'p').1 == Some(Key::Previous),
        c != ' ' && c != 'q' && c != 'f' && c != 'b' && c != 'n' && c != 'p' && c != '\x1b'
            ==> translate(EscapeState::Ground, c) == (EscapeState::Ground, None::<Key>),
{
}

/// The four documented three-byte CSI sequences each yield exactly their
/// directional command; a sequence with the wrong introducer or terminator
/// yields no command; a stream that ends right after the escape character
/// yields `Exit`, and one that ends after the introducer discards the
/// sequence.
pub proof fn lemma_escape_sequences(b1: char, b2: char)
    ensures
        ({
            let s1 = translate(EscapeState::Ground, '\x1b');
            let s2 = translate(s1.0, b1);
            let s3 = translate(s2.0, b2);
            &&& s1.1 is None
            &&& end_key(s1.0) == Some(Key::Exit)
            &&& b1 == '[' ==> s2.1 is None && end_key(s2.0) is None
            &&& b1 == '[' && b2 == 'C' ==> s3.1 == Some(Key::Forward)
            &&& b1 == '[' && b2 == 'D' ==> s3.1 == Some(Key::Backward)
            &&& b1 == '[' && b2 == 'A' ==> s3.1 == Some(Key::Next)
            &&& b1 == '[' && b2 == 'B' ==> s3.1 == Some(Key::Previous)
            &&& b1 == '[' && b2 != 'C' && b2 != 'D' && b2 != 'A' && b2 != 'B' ==> s3.1 is None
            &&& b1 != '[' ==> s2.1 is None && s2.0 == EscapeState::Ground
        }),
{
}

} // verus!
