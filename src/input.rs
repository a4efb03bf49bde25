//! Decoding of raw control-surface messages into semantic events.

use vstd::prelude::*;

verus! {

/// A physical control of the surface: eight pads and eight knobs.
#[derive(Clone, Copy, Debug, PartialEq, Eq, Hash, Structural)]
pub enum Input {
    Pad1,
    Pad2,
    Pad3,
    Pad4,
    Pad5,
    Pad6,
    Pad7,
    Pad8,
    Knob1,
    Knob2,
    Knob3,
    Knob4,
    Knob5,
    Knob6,
    Knob7,
    Knob8,
}

/// Errors of the control-surface side.
#[derive(Clone, Copy, Debug, PartialEq, Eq, Structural)]
pub enum LPD8Error {
    /// No device with a matching port name was found.
    NotFound,
    /// Connecting to the device failed.
    MidiError,
    /// A raw control code that belongs to no known control.
    UnknownInput(u8),
}

/// A normalized control-surface event.
#[derive(Clone, Copy, Debug, PartialEq, Eq, Structural)]
pub enum Lpd8Message {
    /// A pad pressed in program-change mode.
    ProgramChange(Input),
    /// A control moved (or a pad pressed) in control-change mode, with its value.
    ControlChange(Input, u8),
}

/// The pad with zero-based number `k` (`0 <= k < 8`).
pub open spec fn pad(k: int) -> Input {
    if k == 0 {
        Input::Pad1
    } else if k == 1 {
        Input::Pad2
    } else if k == 2 {
        Input::Pad3
    } else if k == 3 {
        Input::Pad4
    } else if k == 4 {
        Input::Pad5
    } else if k == 5 {
        Input::Pad6
    } else if k == 6 {
        Input::Pad7
    } else {
        Input::Pad8
    }
}

/// The knob with zero-based number `k` (`0 <= k < 8`).
pub open spec fn knob(k: int) -> Input {
    if k == 0 {
        Input::Knob1
    } else if k == 1 {
        Input::Knob2
    } else if k == 2 {
        Input::Knob3
    } else if k == 3 {
        Input::Knob4
    } else if k == 4 {
        Input::Knob5
    } else if k == 5 {
        Input::Knob6
    } else if k == 6 {
        Input::Knob7
    } else {
        Input::Knob8
    }
}

/// The control that a raw code stands for. Pads send `0..=7` in one mode and
/// `12..=19` in the other; knobs send `70..=77`.
pub open spec fn input_of_code(code: u8) -> Option<Input> {
    if code <= 7 {
        Some(pad(code as int))
    } else if 12 <= code <= 19 {
        Some(pad(code - 12))
    } else if 70 <= code <= 77 {
        Some(knob(code - 70))
    } else {
        None
    }
}

impl Input {
    pub open spec fn is_pad(self) -> bool {
        self.spec_index() < 8
    }

    /// Position of the control among all sixteen: pads first, then knobs.
    pub open spec fn spec_index(self) -> u8 {
        match self {
            Input::Pad1 => 0,
            Input::Pad2 => 1,
            Input::Pad3 => 2,
            Input::Pad4 => 3,
            Input::Pad5 => 4,
            Input::Pad6 => 5,
            Input::Pad7 => 6,
            Input::Pad8 => 7,
            Input::Knob1 => 8,
            Input::Knob2 => 9,
            Input::Knob3 => 10,
            Input::Knob4 => 11,
            Input::Knob5 => 12,
            Input::Knob6 => 13,
            Input::Knob7 => 14,
            Input::Knob8 => 15,
        }
    }

    pub fn index(&self) -> (r: u8)
        ensures
            r == self.spec_index(),
            r < 16,
    {
        match self {
            Input::Pad1 => 0,
            Input::Pad2 => 1,
            Input::Pad3 => 2,
            Input::Pad4 => 3,
            Input::Pad5 => 4,
            Input::Pad6 => 5,
            Input::Pad7 => 6,
            Input::Pad8 => 7,
            Input::Knob1 => 8,
            Input::Knob2 => 9,
            Input::Knob3 => 10,
            Input::Knob4 => 11,
            Input::Knob5 => 12,
            Input::Knob6 => 13,
            Input::Knob7 => 14,
            Input::Knob8 => 15,
        }
    }

    /// Resolves a raw control code; a code of no known control is an error.
    pub fn try_from(value: u8) -> (r: Result<Input, LPD8Error>)
        ensures
            match input_of_code(value) {
                Some(i) => r == Ok::<Input, LPD8Error>(i),
                None => r == Err::<Input, LPD8Error>(LPD8Error::UnknownInput(value)),
            },
    {
        if value == 0 || value == 12 {
            Ok(Input::Pad1)
        } else if value == 1 || value == 13 {
            Ok(Input::Pad2)
        } else if value == 2 || value == 14 {
            Ok(Input::Pad3)
        } else if value == 3 || value == 15 {
            Ok(Input::Pad4)
        } else if value == 4 || value == 16 {
            Ok(Input::Pad5)
        } else if value == 5 || value == 17 {
            Ok(Input::Pad6)
        } else if value == 6 || value == 18 {
            Ok(Input::Pad7)
        } else if value == 7 || value == 19 {
            Ok(Input::Pad8)
        } else if value == 70 {
            Ok(Input::Knob1)
        } else if value == 71 {
            Ok(Input::Knob2)
        } else if value == 72 {
            Ok(Input::Knob3)
        } else if value == 73 {
            Ok(Input::Knob4)
        } else if value == 74 {
            Ok(Input::Knob5)
        } else if value == 75 {
            Ok(Input::Knob6)
        } else if value == 76 {
            Ok(Input::Knob7)
        } else if value == 77 {
            Ok(Input::Knob8)
        } else {
            Err(LPD8Error::UnknownInput(value))
        }
    }
}

/// A status byte that announces a program change: high nibble `0xC`.
pub open spec fn is_program_change_status(status: u8) -> bool {
    status >> 4 == 0xC
}

/// A status byte that announces a control change: high nibble `0xB`.
pub open spec fn is_control_change_status(status: u8) -> bool {
    status >> 4 == 0xB
}

/// The event that a raw message carries, if any: a two-byte program change
/// naming a known pad code, or a three-byte control change naming a known
/// control code with a value in `0..=127`.
pub open spec fn message_of(msg: Seq<u8>) -> Option<Lpd8Message> {
    if msg.len() == 0 {
        None
    } else if is_program_change_status(msg[0]) && msg.len() == 2 {
        match input_of_code(msg[1]) {
            Some(i) => Some(Lpd8Message::ProgramChange(i)),
            None => None,
        }
    } else if is_control_change_status(msg[0]) && msg.len() == 3 {
        match input_of_code(msg[1]) {
            Some(i) => if msg[2] <= 127 {
                Some(Lpd8Message::ControlChange(i, msg[2]))
            } else {
                None
            },
            None => None,
        }
    } else {
        None
    }
}

/// Decodes one raw message; any other shape, an unknown code or an
/// out-of-range value yields no event.
pub fn process_input(msg: &[u8]) -> (r: Option<Lpd8Message>)
    ensures
        r == message_of(msg@),
{
    if msg.len() == 0 {
        return None;
    }
    let status = msg[0];
    if status >> 4 == 0xC && msg.len() == 2 {
        program_change(msg[1])
    } else if status >> 4 == 0xB && msg.len() == 3 {
        control_change(msg[1], msg[2])
    } else {
        None
    }
}

/// The program-change event of a raw pad code, if the code is known.
pub fn program_change(num: u8) -> (r: Option<Lpd8Message>)
    ensures
        r == (match input_of_code(num) {
            Some(i) => Some(Lpd8Message::ProgramChange(i)),
            None => None,
        }),
{
    match Input::try_from(num) {
        Ok(i) => Some(Lpd8Message::ProgramChange(i)),
        Err(_) => None,
    }
}

/// The control-change event of a raw control code and value, if the code is
/// known and the value lies in `0..=127`.
pub fn control_change(num: u8, value: u8) -> (r: Option<Lpd8Message>)
    ensures
        r == (match input_of_code(num) {
            Some(i) => if value <= 127 {
                Some(Lpd8Message::ControlChange(i, value))
            } else {
                None
            },
            None => None,
        }),
{
    if value > 127 {
        return None;
    }
    match Input::try_from(num) {
        Ok(i) => Some(Lpd8Message::ControlChange(i, value)),
        Err(_) => None,
    }
}

/// Pad codes of the two modes alias: code `k` and code `k + 12` name the same
/// pad, for every `k` in `0..=7`.
pub proof fn lemma_pad_modes_alias(k: u8)
    requires
        k <= 7,
    ensures
        input_of_code(k) is Some,
        input_of_code(k) == input_of_code((k + 12) as u8),
        input_of_code(k).unwrap().is_pad(),
{
}

/// The knob codes `70..=77` name eight distinct controls, none of them a pad.
pub proof fn lemma_knob_codes_distinct(a: u8, b: u8)
    requires
        70 <= a <= 77,
        70 <= b <= 77,
    ensures
        input_of_code(a) is Some,
        !input_of_code(a).unwrap().is_pad(),
        a != b ==> input_of_code(a) != input_of_code(b),
        forall|p: u8| #[trigger] input_of_code(p) == input_of_code(a) ==> 70 <= p <= 77,
{
}

} // verus!
