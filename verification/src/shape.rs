//! The selectors of the engine: waveform shape and output polarity.

use vstd::prelude::*;
use crate::fixed::HALF;

verus! {

/// The waveform that an oscillator renders.
#[derive(Clone, Copy, Debug, PartialEq, Eq, Structural)]
pub enum LfoShape {
    Sine,
    Triangle,
    SawUp,
    SawDown,
    Rectangle,
    SampleAndHold,
    Random,
    CurvedRandom,
    Noise,
}

/// The polarity convention of an oscillator's output.
#[derive(Clone, Copy, Debug, PartialEq, Eq, Structural)]
pub enum LfoOutputMode {
    Bipolar,
    UnipolarPositive,
    UnipolarNegative,
}

/// The shape that a control value selects, for the values 1 to 9.
pub open spec fn shape_of_code(code: int) -> Option<LfoShape> {
    if code == 1 {
        Some(LfoShape::Sine)
    } else if code == 2 {
        Some(LfoShape::Triangle)
    } else if code == 3 {
        Some(LfoShape::SawUp)
    } else if code == 4 {
        Some(LfoShape::SawDown)
    } else if code == 5 {
        Some(LfoShape::Rectangle)
    } else if code == 6 {
        Some(LfoShape::SampleAndHold)
    } else if code == 7 {
        Some(LfoShape::Random)
    } else if code == 8 {
        Some(LfoShape::CurvedRandom)
    } else if code == 9 {
        Some(LfoShape::Noise)
    } else {
        None
    }
}

/// The polarity that a control value selects, for the values 1 to 3.
pub open spec fn mode_of_code(code: int) -> Option<LfoOutputMode> {
    if code == 1 {
        Some(LfoOutputMode::Bipolar)
    } else if code == 2 {
        Some(LfoOutputMode::UnipolarPositive)
    } else if code == 3 {
        Some(LfoOutputMode::UnipolarNegative)
    } else {
        None
    }
}

impl LfoShape {
    /// The shape selected by `code`, or `None` where `code` selects none.
    pub fn from_code(code: u8) -> (shape: Option<LfoShape>)
        ensures
            shape == shape_of_code(code as int),
            shape is Some <==> 1 <= code <= 9,
    {
        match code {
            1 => Some(LfoShape::Sine),
            2 => Some(LfoShape::Triangle),
            3 => Some(LfoShape::SawUp),
            4 => Some(LfoShape::SawDown),
            5 => Some(LfoShape::Rectangle),
            6 => Some(LfoShape::SampleAndHold),
            7 => Some(LfoShape::Random),
            8 => Some(LfoShape::CurvedRandom),
            9 => Some(LfoShape::Noise),
            _ => None,
        }
    }

    /// The shape draws its level at random and holds it over a cycle.
    pub open spec fn holds_level(self) -> bool {
        self is SampleAndHold || self is Random || self is CurvedRandom
    }
}

impl LfoOutputMode {
    /// The polarity selected by `code`, or `None` where `code` selects none.
    pub fn from_code(code: u8) -> (mode: Option<LfoOutputMode>)
        ensures
            mode == mode_of_code(code as int),
            mode is Some <==> 1 <= code <= 3,
    {
        match code {
            1 => Some(LfoOutputMode::Bipolar),
            2 => Some(LfoOutputMode::UnipolarPositive),
            3 => Some(LfoOutputMode::UnipolarNegative),
            _ => None,
        }
    }

    /// The level at which an oscillator of this polarity rests: the middle
    /// of the range for a bipolar output, the bottom for a unipolar one.
    pub open spec fn neutral(self) -> int {
        if self is Bipolar {
            HALF as int
        } else {
            0
        }
    }

    /// Computes [`LfoOutputMode::neutral`].
    pub fn rest_level(self) -> (level: i64)
        ensures
            level == self.neutral(),
    {
        match self {
            LfoOutputMode::Bipolar => HALF,
            _ => 0,
        }
    }
}

} // verus!
