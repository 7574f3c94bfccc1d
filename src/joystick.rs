//! Classification of raw joystick samples into directional events.
use vstd::prelude::*;
use crate::common::Direction;

verus! {

/// One joystick reading, recentred and scaled.
#[derive(Clone, Copy, Debug, PartialEq, Eq, Structural)]
pub struct JoyStickSignal {
    /// Horizontal magnitude: negative is left, positive is right.
    pub horiz: i8,
    /// Vertical magnitude: negative is down, positive is up.
    pub vert: i8,
    /// Whether the button is pressed.
    pub button: bool,
}

/// An event read from an input device.
#[derive(Clone, Copy, Debug, PartialEq, Eq, Structural)]
pub enum InputSignal {
    JoyStick(JoyStickSignal),
}

/// The absolute value of `m`.
pub open spec fn magnitude(m: int) -> int {
    if m < 0 { -m } else { m }
}

/// Whether an axis magnitude counts as deliberate input: strictly beyond the
/// threshold, on either side.
pub open spec fn beyond_threshold(m: int) -> bool {
    magnitude(m) > JoyStick::THRESHOLD
}

/// A raw 10-bit axis sample recentred around `JoyStick::CENTER` and divided
/// by 4, rounding towards zero.
pub open spec fn axis_value(raw: u16) -> int {
    if raw >= 512 {
        (raw - 512) / 4
    } else {
        -((512 - raw) / 4)
    }
}

/// The event, if any, that one sample of the two axes and the button gives.
pub open spec fn spec_classify(x: u16, y: u16, pressed: bool) -> Option<InputSignal> {
    if pressed || beyond_threshold(axis_value(x)) || beyond_threshold(axis_value(y)) {
        Some(
            InputSignal::JoyStick(
                JoyStickSignal { horiz: axis_value(x) as i8, vert: axis_value(y) as i8, button: pressed },
            ),
        )
    } else {
        None
    }
}

impl JoyStickSignal {
    /// The one direction this signal points in, if any. The axis with the
    /// larger magnitude decides; when the magnitudes are equal the vertical
    /// axis decides. An axis must be strictly beyond the threshold.
    pub open spec fn spec_single_direction(self) -> Option<Direction> {
        let h = self.horiz as int;
        let v = self.vert as int;
        if magnitude(h) > magnitude(v) && h < -JoyStick::THRESHOLD {
            Some(Direction::Left)
        } else if magnitude(h) > magnitude(v) && h > JoyStick::THRESHOLD {
            Some(Direction::Right)
        } else if v < -JoyStick::THRESHOLD {
            Some(Direction::Down)
        } else if v > JoyStick::THRESHOLD {
            Some(Direction::Up)
        } else {
            None
        }
    }

    /// Converts the signal into a single direction, or `None` when no axis
    /// is beyond the threshold.
    pub fn to_single_direction(self) -> (r: Option<Direction>)
        ensures
            r == self.spec_single_direction(),
    {
        let h = self.horiz as i16;
        let v = self.vert as i16;
        let h_abs: i16 = if h < 0 { -h } else { h };
        let v_abs: i16 = if v < 0 { -v } else { v };
        let threshold = JoyStick::THRESHOLD as i16;
        if h_abs > v_abs {
            if h < -threshold {
                return Some(Direction::Left);
            } else if h > threshold {
                return Some(Direction::Right);
            }
        }
        if v < -threshold {
            Some(Direction::Down)
        } else if v > threshold {
            Some(Direction::Up)
        } else {
            None
        }
    }
}

/// The two-axis joystick with a push button, read through a 10-bit
/// analog-to-digital converter.
pub struct JoyStick {}

impl JoyStick {
    /// The raw reading of an axis at rest.
    pub const CENTER: u16 = 512;
    /// The magnitude an axis must exceed to count as deliberate input.
    pub const THRESHOLD: i8 = 50;

    /// Scales one raw axis sample.
    fn axis(raw: u16) -> (r: i8)
        requires
            raw < 1024,
        ensures
            r as int == axis_value(raw),
    {
        if raw >= Self::CENTER {
            ((raw - Self::CENTER) / 4) as i8
        } else {
            (-(((Self::CENTER - raw) / 4) as i16)) as i8
        }
    }

    /// Classifies one sample: the 10-bit readings `x` and `y` of the two axes
    /// and whether the button is pressed. There is an event when the button is
    /// pressed or an axis is strictly beyond the threshold; otherwise `None`.
    pub fn classify(x: u16, y: u16, pressed: bool) -> (r: Option<InputSignal>)
        requires
            x < 1024,
            y < 1024,
        ensures
            r == spec_classify(x, y, pressed),
    {
        let signal = JoyStickSignal { horiz: Self::axis(x), vert: Self::axis(y), button: pressed };
        let h = signal.horiz as i16;
        let v = signal.vert as i16;
        let threshold = Self::THRESHOLD as i16;
        if signal.button || h > threshold || h < -threshold || v > threshold || v < -threshold {
            Some(InputSignal::JoyStick(signal))
        } else {
            None
        }
    }
}

/// The classifier's debounce: with the button released and both axes within
/// the threshold (at it included) there is no event; with the button pressed
/// there is always one, carrying the pressed button, whatever the axes read.
/// A signal within the threshold on both axes points in no direction.
pub proof fn lemma_classifier(x: u16, y: u16, pressed: bool)
    requires
        x < 1024,
        y < 1024,
    ensures
        !pressed && magnitude(axis_value(x)) <= JoyStick::THRESHOLD && magnitude(axis_value(y))
            <= JoyStick::THRESHOLD ==> spec_classify(x, y, pressed) is None,
        pressed ==> spec_classify(x, y, pressed) == Some(
            InputSignal::JoyStick(
                (JoyStickSignal { horiz: axis_value(x) as i8, vert: axis_value(y) as i8, button: true }),
            ),
        ),
        forall|s: JoyStickSignal|
            magnitude(s.horiz as int) <= JoyStick::THRESHOLD && magnitude(s.vert as int)
                <= JoyStick::THRESHOLD ==> #[trigger] s.spec_single_direction() is None,
{
}

} // verus!
