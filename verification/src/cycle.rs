//! The decisions of the synchronisation loop.
//!
//! The loop alternates between two pieces of outside work: asking the frame
//! source for a frame, and sending a command to the light. What to do next
//! is decided here, from the outcome of the work just done: the caller
//! performs what the returned stage asks for and reports back. Extraction
//! and conversion need nothing from outside; they happen within the step
//! from a captured frame to the command.

use crate::convert::{brightness_percent, hue_degrees, rgb_to_hsv, saturation_percent};
use crate::extract::{dominant_color, dominant_of};
use crate::frame::{pixels_of_bytes, Frame, Rgb};
use vstd::prelude::*;

verus! {

/// The wait before the first capture, in milliseconds.
pub const STARTUP_DELAY_MS: u64 = 100;

/// The wait before asking again when the frame source was not ready, in
/// milliseconds.
pub const RETRY_DELAY_MS: u64 = 50;

/// What the light is commanded with: hue in degrees, saturation and
/// brightness in percent.
#[derive(Clone, Copy, Debug, PartialEq, Eq, Structural)]
pub struct Command {
    pub hue: u16,
    pub saturation: u8,
    pub brightness: u8,
}

/// Why the loop stopped.
#[derive(Clone, Copy, Debug, PartialEq, Eq, Structural)]
pub enum Failure {
    /// The frame source failed for good.
    Capture,
    /// The buffer does not hold three bytes for each pixel.
    MalformedFrame,
    /// The light did not take the command.
    Actuator,
}

/// What the frame source answered.
pub enum CaptureOutcome {
    /// A frame: its dimensions and its packed RGB bytes.
    Ready { width: u32, height: u32, data: Vec<u8> },
    /// No frame yet; this is expected and no error.
    NotReady,
    /// A failure that asking again will not mend.
    Failed,
}

/// What the caller is to do next.
#[derive(Clone, Copy, Debug, PartialEq, Eq, Structural)]
pub enum Stage {
    /// Wait for `delay_ms` milliseconds, then ask for a frame and report
    /// with `after_capture`.
    AcquireFrame { delay_ms: u64 },
    /// Send `command` to the light and report with `after_actuation`;
    /// `color` is the dominant colour that it was derived from.
    Actuate { color: Rgb, command: Command },
    /// Stop.
    Halted(Failure),
}

/// The command for a colour.
pub open spec fn command_of(c: Rgb) -> Command {
    Command {
        hue: hue_degrees(c.r, c.g, c.b) as u16,
        saturation: saturation_percent(c.r, c.g, c.b) as u8,
        brightness: brightness_percent(c.r, c.g, c.b) as u8,
    }
}

/// The stage that follows a capture:
/// after a frame whose buffer fits its dimensions, the command for its
/// dominant colour is to be sent; after any other buffer the loop stops;
/// when the source was not ready, it is asked again after the retry delay;
/// when it failed, the loop stops.
pub open spec fn stage_after_capture(outcome: CaptureOutcome) -> Stage {
    match outcome {
        CaptureOutcome::Ready { width, height, data } => {
            if data@.len() == 3 * (width * height) {
                let color = dominant_of(pixels_of_bytes(data@));
                Stage::Actuate { color, command: command_of(color) }
            } else {
                Stage::Halted(Failure::MalformedFrame)
            }
        },
        CaptureOutcome::NotReady => Stage::AcquireFrame { delay_ms: RETRY_DELAY_MS },
        CaptureOutcome::Failed => Stage::Halted(Failure::Capture),
    }
}

/// The stage that follows an attempt to command the light: the next frame
/// at once when it was applied, a stop when it was not. Nothing is tried
/// twice.
pub open spec fn stage_after_actuation(applied: bool) -> Stage {
    if applied {
        Stage::AcquireFrame { delay_ms: 0 }
    } else {
        Stage::Halted(Failure::Actuator)
    }
}

/// The stage that the loop starts in: the first capture, after the startup
/// delay.
pub fn start() -> (first: Stage)
    ensures
        first == (Stage::AcquireFrame { delay_ms: STARTUP_DELAY_MS }),
{
    Stage::AcquireFrame { delay_ms: STARTUP_DELAY_MS }
}

/// The command that the light gets for a colour.
pub fn command_for(color: Rgb) -> (command: Command)
    ensures
        command == command_of(color),
{
    let (hue, saturation, brightness) = rgb_to_hsv(color.r, color.g, color.b);
    Command { hue, saturation, brightness }
}

/// Decides what follows a capture.
pub fn after_capture(outcome: CaptureOutcome) -> (next: Stage)
    ensures
        next == stage_after_capture(outcome),
{
    match outcome {
        CaptureOutcome::Ready { width, height, data } => {
            match Frame::from_raw(width, height, data) {
                Some(frame) => {
                    let color = dominant_color(&frame);
                    Stage::Actuate { color, command: command_for(color) }
                },
                None => Stage::Halted(Failure::MalformedFrame),
            }
        },
        CaptureOutcome::NotReady => Stage::AcquireFrame { delay_ms: RETRY_DELAY_MS },
        CaptureOutcome::Failed => Stage::Halted(Failure::Capture),
    }
}

/// Decides what follows an attempt to command the light.
pub fn after_actuation(applied: bool) -> (next: Stage)
    ensures
        next == stage_after_actuation(applied),
{
    if applied {
        Stage::AcquireFrame { delay_ms: 0 }
    } else {
        Stage::Halted(Failure::Actuator)
    }
}

} // verus!
