//! The frames of the spinner that shows that work goes on. Drawing them
//! in time is the caller's part.

use crate::text::{join4};
use vstd::prelude::*;
use vstd::string::*;

verus! {

/// The number of frames.
pub const FRAME_COUNT: usize = 10;

/// The time between two frames, in milliseconds.
pub const FRAME_MS: u64 = 80;

/// The frame that is shown at the given step.
pub open spec fn frame_text(step: int) -> Seq<char> {
    let k = step % 10;
    if k == 0 {
        "\u{280B}"@
    } else if k == 1 {
        "\u{2819}"@
    } else if k == 2 {
        "\u{2839}"@
    } else if k == 3 {
        "\u{2838}"@
    } else if k == 4 {
        "\u{283C}"@
    } else if k == 5 {
        "\u{2834}"@
    } else if k == 6 {
        "\u{2826}"@
    } else if k == 7 {
        "\u{2827}"@
    } else if k == 8 {
        "\u{2807}"@
    } else {
        "\u{280F}"@
    }
}

/// The frame that is shown at the given step: the frames come round
/// again after the last.
pub fn frame(step: usize) -> (f: &'static str)
    ensures
        f@ == frame_text(step as int),
{
    let k: usize = step % FRAME_COUNT;
    if k == 0 {
        "\u{280B}"
    } else if k == 1 {
        "\u{2819}"
    } else if k == 2 {
        "\u{2839}"
    } else if k == 3 {
        "\u{2838}"
    } else if k == 4 {
        "\u{283C}"
    } else if k == 5 {
        "\u{2834}"
    } else if k == 6 {
        "\u{2826}"
    } else if k == 7 {
        "\u{2827}"
    } else if k == 8 {
        "\u{2807}"
    } else {
        "\u{280F}"
    }
}

/// The line that the spinner draws at the given step: back to the start
/// of the line, two spaces, the frame, a space and the message.
pub fn frame_line(step: usize, message: &str) -> (line: String)
    ensures
        line@ == "\r  "@ + frame_text(step as int) + " "@ + message@,
{
    join4("\r  ", frame(step), " ", message)
}

} // verus!
