//! The tool-server's verified core: the confirmation texts its tools hand
//! back to the assistant, and the canvas geometry for stitching the
//! captures of several monitors. Capturing and encoding the screenshots is
//! done outside the library.

use vstd::prelude::*;

verus! {

use vstd::string::StringExecFns;
use crate::text::dec_digits;
use crate::text::u64_to_string;

/// The duration an emotion is shown when the caller gives none.
pub const DEFAULT_EMOTION_DURATION_MS: u32 = 5000;

/// The confirmation text of the set-emotion tool.
pub fn set_emotion_text(emotion: &str, duration_ms: Option<u32>) -> (r: String)
    ensures
        r@ == "Emotion set to '"@ + emotion@ + "' for "@ + dec_digits(
            (match duration_ms {
                Some(d) => d,
                None => DEFAULT_EMOTION_DURATION_MS,
            }) as nat,
        ) + "ms. The mascot is now expressing this emotion."@,
{
    let duration: u32 = match duration_ms {
        Some(d) => d,
        None => DEFAULT_EMOTION_DURATION_MS,
    };
    let mut m = String::from_str("Emotion set to '");
    m.append(emotion);
    m.append("' for ");
    m.append(u64_to_string(duration as u64).as_str());
    m.append("ms. The mascot is now expressing this emotion.");
    proof {
        assert(m@ =~= "Emotion set to '"@ + emotion@ + "' for "@ + dec_digits(duration as nat)
            + "ms. The mascot is now expressing this emotion."@);
    }
    m
}

/// The confirmation text of the move-to tool.
pub fn move_to_text(target: &str) -> (r: String)
    ensures
        r@ == "Moving mascot to: "@ + target@
            + ". The mascot is now walking to this position."@,
{
    let mut m = String::from_str("Moving mascot to: ");
    m.append(target);
    m.append(". The mascot is now walking to this position.");
    proof {
        assert(m@ =~= "Moving mascot to: "@ + target@
            + ". The mascot is now walking to this position."@);
    }
    m
}

/// The text accompanying a captured screenshot.
pub fn capture_screenshot_text(monitor_count: u64, description: Option<&String>) -> (r: String)
    ensures
        r@ == "Screenshot captured from "@ + dec_digits(monitor_count as nat)
            + " monitor(s) (looking for: "@ + (match description {
            Some(d) => d@,
            None => "general view"@,
        }) + "). Here is what I can see on your screen:"@,
{
    let mut m = String::from_str("Screenshot captured from ");
    m.append(u64_to_string(monitor_count).as_str());
    m.append(" monitor(s) (looking for: ");
    match description {
        Some(d) => m.append(d.as_str()),
        None => m.append("general view"),
    }
    m.append("). Here is what I can see on your screen:");
    proof {
        assert(m@ =~= "Screenshot captured from "@ + dec_digits(monitor_count as nat)
            + " monitor(s) (looking for: "@ + (match description {
            Some(d) => d@,
            None => "general view"@,
        }) + "). Here is what I can see on your screen:"@);
    }
    m
}

/// The bounding canvas of a set of monitor rectangles, each given as its
/// position and size: the least position in each axis, and the extent that
/// reaches the furthest edge. Nothing for an empty set.
pub fn canvas_bounds(rects: &Vec<(i64, i64, i64, i64)>) -> (r: Option<(i64, i64, i64, i64)>)
    requires
        forall|i: int|
            0 <= i < rects@.len() ==> {
                let rc = #[trigger] rects@[i];
                -0x4000_0000_0000 <= rc.0 <= 0x4000_0000_0000 && -0x4000_0000_0000 <= rc.1
                    <= 0x4000_0000_0000 && 0 <= rc.2 <= 0x4000_0000_0000 && 0 <= rc.3
                    <= 0x4000_0000_0000
            },
    ensures
        match r {
            Some(b) => rects@.len() > 0 && (forall|i: int|
                0 <= i < rects@.len() ==> {
                    let rc = #[trigger] rects@[i];
                    b.0 <= rc.0 && b.1 <= rc.1 && rc.0 + rc.2 <= b.0 + b.2 && rc.1 + rc.3 <= b.1
                        + b.3
                }) && (exists|i: int|
                0 <= i < rects@.len() && #[trigger] rects@[i].0 == b.0) && (exists|i: int|
                0 <= i < rects@.len() && #[trigger] rects@[i].1 == b.1) && (exists|i: int|
                0 <= i < rects@.len() && rects@[i].0 + rects@[i].2 == b.0 + b.2) && (exists|
                i: int,
            |
                0 <= i < rects@.len() && rects@[i].1 + rects@[i].3 == b.1 + b.3),
            None => rects@.len() == 0,
        },
{
    let n: usize = rects.len();
    if n == 0 {
        return None;
    }
    let first = rects[0];
    let mut min_x: i64 = first.0;
    let mut min_y: i64 = first.1;
    let mut max_x: i64 = first.0 + first.2;
    let mut max_y: i64 = first.1 + first.3;
    let mut i: usize = 1;
    while i < n
        invariant
            n == rects@.len(),
            1 <= i <= n,
            forall|t: int|
                0 <= t < rects@.len() ==> {
                    let rc = #[trigger] rects@[t];
                    -0x4000_0000_0000 <= rc.0 <= 0x4000_0000_0000 && -0x4000_0000_0000 <= rc.1
                        <= 0x4000_0000_0000 && 0 <= rc.2 <= 0x4000_0000_0000 && 0 <= rc.3
                        <= 0x4000_0000_0000
                },
            forall|t: int|
                0 <= t < i ==> {
                    let rc = #[trigger] rects@[t];
                    min_x <= rc.0 && min_y <= rc.1 && rc.0 + rc.2 <= max_x && rc.1 + rc.3 <= max_y
                },
            exists|t: int| 0 <= t < i && #[trigger] rects@[t].0 == min_x,
            exists|t: int| 0 <= t < i && #[trigger] rects@[t].1 == min_y,
            exists|t: int| 0 <= t < i && rects@[t].0 + rects@[t].2 == max_x,
            exists|t: int| 0 <= t < i && rects@[t].1 + rects@[t].3 == max_y,
            -0x4000_0000_0000 <= min_x <= 0x4000_0000_0000,
            -0x4000_0000_0000 <= min_y <= 0x4000_0000_0000,
            -0x4000_0000_0000 <= max_x <= 0x8000_0000_0000,
            -0x4000_0000_0000 <= max_y <= 0x8000_0000_0000,
        decreases n - i,
    {
        let rc = rects[i];
        if rc.0 < min_x {
            min_x = rc.0;
        }
        if rc.1 < min_y {
            min_y = rc.1;
        }
        let right: i64 = rc.0 + rc.2;
        if right > max_x {
            max_x = right;
        }
        let bottom: i64 = rc.1 + rc.3;
        if bottom > max_y {
            max_y = bottom;
        }
        i = i + 1;
    }
    Some((min_x, min_y, max_x - min_x, max_y - min_y))
}

} // verus!
