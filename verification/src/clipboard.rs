//! The pieces of the macOS clipboard copy that are computation.

use vstd::prelude::*;
use crate::clock::{format_time, local_now, timestamp_millis_shape};

verus! {

/// `/tmp/capdrop_clip_<stamp>.png`: where the image is staged for the copy.
pub open spec fn clip_path_spec(stamp: Seq<char>) -> Seq<char> {
    "/tmp/capdrop_clip_"@ + stamp + ".png"@
}

/// A fresh temporary file for staging a clipboard image, stamped with the
/// local time down to the millisecond (`%Y%m%d_%H%M%S_%3f`).
pub fn clipboard_temp_path() -> (p: String)
    ensures
        exists|stamp: Seq<char>| timestamp_millis_shape(stamp) && p@ == clip_path_spec(stamp),
{
    let now = local_now();
    let stamp = format_time(&now, "%Y%m%d_%H%M%S_%3f");
    let mut p = String::from_str("/tmp/capdrop_clip_");
    p.append(stamp.as_str());
    p.append(".png");
    assert(p@ == clip_path_spec(stamp@));
    p
}

/// The AppleScript that puts the PNG file at `tmp_path` on the clipboard.
pub open spec fn clipboard_script_spec(tmp_path: Seq<char>) -> Seq<char> {
    "set the clipboard to (read (POSIX file \""@ + tmp_path + "\") as \u{ab}class PNGf\u{bb})"@
}

/// Builds the AppleScript that copies the PNG file at `tmp_path` to the clipboard.
pub fn clipboard_script(tmp_path: &str) -> (s: String)
    ensures
        s@ == clipboard_script_spec(tmp_path@),
{
    let mut s = String::from_str("set the clipboard to (read (POSIX file \"");
    s.append(tmp_path);
    s.append("\") as \u{ab}class PNGf\u{bb})");
    s
}

} // verus!
