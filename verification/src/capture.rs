//! Screenshots and the pieces of screen capture that are computation: the
//! `screencapture` command line, decoding captured PNG data, Base64 transport
//! and pixel-order conversion.

use vstd::prelude::*;
use crate::clock::{format_time, local_now, timestamp_millis_shape};
use crate::codec::{
    base64_decode, base64_decoding, base64_encode, base64_encoding, crop_size, crop_to_png,
    cropped_png, decoded_image_size, image_size, law_base64_round_trip, png_from_rgba,
    rgba_fits, rgba_png,
};
use crate::text::{decimal, decimal_text};

verus! {

/// A captured screen image: PNG bytes and the image's size in pixels.
pub struct Screenshot {
    pub data: Vec<u8>,
    pub width: u32,
    pub height: u32,
}

/// Capture on macOS, through the `screencapture` tool.
pub struct MacCaptureEngine;

impl MacCaptureEngine {
    pub fn new() -> (e: Self)
        ensures
            e == MacCaptureEngine,
    {
        MacCaptureEngine
    }
}

/// Capture on Windows, through GDI.
pub struct WindowsCaptureEngine;

impl WindowsCaptureEngine {
    pub fn new() -> (e: Self)
        ensures
            e == WindowsCaptureEngine,
    {
        WindowsCaptureEngine
    }
}

/// `e` is `prefix` followed by some further text.
pub open spec fn starts_with(e: Seq<char>, prefix: Seq<char>) -> bool {
    prefix.len() <= e.len() && e.take(prefix.len() as int) == prefix
}

/// Decodes captured PNG bytes into a screenshot of the decoded size; when the
/// bytes do not decode, the error message starts with `error_prefix`.
pub fn decode_screenshot(data: Vec<u8>, error_prefix: &str) -> (r: Result<Screenshot, String>)
    ensures
        match image_size(data@) {
            Some((w, h)) => r matches Ok(s) && s.data@ == data@ && s.width == w && s.height == h,
            None => r matches Err(e) && starts_with(e@, error_prefix@),
        },
{
    match decoded_image_size(data.as_slice()) {
        Ok((w, h)) => Ok(Screenshot { data, width: w, height: h }),
        Err(e) => {
            let mut msg = String::from_str(error_prefix);
            let detail = e.to_string();
            msg.append(detail.as_str());
            assert(msg@.take(error_prefix@.len() as int) =~= error_prefix@);
            Err(msg)
        },
    }
}

/// The Base64 text of a screenshot's PNG bytes, as the capture commands hand
/// it to the front end. Decoding it gives the bytes back.
pub fn encode_screenshot(shot: &Screenshot) -> (s: String)
    requires
        shot.data@.len() <= usize::MAX / 2,
    ensures
        s@ == base64_encoding(shot.data@),
        base64_decoding(s@) == Some(shot.data@),
{
    let s = base64_encode(shot.data.as_slice());
    proof {
        law_base64_round_trip(shot.data@);
    }
    s
}

/// Decodes Base64 PNG text from the front end; a malformed text gives
/// `Base64 decode error: <detail>`.
pub fn decode_png_base64(image_b64: &str) -> (r: Result<Vec<u8>, String>)
    ensures
        match base64_decoding(image_b64@) {
            Some(bytes) => r matches Ok(v) && v@ == bytes,
            None => r matches Err(e) && starts_with(e@, "Base64 decode error: "@),
        },
{
    match base64_decode(image_b64) {
        Ok(v) => Ok(v),
        Err(e) => {
            let mut msg = String::from_str("Base64 decode error: ");
            let detail = e.to_string();
            msg.append(detail.as_str());
            assert(msg@.take("Base64 decode error: "@.len() as int) =~= "Base64 decode error: "@);
            Err(msg)
        },
    }
}

/// Turns Base64 PNG text from the front end into a screenshot: decode the
/// text, then the image; each failure has its own message prefix.
pub fn screenshot_from_base64(image_b64: &str) -> (r: Result<Screenshot, String>)
    ensures
        match base64_decoding(image_b64@) {
            None => r matches Err(e) && starts_with(e@, "Base64 decode error: "@),
            Some(bytes) => match image_size(bytes) {
                Some((w, h)) => r matches Ok(s) && s.data@ == bytes && s.width == w && s.height
                    == h,
                None => r matches Err(e) && starts_with(e@, "Image decode error: "@),
            },
        },
{
    let data = decode_png_base64(image_b64)?;
    decode_screenshot(data, "Image decode error: ")
}

/// The `x,y,w,h` rectangle argument of `screencapture -R`.
pub open spec fn rect_spec(x: u32, y: u32, w: u32, h: u32) -> Seq<char> {
    decimal(x as nat) + seq![','] + decimal(y as nat) + seq![','] + decimal(w as nat) + seq![',']
        + decimal(h as nat)
}

/// The region argument `x,y,w,h` for a capture of that rectangle.
pub fn region_rect(x: u32, y: u32, w: u32, h: u32) -> (s: String)
    ensures
        s@ == rect_spec(x, y, w, h),
{
    let mut s = decimal_text(x);
    s.append(",");
    let t = decimal_text(y);
    s.append(t.as_str());
    s.append(",");
    let t = decimal_text(w);
    s.append(t.as_str());
    s.append(",");
    let t = decimal_text(h);
    s.append(t.as_str());
    proof {
        reveal_strlit(",");
    }
    assert(s@ =~= rect_spec(x, y, w, h));
    s
}

/// The arguments of `screencapture`: silent (`-x`), PNG output, the region
/// when there is one, then the output file.
pub open spec fn screencapture_args_spec(rect: Option<Seq<char>>, out: Seq<char>) -> Seq<
    Seq<char>,
> {
    let head = seq!["-x"@, "-t"@, "png"@];
    match rect {
        Some(r) => head + seq!["-R"@, r, out],
        None => head + seq![out],
    }
}

/// The string views of a sequence of strings.
pub open spec fn string_views(v: Seq<String>) -> Seq<Seq<char>> {
    v.map_values(|s: String| s@)
}

/// The argument list of `screencapture` for a capture into `out_path`.
pub fn screencapture_args(rect: Option<&str>, out_path: &str) -> (args: Vec<String>)
    ensures
        string_views(args@) == screencapture_args_spec(
            match rect {
                Some(r) => Some(r@),
                None => None,
            },
            out_path@,
        ),
{
    let mut args: Vec<String> = Vec::new();
    args.push(String::from_str("-x"));
    args.push(String::from_str("-t"));
    args.push(String::from_str("png"));
    match rect {
        Some(r) => {
            args.push(String::from_str("-R"));
            args.push(String::from_str(r));
        },
        None => {},
    }
    args.push(String::from_str(out_path));
    assert(string_views(args@) =~= screencapture_args_spec(
        match rect {
            Some(r) => Some(r@),
            None => None,
        },
        out_path@,
    ));
    args
}

/// `/tmp/capdrop_<stamp>.png`: where a capture is written before it is read.
pub open spec fn capture_path_spec(stamp: Seq<char>) -> Seq<char> {
    "/tmp/capdrop_"@ + stamp + ".png"@
}

/// A fresh temporary file name for a capture, stamped with the local time
/// down to the millisecond (`%Y%m%d_%H%M%S_%3f`).
pub fn capture_temp_path() -> (p: String)
    ensures
        exists|stamp: Seq<char>| timestamp_millis_shape(stamp) && p@ == capture_path_spec(stamp),
{
    let now = local_now();
    let stamp = format_time(&now, "%Y%m%d_%H%M%S_%3f");
    let mut p = String::from_str("/tmp/capdrop_");
    p.append(stamp.as_str());
    p.append(".png");
    assert(p@ == capture_path_spec(stamp@));
    p
}

/// The BGRA pixel rows that GDI delivers, as RGBA: in every complete 4-byte
/// pixel the first and third bytes trade places; a trailing partial pixel is
/// left alone.
pub open spec fn bgra_swapped(b: Seq<u8>) -> Seq<u8> {
    Seq::new(
        b.len(),
        |i: int|
            if i < b.len() - b.len() % 4 && i % 4 == 0 {
                b[i + 2]
            } else if i < b.len() - b.len() % 4 && i % 4 == 2 {
                b[i - 2]
            } else {
                b[i]
            },
    )
}

/// Converts BGRA pixel data to RGBA in place.
pub fn bgra_to_rgba(pixels: &mut Vec<u8>)
    ensures
        final(pixels)@ == bgra_swapped(old(pixels)@),
{
    let n = pixels.len();
    let whole = n - n % 4;
    let ghost orig = pixels@;
    let mut i: usize = 0;
    while i < whole
        invariant
            n == orig.len(),
            whole == n - n % 4,
            pixels@.len() == n,
            i <= whole,
            i % 4 == 0,
            forall|k: int| 0 <= k < i ==> pixels@[k] == bgra_swapped(orig)[k],
            forall|k: int| i <= k < n ==> pixels@[k] == orig[k],
        decreases whole - i,
    {
        let b = pixels[i];
        let r = pixels[i + 2];
        pixels.set(i, r);
        pixels.set(i + 2, b);
        i = i + 4;
    }
    assert(pixels@ =~= bgra_swapped(orig));
}

/// Converting pixel order twice gives the same bytes back: the
/// conversion between BGRA and RGBA is its own inverse.
pub proof fn law_bgra_swap_undoes_itself(b: Seq<u8>)
    ensures
        bgra_swapped(bgra_swapped(b)) == b,
{
    assert(bgra_swapped(bgra_swapped(b)) =~= b);
}

/// Cuts the region at `(x, y)` of size `w` by `h` out of a captured
/// screenshot, clamped to the screenshot, and encodes it as PNG.
pub fn crop_screenshot(full: &Screenshot, x: u32, y: u32, w: u32, h: u32) -> (r: Result<
    Screenshot,
    String,
>)
    ensures
        match image_size(full.data@) {
            None => r matches Err(e) && starts_with(e@, "Decode for crop: "@),
            Some((iw, ih)) => match cropped_png(full.data@, x, y, w, h) {
                None => r matches Err(e) && starts_with(e@, "PNG encode crop: "@),
                Some(png) => r matches Ok(s) && s.data@ == png && (s.width, s.height)
                    == crop_size(iw, ih, x, y, w, h),
            },
        },
{
    match decoded_image_size(full.data.as_slice()) {
        Err(e) => {
            let mut msg = String::from_str("Decode for crop: ");
            let detail = e.to_string();
            msg.append(detail.as_str());
            assert(msg@.take("Decode for crop: "@.len() as int) =~= "Decode for crop: "@);
            Err(msg)
        },
        Ok(_) => match crop_to_png(full.data.as_slice(), x, y, w, h) {
            Err(e) => {
                let mut msg = String::from_str("PNG encode crop: ");
                let detail = e.to_string();
                msg.append(detail.as_str());
                assert(msg@.take("PNG encode crop: "@.len() as int) =~= "PNG encode crop: "@);
                Err(msg)
            },
            Ok((png, cw, ch)) => Ok(Screenshot { data: png, width: cw, height: ch }),
        },
    }
}

/// Encodes `w` by `h` RGBA pixel bytes as PNG: a buffer that image cannot
/// take as such an image (fewer than `4 * w * h` bytes, or a byte count
/// beyond `usize`) gives `Failed to create image buffer`, an encoding
/// failure an error starting `PNG encode error: `.
pub fn rgba_to_png(w: u32, h: u32, pixels: Vec<u8>) -> (r: Result<Vec<u8>, String>)
    ensures
        !rgba_fits(w, h, pixels@.len()) ==> (r matches Err(e) && e@
            == "Failed to create image buffer"@),
        rgba_fits(w, h, pixels@.len()) ==> (match rgba_png(w, h, pixels@) {
            Some(png) => r matches Ok(v) && v@ == png,
            None => r matches Err(e) && starts_with(e@, "PNG encode error: "@),
        }),
{
    match png_from_rgba(w, h, pixels) {
        Ok(None) => Err(String::from_str("Failed to create image buffer")),
        Ok(Some(png)) => Ok(png),
        Err(e) => {
            let mut msg = String::from_str("PNG encode error: ");
            let detail = e.to_string();
            msg.append(detail.as_str());
            assert(msg@.take("PNG encode error: "@.len() as int) =~= "PNG encode error: "@);
            Err(msg)
        },
    }
}

} // verus!
