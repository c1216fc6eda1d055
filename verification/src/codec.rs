//! Base64 text and image decoding, through `base64` and `image`.

use vstd::prelude::*;
use base64::Engine;

verus! {

#[verifier::external_type_specification]
#[verifier::external_body]
pub struct ExDecodeError(base64::DecodeError);

#[verifier::external_type_specification]
#[verifier::external_body]
pub struct ExImageError(image::ImageError);

/// The symbol of a six-bit value in the standard Base64 alphabet
/// (`A`-`Z`, `a`-`z`, `0`-`9`, `+`, `/`).
pub open spec fn base64_symbol(v: int) -> char {
    if v < 26 {
        (v + 65) as char
    } else if v < 52 {
        (v - 26 + 97) as char
    } else if v < 62 {
        (v - 52 + 48) as char
    } else if v == 62 {
        '+'
    } else {
        '/'
    }
}

/// The standard, padded Base64 text of `data` (RFC 4648): every three bytes
/// become four symbols of six bits each; a last group of one or two bytes is
/// padded with `=` to four characters.
pub open spec fn base64_encoding(data: Seq<u8>) -> Seq<char>
    decreases data.len(),
{
    if data.len() == 0 {
        Seq::empty()
    } else {
        let a = data[0] as int;
        let b = if data.len() > 1 { data[1] as int } else { 0int };
        let c = if data.len() > 2 { data[2] as int } else { 0int };
        if data.len() == 1 {
            seq![base64_symbol(a / 4), base64_symbol((a % 4) * 16), '=', '=']
        } else if data.len() == 2 {
            seq![
                base64_symbol(a / 4),
                base64_symbol((a % 4) * 16 + b / 16),
                base64_symbol((b % 16) * 4),
                '=',
            ]
        } else {
            seq![
                base64_symbol(a / 4),
                base64_symbol((a % 4) * 16 + b / 16),
                base64_symbol((b % 16) * 4 + c / 64),
                base64_symbol(c % 64),
            ] + base64_encoding(data.skip(3))
        }
    }
}

/// The bytes that the standard, padded Base64 text `text` stands for: the
/// bytes whose encoding it is, or nothing when it is the encoding of no bytes.
pub open spec fn base64_decoding(text: Seq<char>) -> Option<Seq<u8>> {
    if exists|d: Seq<u8>| base64_encoding(d) == text {
        Some(choose|d: Seq<u8>| base64_encoding(d) == text)
    } else {
        None
    }
}

/// Decoding the Base64 text of any bytes gives those bytes back.
pub proof fn law_base64_round_trip(d: Seq<u8>)
    ensures
        base64_decoding(base64_encoding(d)) == Some(d),
{
    let t = base64_encoding(d);
    assert(exists|x: Seq<u8>| base64_encoding(x) == t);
    let c = choose|x: Seq<u8>| base64_encoding(x) == t;
    lemma_encoding_injective(c, d);
}

/// The width and height of the image that `data` encodes, or nothing when
/// `image::load_from_memory` cannot decode it.
pub uninterp spec fn image_size(data: Seq<u8>) -> Option<(u32, u32)>;

/// `STANDARD.encode`: the padded Base64 text of `data`, in the standard
/// alphabet as `base64_encoding` spells it out. The length bound keeps the
/// output size computation, which panics on overflow, in range.
#[verifier::external_body]
pub(crate) fn base64_encode(data: &[u8]) -> (s: String)
    requires
        data@.len() <= usize::MAX / 2,
    ensures
        s@ == base64_encoding(data@),
{
    base64::engine::general_purpose::STANDARD.encode(data)
}

/// `STANDARD.decode` of the bytes of `text`. The `STANDARD` engine requires
/// canonical padding and rejects set trailing bits, and takes nothing but
/// symbols of its alphabet and `=` at the end; so it accepts exactly the
/// texts that encoding some bytes gives, and returns those bytes. On any
/// other text it returns its error.
#[verifier::external_body]
pub(crate) fn base64_decode(text: &str) -> (r: Result<Vec<u8>, base64::DecodeError>)
    ensures
        r is Ok <==> base64_decoding(text@) is Some,
        r matches Ok(v) ==> base64_decoding(text@) == Some(v@),
{
    base64::engine::general_purpose::STANDARD.decode(text)
}

/// `image::load_from_memory`, keeping the decoded image's width and height:
/// an error exactly when the image cannot be decoded.
#[verifier::external_body]
pub(crate) fn decoded_image_size(data: &[u8]) -> (r: Result<(u32, u32), image::ImageError>)
    ensures
        r is Ok <==> image_size(data@) is Some,
        r matches Ok(d) ==> image_size(data@) == Some(d),
{
    image::load_from_memory(data).map(|img| (img.width(), img.height()))
}

/// The PNG bytes of the part of the image that `data` encodes which
/// `DynamicImage::crop_imm(x, y, w, h)` cuts out, as `write_to` encodes it;
/// nothing when decoding or encoding fails.
pub uninterp spec fn cropped_png(data: Seq<u8>, x: u32, y: u32, w: u32, h: u32) -> Option<Seq<u8>>;

/// The PNG bytes that `write_to` gives for the `w` by `h` RGBA image whose
/// pixel bytes start `pixels`; nothing when encoding fails.
pub uninterp spec fn rgba_png(w: u32, h: u32, pixels: Seq<u8>) -> Option<Seq<u8>>;

/// The smaller of two numbers.
pub open spec fn min_u32(a: u32, b: u32) -> u32 {
    if a <= b { a } else { b }
}

/// The size of the cut-out at `(x, y)` of size `w` by `h` from an `iw` by
/// `ih` image, clamped to the image (image's `crop_dimms`).
pub open spec fn crop_size(iw: u32, ih: u32, x: u32, y: u32, w: u32, h: u32) -> (u32, u32) {
    (
        min_u32(w, (iw - min_u32(x, iw)) as u32),
        min_u32(h, (ih - min_u32(y, ih)) as u32),
    )
}

/// `image::load_from_memory`, then `crop_imm(x, y, w, h)`, then `write_to`
/// as PNG: the PNG bytes of the cut-out with the cut-out's width and
/// height, or the first error. Data that does not decode gives an error.
/// The cut-out's size is the requested one clamped to the image, as
/// `crop_imm` computes it through `crop_dimms`.
#[verifier::external_body]
pub(crate) fn crop_to_png(data: &[u8], x: u32, y: u32, w: u32, h: u32) -> (r: Result<
    (Vec<u8>, u32, u32),
    image::ImageError,
>)
    ensures
        r is Ok <==> cropped_png(data@, x, y, w, h) is Some,
        r matches Ok((v, cw, ch)) ==> {
            &&& cropped_png(data@, x, y, w, h) == Some(v@)
            &&& image_size(data@) matches Some((iw, ih)) && (cw, ch) == crop_size(iw, ih, x, y, w, h)
        },
        image_size(data@) is None ==> r is Err,
{
    let img = image::load_from_memory(data)?;
    let cropped = img.crop_imm(x, y, w, h);
    let mut out = Vec::new();
    cropped.write_to(&mut std::io::Cursor::new(&mut out), image::ImageFormat::Png)?;
    Ok((out, cropped.width(), cropped.height()))
}

/// `from_raw` takes a `w` by `h` RGBA buffer of `len` bytes: the byte count
/// `4 * w * h`, computed in `usize` as `4 * w` then `* h` with overflow
/// checks, fits and is at most `len` (image's `check_image_fits`).
pub open spec fn rgba_fits(w: u32, h: u32, len: nat) -> bool {
    &&& 4 * w <= usize::MAX
    &&& 4 * w * h <= usize::MAX
    &&& 4 * w * h <= len
}

/// `RgbaImage::from_raw(w, h, pixels)`, then `write_to` as PNG. `from_raw`
/// gives no image, and this gives `Ok(None)`, exactly when `rgba_fits` fails;
/// otherwise the PNG bytes, or the encoder's error.
#[verifier::external_body]
pub(crate) fn png_from_rgba(w: u32, h: u32, pixels: Vec<u8>) -> (r: Result<
    Option<Vec<u8>>,
    image::ImageError,
>)
    ensures
        r matches Ok(None) <==> !rgba_fits(w, h, pixels@.len()),
        rgba_fits(w, h, pixels@.len()) ==> (r matches Ok(Some(_)) <==> rgba_png(w, h, pixels@) is Some),
        r matches Ok(Some(v)) ==> rgba_png(w, h, pixels@) == Some(v@),
{
    match image::RgbaImage::from_raw(w, h, pixels) {
        None => Ok(None),
        Some(img) => {
            let mut out = Vec::new();
            img.write_to(&mut std::io::Cursor::new(&mut out), image::ImageFormat::Png)?;
            Ok(Some(out))
        },
    }
}

proof fn lemma_symbol_injective(v: int, w: int)
    requires
        0 <= v < 64,
        0 <= w < 64,
        base64_symbol(v) == base64_symbol(w),
    ensures
        v == w,
{
}

proof fn lemma_symbol_not_pad(v: int)
    requires
        0 <= v < 64,
    ensures
        base64_symbol(v) != '=',
{
}

/// The four symbols of one group of up to three bytes determine the bytes.
proof fn lemma_group_injective(a1: int, b1: int, c1: int, a2: int, b2: int, c2: int)
    requires
        0 <= a1 < 256,
        0 <= b1 < 256,
        0 <= c1 < 256,
        0 <= a2 < 256,
        0 <= b2 < 256,
        0 <= c2 < 256,
        a1 / 4 == a2 / 4,
        (a1 % 4) * 16 + b1 / 16 == (a2 % 4) * 16 + b2 / 16,
        (b1 % 16) * 4 + c1 / 64 == (b2 % 16) * 4 + c2 / 64,
        c1 % 64 == c2 % 64,
    ensures
        a1 == a2,
        b1 == b2,
        c1 == c2,
{
    assert(a1 == a2 && b1 == b2 && c1 == c2) by (nonlinear_arith)
        requires
            0 <= a1 < 256,
            0 <= b1 < 256,
            0 <= c1 < 256,
            0 <= a2 < 256,
            0 <= b2 < 256,
            0 <= c2 < 256,
            a1 / 4 == a2 / 4,
            (a1 % 4) * 16 + b1 / 16 == (a2 % 4) * 16 + b2 / 16,
            (b1 % 16) * 4 + c1 / 64 == (b2 % 16) * 4 + c2 / 64,
            c1 % 64 == c2 % 64,
    ;
}

/// The ranges of the symbol values of one group.
proof fn lemma_group_ranges(a: int, b: int, c: int)
    requires
        0 <= a < 256,
        0 <= b < 256,
        0 <= c < 256,
    ensures
        0 <= a / 4 < 64,
        0 <= (a % 4) * 16 + b / 16 < 64,
        0 <= (b % 16) * 4 + c / 64 < 64,
        0 <= c % 64 < 64,
        0 <= (a % 4) * 16 < 64,
        0 <= (b % 16) * 4 < 64,
{
    assert(0 <= (a % 4) * 16 + b / 16 < 64 && 0 <= (b % 16) * 4 + c / 64 < 64) by (nonlinear_arith)
        requires
            0 <= a < 256,
            0 <= b < 256,
            0 <= c < 256,
    ;
}

/// A non-empty input has at least one group of four symbols.
proof fn lemma_encoding_nonempty(d: Seq<u8>)
    requires
        d.len() > 0,
    ensures
        base64_encoding(d).len() >= 4,
        d.len() == 1 ==> base64_encoding(d).len() == 4 && base64_encoding(d)[2] == '=',
        d.len() == 2 ==> base64_encoding(d).len() == 4 && base64_encoding(d)[3] == '='
            && base64_encoding(d)[2] != '=',
        d.len() >= 3 ==> base64_encoding(d)[2] != '=' && base64_encoding(d)[3] != '=',
        base64_encoding(d)[0] == base64_symbol(d[0] as int / 4),
        d.len() >= 2 ==> base64_encoding(d)[1] == base64_symbol(
            (d[0] as int % 4) * 16 + d[1] as int / 16,
        ),
{
    let a = d[0] as int;
    let b = if d.len() > 1 { d[1] as int } else { 0int };
    let c = if d.len() > 2 { d[2] as int } else { 0int };
    lemma_group_ranges(a, b, c);
    lemma_symbol_not_pad((b % 16) * 4 + c / 64);
    lemma_symbol_not_pad((b % 16) * 4);
    lemma_symbol_not_pad(c % 64);
    if d.len() >= 3 {
        let g = seq![
            base64_symbol(a / 4),
            base64_symbol((a % 4) * 16 + b / 16),
            base64_symbol((b % 16) * 4 + c / 64),
            base64_symbol(c % 64),
        ];
        assert(base64_encoding(d) == g + base64_encoding(d.skip(3)));
        assert(base64_encoding(d)[0] == g[0]);
        assert(base64_encoding(d)[1] == g[1]);
        assert(base64_encoding(d)[2] == g[2]);
        assert(base64_encoding(d)[3] == g[3]);
    }
}

/// Different byte sequences have different Base64 texts.
proof fn lemma_encoding_injective(d1: Seq<u8>, d2: Seq<u8>)
    requires
        base64_encoding(d1) == base64_encoding(d2),
    ensures
        d1 == d2,
    decreases d1.len(),
{
    let e = base64_encoding(d1);
    if d1.len() == 0 || d2.len() == 0 {
        if d1.len() > 0 {
            lemma_encoding_nonempty(d1);
        }
        if d2.len() > 0 {
            lemma_encoding_nonempty(d2);
        }
        assert(d1 =~= d2);
    } else {
        lemma_encoding_nonempty(d1);
        lemma_encoding_nonempty(d2);
        let a1 = d1[0] as int;
        let b1 = if d1.len() > 1 { d1[1] as int } else { 0int };
        let c1 = if d1.len() > 2 { d1[2] as int } else { 0int };
        let a2 = d2[0] as int;
        let b2 = if d2.len() > 1 { d2[1] as int } else { 0int };
        let c2 = if d2.len() > 2 { d2[2] as int } else { 0int };
        lemma_group_ranges(a1, b1, c1);
        lemma_group_ranges(a2, b2, c2);
        lemma_symbol_injective(a1 / 4, a2 / 4);
        if d1.len() == 1 {
            assert(d2.len() == 1);
            lemma_symbol_injective((a1 % 4) * 16, (a2 % 4) * 16);
            assert(a1 == a2) by (nonlinear_arith)
                requires
                    0 <= a1 < 256,
                    0 <= a2 < 256,
                    a1 / 4 == a2 / 4,
                    (a1 % 4) * 16 == (a2 % 4) * 16,
            ;
            assert(d1 =~= d2);
        } else if d1.len() == 2 {
            assert(d2.len() == 2);
            lemma_symbol_injective((a1 % 4) * 16 + b1 / 16, (a2 % 4) * 16 + b2 / 16);
            lemma_symbol_injective((b1 % 16) * 4, (b2 % 16) * 4);
            lemma_group_injective(a1, b1, 0, a2, b2, 0);
            assert(d1 =~= d2);
        } else {
            assert(d2.len() >= 3);
            lemma_symbol_injective((a1 % 4) * 16 + b1 / 16, (a2 % 4) * 16 + b2 / 16);
            lemma_symbol_injective((b1 % 16) * 4 + c1 / 64, (b2 % 16) * 4 + c2 / 64);
            lemma_symbol_injective(c1 % 64, c2 % 64);
            lemma_group_injective(a1, b1, c1, a2, b2, c2);
            assert(base64_encoding(d1.skip(3)) =~= e.skip(4));
            assert(base64_encoding(d2.skip(3)) =~= e.skip(4));
            lemma_encoding_injective(d1.skip(3), d2.skip(3));
            assert(d1 =~= d2) by {
                assert(d1.len() == d2.len()) by {
                    assert(d1.skip(3).len() == d2.skip(3).len());
                }
                assert forall|k: int| 0 <= k < d1.len() implies d1[k] == d2[k] by {
                    if k >= 3 {
                        assert(d1[k] == d1.skip(3)[k - 3]);
                        assert(d2[k] == d2.skip(3)[k - 3]);
                    }
                }
            }
        }
    }
}

} // verus!
