//! Cover images: decoding a PNG cover into RGBA pixels. The decoding itself
//! is the `png` crate's; the conversion of its output rows into a tight RGBA
//! buffer is here.
use vstd::prelude::*;

use crate::paths::{extension_of, path_extension};
use crate::text::{eq_ignore_case, str_eq_ignore_case};

verus! {

/// What `png` gives for the first frame of `bytes`, decoded with palette
/// expansion and 16-bit samples stripped: the output buffer, the frame's
/// width and height, its colour type (as `png::ColorType`'s number) and the
/// byte length of one output row. `None` when decoding fails.
pub uninterp spec fn png_first_frame(bytes: Seq<u8>) -> Option<(Seq<u8>, u32, u32, u8, usize)>;

/// The decoded first frame of a PNG file.
pub struct PngFrame {
    pub buf: Vec<u8>,
    pub width: u32,
    pub height: u32,
    /// `png::ColorType` as a number: 0 grey, 2 RGB, 3 indexed, 4 grey+alpha,
    /// 6 RGBA.
    pub color_type: u8,
    pub line_size: usize,
}

/// The view of a frame.
pub open spec fn frame_view(f: PngFrame) -> (Seq<u8>, u32, u32, u8, usize) {
    (f.buf@, f.width, f.height, f.color_type, f.line_size)
}

/// `png::Decoder::new` on the bytes, `set_transformations(EXPAND |
/// STRIP_16)`, `read_info`, then `Reader::next_frame` into a buffer of
/// `output_buffer_size` bytes: the result is named `png_first_frame`.
/// (`read_info` refuses images whose output size overflows `usize`; the
/// buffer is then allocated whole, and an image larger than the memory
/// available ends the process as any failed allocation does.)
#[verifier::external_body]
fn png_decode_first_frame(bytes: &[u8]) -> (r: Option<PngFrame>)
    ensures
        match r {
            Some(f) => png_first_frame(bytes@) == Some(frame_view(f)),
            None => png_first_frame(bytes@) is None,
        },
{
    let mut dec = png::Decoder::new(std::io::Cursor::new(bytes));
    dec.set_transformations(png::Transformations::EXPAND | png::Transformations::STRIP_16);
    let mut reader = dec.read_info().ok()?;
    let mut buf = vec![0u8; reader.output_buffer_size()];
    let info = reader.next_frame(&mut buf).ok()?;
    Some(PngFrame { buf, width: info.width, height: info.height, color_type: info.color_type as u8, line_size: info.line_size })
}

/// `png::ColorType::Rgba`.
pub open spec fn color_rgba() -> u8 {
    6
}

/// `png::ColorType::Rgb`.
pub open spec fn color_rgb() -> u8 {
    2
}

/// The first `n` RGB pixels of `s`, each widened to RGBA with full alpha.
pub open spec fn rgb_to_rgba(s: Seq<u8>, n: nat) -> Seq<u8>
    decreases n,
{
    if n == 0 {
        seq![]
    } else {
        let k = 3 * (n - 1);
        rgb_to_rgba(s, (n - 1) as nat) + seq![s[k], s[k + 1], s[k + 2], 255u8]
    }
}

/// The first `h` rows of a frame as tight RGBA rows of `w` pixels.
pub open spec fn rgba_rows(buf: Seq<u8>, w: nat, h: nat, line: nat, color: u8) -> Seq<u8>
    decreases h,
{
    if h == 0 {
        seq![]
    } else {
        let start = (h - 1) * line;
        rgba_rows(buf, w, (h - 1) as nat, line, color) + if color == color_rgba() {
            buf.subrange(start, start + 4 * w)
        } else {
            rgb_to_rgba(buf.subrange(start, start + 3 * w), w)
        }
    }
}

/// The frame's pixels as tight RGBA, with its width and height; `None` for
/// an empty frame, a colour type other than RGBA and RGB, or rows shorter
/// than the width needs.
pub open spec fn frame_rgba(f: (Seq<u8>, u32, u32, u8, usize)) -> Option<(Seq<u8>, nat, nat)> {
    let (buf, w, h, color, line) = f;
    if w == 0 || h == 0 {
        None
    } else if color == color_rgba() {
        if line < 4 * w {
            None
        } else {
            Some((rgba_rows(buf, w as nat, h as nat, line as nat, color), w as nat, h as nat))
        }
    } else if color == color_rgb() {
        if line < 3 * w {
            None
        } else {
            Some((rgba_rows(buf, w as nat, h as nat, line as nat, color), w as nat, h as nat))
        }
    } else {
        None
    }
}

/// Bytes per pixel of a decoded row: 4 for RGBA, 3 otherwise (RGB, the only
/// other colour type that is converted).
pub open spec fn pixel_bytes(color: u8) -> nat {
    if color == color_rgba() {
        4
    } else {
        3
    }
}

/// The frame's buffer holds every row that is read, and the RGBA result fits
/// in memory.
pub open spec fn frame_fits(f: (Seq<u8>, u32, u32, u8, usize)) -> bool {
    let (buf, w, h, color, line) = f;
    &&& w * h * 4 <= usize::MAX
    &&& h * line <= usize::MAX
    &&& (h > 0 ==> (h - 1) * line + pixel_bytes(color) * w <= buf.len())
}

proof fn lemma_row_bounds(y: nat, h: nat, line: nat, w4: nat, len: nat)
    requires
        y < h,
        (h - 1) * line + w4 <= len,
    ensures
        y * line + w4 <= len,
        y * line <= (h - 1) * line,
{
    assert(y * line <= (h - 1) * line) by (nonlinear_arith)
        requires
            y <= h - 1,
    ;
}

proof fn lemma_rgb_extend(s: Seq<u8>, t: Seq<u8>, n: nat)
    requires
        3 * n <= s.len(),
        s.subrange(0, 3 * n as int) == t.subrange(0, 3 * n as int),
        3 * n <= t.len(),
    ensures
        rgb_to_rgba(s, n) == rgb_to_rgba(t, n),
    decreases n,
{
    if n > 0 {
        let k = 3 * (n - 1);
        assert(s.subrange(0, 3 * (n - 1) as int) == s.subrange(0, 3 * n as int).subrange(0, k as int));
        assert(t.subrange(0, 3 * (n - 1) as int) == t.subrange(0, 3 * n as int).subrange(0, k as int));
        lemma_rgb_extend(s, t, (n - 1) as nat);
        assert(s[k as int] == s.subrange(0, 3 * n as int)[k as int]);
        assert(s[k + 1] == s.subrange(0, 3 * n as int)[k + 1]);
        assert(s[k + 2] == s.subrange(0, 3 * n as int)[k + 2]);
        assert(t[k as int] == t.subrange(0, 3 * n as int)[k as int]);
        assert(t[k + 1] == t.subrange(0, 3 * n as int)[k + 1]);
        assert(t[k + 2] == t.subrange(0, 3 * n as int)[k + 2]);
    }
}

/// One RGB row widened to RGBA.
fn expand_rgb_row(buf: &[u8], start: usize, w: usize, out: &mut Vec<u8>)
    requires
        start + 3 * w <= buf@.len(),
    ensures
        final(out)@ == old(out)@ + rgb_to_rgba(buf@.subrange(start as int, start + 3 * w), w as nat),
{
    let ghost row = buf@.subrange(start as int, start + 3 * w);
    let ghost base = out@;
    let blen = buf.len();
    for x in 0..w
        invariant
            blen == buf@.len(),
            start + 3 * w <= buf@.len(),
            row == buf@.subrange(start as int, start + 3 * w),
            out@ == base + rgb_to_rgba(row, x as nat),
    {
        let si = start + x * 3;
        out.push(buf[si]);
        out.push(buf[si + 1]);
        out.push(buf[si + 2]);
        out.push(255u8);
        assert(row[3 * x as int] == buf@[si as int]);
        assert(row[3 * x + 1] == buf@[si + 1]);
        assert(row[3 * x + 2] == buf@[si + 2]);
        assert(out@ =~= base + rgb_to_rgba(row, (x + 1) as nat));
    }
}

/// Converts a decoded frame to tight RGBA pixels (see `frame_rgba`).
pub fn rgba_from_frame(frame: &PngFrame) -> (r: Option<(Vec<u8>, usize, usize)>)
    requires
        frame_fits(frame_view(*frame)),
    ensures
        match frame_rgba(frame_view(*frame)) {
            Some((px, w, h)) => r matches Some((v, rw, rh)) && v@ == px && rw == w && rh == h,
            None => r is None,
        },
{
    let w = frame.width as usize;
    let h = frame.height as usize;
    if w == 0 || h == 0 {
        return None;
    }
    let color = frame.color_type;
    let line = frame.line_size;
    let blen = frame.buf.len();
    proof {
        let hw = frame.width as nat;
        let hh = frame.height as nat;
        assert(hw * 4 <= hw * hh * 4) by (nonlinear_arith)
            requires
                hh >= 1,
        ;
    }
    if color == 6 {
        if line < w * 4 {
            return None;
        }
    } else if color == 2 {
        if line < w * 3 {
            return None;
        }
    } else {
        return None;
    }
    let mut rgba: Vec<u8> = Vec::new();
    for y in 0..h
        invariant
            w == frame.width,
            h == frame.height,
            line == frame.line_size,
            color == frame.color_type,
            w > 0,
            color == 6 || color == 2,
            color == 6 ==> line >= 4 * w,
            color == 2 ==> line >= 3 * w,
            frame_fits(frame_view(*frame)),
            blen == frame.buf@.len(),
            w * 4 <= usize::MAX,
            rgba@ == rgba_rows(frame.buf@, w as nat, y as nat, line as nat, color),
    {
        proof {
            lemma_row_bounds(y as nat, h as nat, line as nat, pixel_bytes(color) * w as nat, frame.buf@.len());
            assert(y * line <= h * line) by (nonlinear_arith)
                requires
                    y < h,
            ;
        }
        let src = y * line;
        if color == 6 {
            let ghost before = rgba@;
            for x in 0..w * 4
                invariant
                    blen == frame.buf@.len(),
                    src + 4 * w <= frame.buf@.len(),
                    rgba@ == before + frame.buf@.subrange(src as int, src + x),
            {
                rgba.push(frame.buf[src + x]);
                assert(frame.buf@.subrange(src as int, src + x + 1) == frame.buf@.subrange(src as int, src + x).push(frame.buf@[src + x]));
            }
        } else {
            expand_rgb_row(frame.buf.as_slice(), src, w, &mut rgba);
        }
        assert(((y + 1) as nat - 1) * (line as nat) == y * line);
    }
    Some((rgba, w, h))
}

/// Decodes the first frame of a PNG file's bytes to tight RGBA pixels with
/// its width and height. `None` when the bytes do not decode, when the frame
/// is empty or neither RGBA nor RGB, or when the decoder's buffer is shorter
/// than its rows.
pub fn decode_png_rgba(bytes: &[u8]) -> (r: Option<(Vec<u8>, usize, usize)>)
    ensures
        match png_first_frame(bytes@) {
            None => r is None,
            Some(f) => if !frame_fits(f) {
                r is None
            } else {
                match frame_rgba(f) {
                    Some((px, w, h)) => r matches Some((v, rw, rh)) && v@ == px && rw == w && rh == h,
                    None => r is None,
                }
            },
        },
{
    let frame = match png_decode_first_frame(bytes) {
        Some(f) => f,
        None => {
            return None;
        },
    };
    let w = frame.width as u128;
    let h = frame.height as u128;
    let line = frame.line_size as u128;
    assert(w * h * 4 < 0x1_0000_0000_0000_0000_0000_0000_0000) by (nonlinear_arith)
        requires
            w < 0x1_0000_0000,
            h < 0x1_0000_0000,
    ;
    assert(h * line < 0x1_0000_0000_0000_0000_0000_0000_0000) by (nonlinear_arith)
        requires
            line < 0x1_0000_0000_0000_0000,
            h < 0x1_0000_0000,
    ;
    if w * h * 4 > usize::MAX as u128 || h * line > usize::MAX as u128 {
        return None;
    }
    if h > 0 {
        assert((h - 1) * line <= h * line) by (nonlinear_arith)
            requires
                h > 0,
        ;
    }
    let px: u128 = if frame.color_type == 6 { 4 } else { 3 };
    if h > 0 && (h - 1) * line + px * w > frame.buf.len() as u128 {
        return None;
    }
    rgba_from_frame(&frame)
}

/// A cover file is decoded only when its extension is `png` (any case).
pub open spec fn is_png_name(path: Seq<char>) -> bool {
    match extension_of(path) {
        Some(e) => eq_ignore_case(e, "png"@),
        None => false,
    }
}

/// Is this cover a PNG file, by its extension?
pub fn is_png_path(path: &str) -> (r: bool)
    ensures
        r == is_png_name(path@),
{
    match path_extension(path) {
        Some(e) => str_eq_ignore_case(e.as_str(), "png"),
        None => false,
    }
}

} // verus!
