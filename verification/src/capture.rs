//! Pictures: what is read back from a texture, straight alpha, and PNG.

use vstd::prelude::*;

verus! {

/// Why there is no picture.
#[derive(Clone, Debug)]
pub enum CaptureError {
    /// There is no graphics adapter.
    NoAdapter(String),
    /// Drawing or reading back failed.
    Render(String),
    /// Encoding failed.
    Encode(String),
}

impl CaptureError {
    /// The text shown to people.
    pub fn to_text(&self) -> (r: String)
        ensures
            r@ == match *self {
                CaptureError::NoAdapter(m) => "no gpu adapter: "@ + m@,
                CaptureError::Render(m) => "render: "@ + m@,
                CaptureError::Encode(m) => "encode: "@ + m@,
            },
    {
        match self {
            CaptureError::NoAdapter(m) => crate::text::joined("no gpu adapter: ", m.as_str()),
            CaptureError::Render(m) => crate::text::joined("render: ", m.as_str()),
            CaptureError::Encode(m) => crate::text::joined("encode: ", m.as_str()),
        }
    }
}

/// The bytes of a row of `w` pixels in a read-back buffer: four bytes a pixel, up
/// to the next multiple of 256.
pub open spec fn padded_row(w: int) -> int {
    (4 * w + 255) / 256 * 256
}

/// The bytes of a row of `w` pixels in a read-back buffer.
pub fn padded_bytes_per_row(w: u32) -> (r: u32)
    requires
        4 * w + 255 <= u32::MAX,
    ensures
        r == padded_row(w as int),
        r % 256 == 0,
        4 * w <= r < 4 * w + 256,
{
    (4 * w + 255) / 256 * 256
}

/// The rows of `4 * w` bytes at the front of rows of `row` bytes.
pub open spec fn tight_rows(data: Seq<u8>, w: int, row: int, h: nat) -> Seq<u8>
    decreases h,
{
    if h == 0 {
        seq![]
    } else {
        tight_rows(data, w, row, (h - 1) as nat) + data.subrange(
            (h - 1) * row,
            (h - 1) * row + 4 * w,
        )
    }
}

/// Takes the padding out of a read-back buffer of `h` rows of `w` pixels.
pub fn depad(data: &[u8], w: u32, h: u32) -> (r: Vec<u8>)
    requires
        4 * w + 255 <= u32::MAX,
        data@.len() == h * padded_row(w as int),
    ensures
        r@ == tight_rows(data@, w as int, padded_row(w as int), h as nat),
{
    let row: usize = padded_bytes_per_row(w) as usize;
    let len: usize = 4 * (w as usize);
    let mut out: Vec<u8> = Vec::new();
    let mut y: usize = 0;
    assert(data@.len() == data.len());
    while y < h as usize
        invariant
            y <= h,
            row == padded_row(w as int),
            len == 4 * w,
            len <= row,
            data@.len() == h * row,
            data@.len() <= usize::MAX,
            out@ == tight_rows(data@, w as int, row as int, y as nat),
        decreases h - y,
    {
        assert(y * row + row <= h * row && 0 <= y * row) by (nonlinear_arith)
            requires
                y + 1 <= h,
                0 <= y,
                0 <= row,
        ;
        let at: usize = y * row;
        let line: &[u8] = vstd::slice::slice_subrange(data, at, at + len);
        let mut copy: Vec<u8> = vstd::slice::slice_to_vec(line);
        assert(copy@ =~= data@.subrange(at as int, at + len));
        out.append(&mut copy);
        y = y + 1;
    }
    out
}

/// A tight picture has four bytes a pixel.
pub proof fn lemma_tight_len(data: Seq<u8>, w: int, row: int, h: nat)
    requires
        0 <= 4 * w <= row,
        data.len() >= h * row,
    ensures
        tight_rows(data, w, row, h).len() == 4 * w * h,
    decreases h,
{
    if h > 0 {
        assert((h - 1) * row + row == h * row && (h - 1) * row >= 0) by (nonlinear_arith)
            requires
                h >= 1,
                row >= 0,
        ;
        lemma_tight_len(data, w, row, (h - 1) as nat);
        assert(4 * w * (h - 1) + 4 * w == 4 * w * h) by (nonlinear_arith);
    } else {
        assert(4 * w * 0 == 0) by (nonlinear_arith);
    }
}

/// Every byte of a tight picture is the byte of the same pixel in the buffer.
pub proof fn law_depad_keeps_pixels(data: Seq<u8>, w: int, row: int, h: nat, x: int, y: int)
    requires
        0 <= x < 4 * w <= row,
        data.len() >= h * row,
        0 <= y < h,
    ensures
        tight_rows(data, w, row, h).len() == 4 * w * h,
        0 <= 4 * w * y + x < 4 * w * h,
        tight_rows(data, w, row, h)[4 * w * y + x] == data[y * row + x],
    decreases h,
{
    lemma_tight_len(data, w, row, h);
    assert((h - 1) * row + row == h * row && (h - 1) * row >= 0) by (nonlinear_arith)
        requires
            h >= 1,
            row >= 0,
    ;
    lemma_tight_len(data, w, row, (h - 1) as nat);
    assert(0 <= 4 * w * y && 4 * w * y + 4 * w <= 4 * w * h) by (nonlinear_arith)
        requires
            0 <= y,
            y + 1 <= h,
            w >= 0,
    ;
    if y < h - 1 {
        law_depad_keeps_pixels(data, w, row, (h - 1) as nat, x, y);
    }
}

/// A channel with the alpha taken out of it.
pub open spec fn straight_channel(ch: u8, a: u8) -> u8 {
    if a == 0 {
        0
    } else if ch as int * 255 / a as int > 255 {
        255
    } else {
        (ch as int * 255 / a as int) as u8
    }
}

/// A pixel with its alpha taken out of the other channels.
pub open spec fn straight_pixel(p: [u8; 4]) -> Seq<u8> {
    seq![
        straight_channel(p[0], p[3]),
        straight_channel(p[1], p[3]),
        straight_channel(p[2], p[3]),
        p[3],
    ]
}

/// The first `n` pixels, with their alpha taken out, one behind the other.
pub open spec fn straight_pixels(ps: Seq<[u8; 4]>, n: nat) -> Seq<u8>
    decreases n,
{
    if n == 0 {
        seq![]
    } else {
        straight_pixels(ps, (n - 1) as nat) + straight_pixel(ps[n - 1])
    }
}

fn unscale(ch: u8, a: u8) -> (r: u8)
    ensures
        r == straight_channel(ch, a),
{
    if a == 0 {
        return 0;
    }
    let v: u32 = ch as u32 * 255 / (a as u32);
    if v > 255 {
        255
    } else {
        v as u8
    }
}

/// Takes the alpha out of the other channels of premultiplied pixels.
pub fn unpremultiply(pixels: &Vec<[u8; 4]>) -> (r: Vec<u8>)
    ensures
        r@ == straight_pixels(pixels@, pixels@.len()),
{
    let mut out: Vec<u8> = Vec::new();
    let mut i: usize = 0;
    while i < pixels.len()
        invariant
            i <= pixels@.len(),
            out@ == straight_pixels(pixels@, i as nat),
        decreases pixels@.len() - i,
    {
        let p: [u8; 4] = pixels[i];
        let ghost was = out@;
        out.push(unscale(p[0], p[3]));
        out.push(unscale(p[1], p[3]));
        out.push(unscale(p[2], p[3]));
        out.push(p[3]);
        assert(out@ =~= was + straight_pixel(p));
        i = i + 1;
    }
    out
}

/// A picture has four bytes a pixel.
pub proof fn lemma_straight_len(ps: Seq<[u8; 4]>, n: nat)
    ensures
        straight_pixels(ps, n).len() == 4 * n,
    decreases n,
{
    if n > 0 {
        lemma_straight_len(ps, (n - 1) as nat);
    }
}

/// An opaque pixel is left as it is.
pub proof fn law_opaque_pixels_stay(p: [u8; 4])
    requires
        p[3] == 255,
    ensures
        straight_pixel(p) == p@,
{
    assert(straight_pixel(p) =~= p@);
}

/// The PNG file of tight RGBA bytes of a picture, or why there is none.
pub uninterp spec fn png_file(rgba: Seq<u8>, w: u32, h: u32) -> Result<Seq<u8>, Seq<char>>;

/// The bytes that every PNG file starts with.
pub open spec fn png_signature() -> Seq<u8> {
    seq![0x89u8, 0x50, 0x4e, 0x47, 0x0d, 0x0a, 0x1a, 0x0a]
}

/// `Encoder` of the `png` crate with 8-bit RGBA: the header, then the picture. The
/// file depends on the arguments alone and starts with the PNG signature. A
/// picture without width or height, and bytes that are not four for each pixel,
/// are refused; nothing else is, as memory takes whatever is written to it. The
/// crate multiplies the sizes without a check.
#[verifier::external_body]
fn png_bytes(rgba: &[u8], w: u32, h: u32) -> (r: Result<Vec<u8>, String>)
    requires
        4 * w * h <= usize::MAX,
    ensures
        match (r, png_file(rgba@, w, h)) {
            (Ok(a), Ok(b)) => a@ == b,
            (Err(a), Err(b)) => a@ == b,
            _ => false,
        },
        r is Ok ==> png_signature().is_prefix_of(r->Ok_0@),
        (r is Ok) == (w > 0 && h > 0 && rgba@.len() == 4 * w * h),
{
    let mut out: Vec<u8> = Vec::new();
    let mut enc = png::Encoder::new(&mut out, w, h);
    enc.set_color(png::ColorType::Rgba);
    enc.set_depth(png::BitDepth::Eight);
    let mut writer = enc.write_header().map_err(|e| e.to_string())?;
    writer.write_image_data(rgba).map_err(|e| e.to_string())?;
    drop(writer);
    Ok(out)
}

/// What becomes of an encoder's result.
pub fn encoded(file: Result<Vec<u8>, String>) -> (r: Result<Vec<u8>, CaptureError>)
    ensures
        match file {
            Ok(b) => r is Ok && r->Ok_0 == b,
            Err(e) => r is Err && r->Err_0 == CaptureError::Encode(e),
        },
{
    match file {
        Ok(b) => Ok(b),
        Err(e) => Err(CaptureError::Encode(e)),
    }
}

/// Encodes tight RGBA bytes as PNG.
pub fn encode_png(rgba: &[u8], w: u32, h: u32) -> (r: Result<Vec<u8>, CaptureError>)
    requires
        4 * w * h <= usize::MAX,
    ensures
        match png_file(rgba@, w, h) {
            Ok(b) => r is Ok && r->Ok_0@ == b,
            Err(e) => r is Err && (r->Err_0 matches CaptureError::Encode(m) && m@ == e),
        },
        r is Ok ==> png_signature().is_prefix_of(r->Ok_0@),
        (r is Ok) == (w > 0 && h > 0 && rgba@.len() == 4 * w * h),
{
    encoded(png_bytes(rgba, w, h))
}

/// Encodes premultiplied pixels as PNG, which wants straight alpha.
pub fn color_image_to_png(w: u32, h: u32, pixels: &Vec<[u8; 4]>) -> (r: Result<
    Vec<u8>,
    CaptureError,
>)
    requires
        4 * w * h <= usize::MAX,
    ensures
        match png_file(straight_pixels(pixels@, pixels@.len()), w, h) {
            Ok(b) => r is Ok && r->Ok_0@ == b,
            Err(e) => r is Err && (r->Err_0 matches CaptureError::Encode(m) && m@ == e),
        },
        r is Ok ==> png_signature().is_prefix_of(r->Ok_0@),
        (r is Ok) == (w > 0 && h > 0 && pixels@.len() == w * h),
{
    let rgba: Vec<u8> = unpremultiply(pixels);
    proof {
        lemma_straight_len(pixels@, pixels@.len());
        assert(4 * w * h == 4 * (w * h)) by (nonlinear_arith);
    }
    encode_png(rgba.as_slice(), w, h)
}

/// The picture of a read-back buffer of `h` rows of `w` pixels, as PNG.
pub fn readback_to_png(data: &[u8], w: u32, h: u32) -> (r: Result<Vec<u8>, CaptureError>)
    requires
        4 * w + 255 <= u32::MAX,
        data@.len() == h * padded_row(w as int),
    ensures
        match png_file(tight_rows(data@, w as int, padded_row(w as int), h as nat), w, h) {
            Ok(b) => r is Ok && r->Ok_0@ == b,
            Err(e) => r is Err && (r->Err_0 matches CaptureError::Encode(m) && m@ == e),
        },
        r is Ok ==> png_signature().is_prefix_of(r->Ok_0@),
        (r is Ok) == (w > 0 && h > 0),
{
    let rgba: Vec<u8> = depad(data, w, h);
    proof {
        lemma_tight_len(data@, w as int, padded_row(w as int), h as nat);
    }
    let n: usize = rgba.len();
    assert(n == 4 * w * h);
    encode_png(rgba.as_slice(), w, h)
}

/// Taking the alpha out of a channel divides it by the alpha over 255, rounded down
/// and at most 255; nothing is left of a channel without alpha.
pub proof fn law_straight_channel(ch: u8, a: u8)
    ensures
        a == 0 ==> straight_channel(ch, a) == 0,
        a > 0 && ch >= a ==> straight_channel(ch, a) == 255,
        0 < a && ch < a ==> straight_channel(ch, a) * a <= ch * 255 < (straight_channel(ch, a) + 1)
            * a,
{
    if a > 0 {
        let n = ch as int * 255;
        let d = a as int;
        let q = n / d;
        assert(q * d <= n < (q + 1) * d) by (nonlinear_arith)
            requires
                d > 0,
                q == n / d,
        ;
        if ch >= a {
            assert(q >= 255) by (nonlinear_arith)
                requires
                    n == ch as int * 255,
                    ch >= a,
                    d == a,
                    d > 0,
                    n < (q + 1) * d,
            ;
        } else {
            assert(q <= 255 && q >= 0) by (nonlinear_arith)
                requires
                    n == ch as int * 255,
                    0 <= ch < a,
                    d == a,
                    d > 0,
                    q * d <= n < (q + 1) * d,
            ;
        }
    }
}

/// A picture without premultiplied alpha has the pixels in order, red, green, blue
/// and alpha each: the alpha as it was, the others with the alpha taken out.
pub proof fn law_straight_pixels(ps: Seq<[u8; 4]>, n: nat, i: int)
    requires
        0 <= i < n <= ps.len(),
    ensures
        straight_pixels(ps, n).len() == 4 * n,
        straight_pixels(ps, n)[4 * i] == straight_channel(ps[i][0], ps[i][3]),
        straight_pixels(ps, n)[4 * i + 1] == straight_channel(ps[i][1], ps[i][3]),
        straight_pixels(ps, n)[4 * i + 2] == straight_channel(ps[i][2], ps[i][3]),
        straight_pixels(ps, n)[4 * i + 3] == ps[i][3],
    decreases n,
{
    lemma_straight_len(ps, n);
    lemma_straight_len(ps, (n - 1) as nat);
    if i < n - 1 {
        law_straight_pixels(ps, (n - 1) as nat, i);
    }
}

/// A row of a read-back buffer takes the fewest whole blocks of 256 bytes that hold
/// four bytes a pixel.
pub proof fn law_padded_row(w: int)
    requires
        w >= 0,
    ensures
        padded_row(w) % 256 == 0,
        4 * w <= padded_row(w) < 4 * w + 256,
{
}

/// A PNG file starts with its eight signature bytes.
pub proof fn law_png_signature()
    ensures
        png_signature().len() == 8,
        png_signature().skip(1).take(3) == seq!['P' as u8, 'N' as u8, 'G' as u8],
        png_signature()[0] == 137,
        png_signature().skip(4) == seq![13u8, 10, 26, 10],
{
    assert('P' as u8 == 0x50 && 'N' as u8 == 0x4e && 'G' as u8 == 0x47);
    assert(png_signature().skip(1).take(3) =~= seq!['P' as u8, 'N' as u8, 'G' as u8]);
    assert(png_signature().skip(4) =~= seq![13u8, 10, 26, 10]);
}

} // verus!
