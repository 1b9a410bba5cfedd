//! Region capture against the first screen: read pixels, crop to the
//! requested bounds, and encode as a portable image payload.

use vstd::prelude::*;
use vstd::arithmetic::mul::{lemma_mul_inequality, lemma_mul_is_commutative};
use vstd::string::StringExecFns;
use crate::encode::{encode_png_data_uri, spec_data_uri};
use crate::geometry::{CaptureBounds, MonitorInfo};

verus! {

/// The clamped crop extent on one axis: `min(requested, image - offset)`,
/// zero when the offset lies at or past the image edge.
pub open spec fn crop_extent(img: int, offset: int, req: int) -> int {
    if offset >= img {
        0
    } else if req <= img - offset {
        req
    } else {
        img - offset
    }
}

/// Position of one byte of a cropped pixel in the row-major output.
pub open spec fn out_pixel_idx(cw: int, q: int, p: int, b: int) -> int {
    4 * (q * cw + p) + b
}

/// Position of the same byte in the row-major source image.
pub open spec fn src_pixel_idx(w: int, x: int, y: int, q: int, p: int, b: int) -> int {
    4 * ((y + q) * w + (x + p)) + b
}

/// Crop a row-major RGBA byte buffer to the requested bounds. The crop
/// extent is clamped to what the image offers past the requested origin;
/// negative origins and empty clamped extents are rejected. On success the
/// output holds exactly the requested pixels, byte for byte.
pub fn crop_rgba(
    data: &Vec<u8>,
    img_width: u32,
    img_height: u32,
    bounds: &CaptureBounds,
) -> (r: Result<(u32, u32, Vec<u8>), String>)
    requires
        data@.len() == 4 * img_width * img_height,
    ensures
        bounds.x < 0 || bounds.y < 0 ==> (r matches Err(e) && e@
            == "Negative coordinates not supported"@),
        r is Ok <==> bounds.x >= 0 && bounds.y >= 0 && crop_extent(
            img_width as int,
            bounds.x as int,
            bounds.width as int,
        ) > 0 && crop_extent(img_height as int, bounds.y as int, bounds.height as int) > 0,
        bounds.x >= 0 && bounds.y >= 0 && !(crop_extent(
            img_width as int,
            bounds.x as int,
            bounds.width as int,
        ) > 0 && crop_extent(img_height as int, bounds.y as int, bounds.height as int) > 0) ==> (
        r matches Err(e) && e@ == "Invalid crop dimensions"@),
        r matches Ok((cw, ch, out)) ==> {
            &&& cw == crop_extent(img_width as int, bounds.x as int, bounds.width as int)
            &&& ch == crop_extent(img_height as int, bounds.y as int, bounds.height as int)
            &&& out@.len() == 4 * ch * cw
            &&& forall|q: int, p: int, b: int|
                0 <= q < ch && 0 <= p < cw && 0 <= b < 4 ==> out@[#[trigger] out_pixel_idx(
                    cw as int,
                    q,
                    p,
                    b,
                )] == data@[src_pixel_idx(
                    img_width as int,
                    bounds.x as int,
                    bounds.y as int,
                    q,
                    p,
                    b,
                )]
        },
{
    if bounds.x < 0 || bounds.y < 0 {
        return Err(String::from_str("Negative coordinates not supported"));
    }
    let x = bounds.x as u32;
    let y = bounds.y as u32;
    let cw: u32 = if x >= img_width {
        0
    } else if bounds.width <= img_width - x {
        bounds.width
    } else {
        img_width - x
    };
    let ch: u32 = if y >= img_height {
        0
    } else if bounds.height <= img_height - y {
        bounds.height
    } else {
        img_height - y
    };
    if cw == 0 || ch == 0 {
        return Err(String::from_str("Invalid crop dimensions"));
    }
    let w = img_width;
    let h = img_height;
    let _dlen: usize = data.len();
    proof {
        assert(data@.len() <= usize::MAX);
    }
    proof {
        lemma_mul_inequality(ch as int, h as int, cw as int);
        lemma_mul_inequality(h as int, h as int, cw as int);
        lemma_mul_inequality(cw as int, w as int, h as int);
        lemma_mul_is_commutative(h as int, cw as int);
        lemma_mul_is_commutative(w as int, h as int);
        assert(ch * cw <= h * w) by (nonlinear_arith)
            requires
                ch <= h,
                cw <= w,
                0 <= ch,
                0 <= cw,
                0 <= h,
                0 <= w,
        ;
    }
    let mut out: Vec<u8> = Vec::new();
    let mut py: u32 = 0;
    while py < ch
        invariant
            0 <= py <= ch,
            0 < cw <= w,
            0 < ch <= h,
            x + cw <= w,
            y + ch <= h,
            ch * cw <= h * w,
            data@.len() == 4 * w * h,
            data@.len() <= usize::MAX,
            out@.len() == 4 * (py * cw),
            forall|q: int, p: int, b: int|
                0 <= q < py && 0 <= p < cw && 0 <= b < 4 ==> out@[#[trigger] out_pixel_idx(
                    cw as int,
                    q,
                    p,
                    b,
                )] == data@[src_pixel_idx(w as int, x as int, y as int, q, p, b)],
        decreases ch - py,
    {
        let mut px: u32 = 0;
        proof {
            assert(py * cw + 0 == py * cw);
        }
        while px < cw
            invariant
                0 <= px <= cw,
                0 <= py < ch,
                0 < cw <= w,
                0 < ch <= h,
                x + cw <= w,
                y + ch <= h,
                ch * cw <= h * w,
                data@.len() == 4 * w * h,
                data@.len() <= usize::MAX,
                out@.len() == 4 * (py * cw + px),
                forall|q: int, p: int, b: int|
                    0 <= q < py && 0 <= p < cw && 0 <= b < 4 ==> out@[#[trigger] out_pixel_idx(
                        cw as int,
                        q,
                        p,
                        b,
                    )] == data@[src_pixel_idx(w as int, x as int, y as int, q, p, b)],
                forall|p: int, b: int|
                    0 <= p < px && 0 <= b < 4 ==> out@[#[trigger] out_pixel_idx(
                        cw as int,
                        py as int,
                        p,
                        b,
                    )] == data@[src_pixel_idx(w as int, x as int, y as int, py as int, p, b)],
            decreases cw - px,
        {
            proof {
                // The source byte position stays inside the image buffer.
                assert((y + py) * w <= (h - 1) * w) by (nonlinear_arith)
                    requires
                        y + py <= h - 1,
                        0 <= w,
                        0 <= y,
                        0 <= py,
                ;
                assert((h - 1) * w + w == h * w) by (nonlinear_arith);
                assert(h * w == w * h) by (nonlinear_arith);
                assert((y + py) * w + (x + px) < w * h);
                assert(w * h >= 0) by (nonlinear_arith)
                    requires
                        0 <= w,
                        0 <= h,
                ;
                assert(4 * (w * h) == 4 * w * h) by (nonlinear_arith);
                assert(4 * ((y + py) * w + (x + px)) + 3 < 4 * w * h);
                // The output grows within its final size.
                assert(py * cw + px < ch * cw) by (nonlinear_arith)
                    requires
                        0 <= py < ch,
                        0 <= px < cw,
                        0 < cw,
                ;
            }
            let row: u32 = y + py;
            let col: u32 = x + px;
            proof {
                assert(row * w == (y + py) * w);
                assert(row as usize as int * (w as usize as int) < w * h);
                assert(4 * w * h <= usize::MAX);
                assert(w * h <= 4 * (w * h));
                assert(w * h <= usize::MAX);
            }
            let row_base: usize = (row as usize) * (w as usize);
            let cell: usize = row_base + (col as usize);
            let src_base: usize = 4 * cell;
            let b0 = data[src_base];
            let b1 = data[src_base + 1];
            let b2 = data[src_base + 2];
            let b3 = data[src_base + 3];
            let ghost old_out = out@;
            out.push(b0);
            out.push(b1);
            out.push(b2);
            out.push(b3);
            proof {
                assert(out@.len() == 4 * (py * cw + px) + 4);
                assert(4 * (py * cw + px as int + 1) == 4 * (py * cw + px) + 4);
                assert forall|p: int, b: int|
                    0 <= p < px + 1 && 0 <= b < 4 implies out@[#[trigger] out_pixel_idx(
                    cw as int,
                    py as int,
                    p,
                    b,
                )] == data@[src_pixel_idx(w as int, x as int, y as int, py as int, p, b)] by {
                    if p < px {
                        assert(out_pixel_idx(cw as int, py as int, p, b) < old_out.len());
                        assert(out@[out_pixel_idx(cw as int, py as int, p, b)] == old_out[
                            out_pixel_idx(cw as int, py as int, p, b)]);
                    } else {
                        assert(out_pixel_idx(cw as int, py as int, p, b) == old_out.len() + b);
                        assert(src_pixel_idx(w as int, x as int, y as int, py as int, p, b)
                            == src_base + b);
                    }
                }
                assert forall|q: int, p: int, b: int|
                    0 <= q < py && 0 <= p < cw && 0 <= b < 4 implies out@[#[trigger] out_pixel_idx(
                    cw as int,
                    q,
                    p,
                    b,
                )] == data@[src_pixel_idx(w as int, x as int, y as int, q, p, b)] by {
                    assert(out_pixel_idx(cw as int, q, p, b) < 4 * (py * cw)) by (nonlinear_arith)
                        requires
                            0 <= q < py,
                            0 <= p < cw,
                            0 <= b < 4,
                            0 < cw,
                    ;
                    assert(out@[out_pixel_idx(cw as int, q, p, b)] == old_out[out_pixel_idx(
                        cw as int,
                        q,
                        p,
                        b,
                    )]);
                }
            }
            px += 1;
        }
        proof {
            assert(4 * (py * cw + cw as int) == 4 * ((py as int + 1) * cw)) by (nonlinear_arith);
            assert forall|q: int, p: int, b: int|
                0 <= q < py + 1 && 0 <= p < cw && 0 <= b < 4 implies out@[#[trigger] out_pixel_idx(
                cw as int,
                q,
                p,
                b,
            )] == data@[src_pixel_idx(w as int, x as int, y as int, q, p, b)] by {
                if q < py {
                } else {
                    assert(q == py as int);
                }
            }
        }
        py += 1;
    }
    proof {
        assert(py == ch);
        assert(out@.len() == 4 * (ch * cw));
        assert(4 * ((ch as int) * (cw as int)) == 4 * ch * cw) by (nonlinear_arith);
    }
    Ok((cw, ch, out))
}

/// What image's PNG encoder produces for an RGBA buffer of the given
/// dimensions. A function of dimensions and pixels alone.
pub uninterp spec fn png_of(width: u32, height: u32, rgba: Seq<u8>) -> Seq<u8>;

/// Relies on screenshots' `Screen::all`: enumerate the connected displays
/// with their absolute origins and pixel sizes. What it returns depends on
/// the machine's display state, so nothing is promised of the list.
#[verifier::external_body]
pub(crate) fn list_monitors() -> (r: Result<Vec<MonitorInfo>, String>)
{
    let screens = screenshots::Screen::all().map_err(|e| format!("{}", e))?;
    Ok(screens
        .iter()
        .map(|s| MonitorInfo {
            id: s.display_info.id,
            x: s.display_info.x,
            y: s.display_info.y,
            width: s.display_info.width,
            height: s.display_info.height,
        })
        .collect())
}

/// Relies on screenshots' `Screen::capture`: read the whole screen at this
/// position of the enumeration and hand back the image's dimensions and raw
/// RGBA bytes. The pixels depend on what is on screen; nothing is promised.
#[verifier::external_body]
pub(crate) fn read_screen_rgba(screen_index: usize) -> (r: Result<(u32, u32, Vec<u8>), String>)
{
    let screens = screenshots::Screen::all().map_err(|e| format!("{}", e))?;
    let screen = screens.get(screen_index).ok_or_else(|| "screen index out of range".to_string())?;
    let img = screen.capture().map_err(|e| format!("{}", e))?;
    Ok((img.width(), img.height(), img.into_raw()))
}

/// Relies on screenshots' `Screen::capture_area`: read the given
/// monitor-local region of the screen at this position of the enumeration.
/// The pixels depend on what is on screen; nothing is promised of them. The
/// backend adds the region to the display origin in unchecked i32
/// arithmetic, so the region is required to sit in the nonnegative signed
/// range — which every clamped rectangle the resolver produces does.
#[verifier::external_body]
pub(crate) fn read_screen_area_rgba(
    screen_index: usize,
    x: i32,
    y: i32,
    width: u32,
    height: u32,
) -> (r: Result<(u32, u32, Vec<u8>), String>)
    requires
        x >= 0,
        y >= 0,
        width <= i32::MAX,
        height <= i32::MAX,
        x + width <= i32::MAX,
        y + height <= i32::MAX,
{
    let screens = screenshots::Screen::all().map_err(|e| format!("{}", e))?;
    let screen = screens.get(screen_index).ok_or_else(|| "screen index out of range".to_string())?;
    let img = screen.capture_area(x, y, width, height).map_err(|e| format!("{}", e))?;
    Ok((img.width(), img.height(), img.into_raw()))
}

/// Relies on image's PNG encoder (`DynamicImage::write_to` with the PNG
/// format): encode an RGBA buffer of exactly `4 * width * height` bytes as a
/// PNG byte stream, a function of dimensions and pixels alone. With the
/// buffer length pinned by the precondition, the encoder fails exactly on a
/// zero dimension: writing goes to an in-memory vector, which cannot fail.
#[verifier::external_body]
pub(crate) fn png_from_rgba(width: u32, height: u32, rgba: &Vec<u8>) -> (r: Result<
    Vec<u8>,
    String,
>)
    requires
        rgba@.len() == 4 * width * height,
    ensures
        (r is Ok) <==> (width > 0 && height > 0),
        r matches Ok(v) ==> v@ == png_of(width, height, rgba@),
{
    let img = image::RgbaImage::from_raw(width, height, rgba.clone())
        .ok_or_else(|| "RGBA buffer size mismatch".to_string())?;
    let dynamic_image = image::DynamicImage::ImageRgba8(img);
    let mut buf: Vec<u8> = Vec::new();
    let mut cursor = std::io::Cursor::new(&mut buf);
    dynamic_image
        .write_to(&mut cursor, image::ImageFormat::Png)
        .map_err(|e| format!("{}", e))?;
    Ok(buf)
}

/// An error message built from a fixed prefix and the backend's own text.
fn with_prefix(prefix: &str, detail: &str) -> (r: String)
    ensures
        r@ == prefix@ + detail@,
{
    let mut s = String::from_str(prefix);
    s.append(detail);
    s
}

/// Whether a byte length is exactly the RGBA size of the given dimensions.
pub(crate) fn rgba_len_matches(len: usize, w: u32, h: u32) -> (r: bool)
    ensures
        r == (len == 4 * w * h),
{
    proof {
        assert(4 * (w as int) * (h as int) < u128::MAX) by (nonlinear_arith)
            requires
                w <= u32::MAX,
                h <= u32::MAX,
        ;
    }
    (len as u128) == 4u128 * (w as u128) * (h as u128)
}

/// Whether every enumerated monitor fits the signed 32-bit coordinate range.
pub fn monitors_all_valid(mons: &Vec<MonitorInfo>) -> (r: bool)
    ensures
        r == crate::geometry::monitors_valid(mons@),
{
    let n = mons.len();
    let mut i: usize = 0;
    while i < n
        invariant
            0 <= i <= n,
            n == mons@.len(),
            forall|k: int| 0 <= k < i ==> (#[trigger] mons@[k]).valid(),
        decreases n - i,
    {
        let m = mons[i];
        let ok = m.width <= i32::MAX as u32 && m.height <= i32::MAX as u32 && (m.x as i64) + (
        m.width as i64) <= i32::MAX as i64 && (m.y as i64) + (m.height as i64) <= i32::MAX as i64;
        if !ok {
            return false;
        }
        i += 1;
    }
    true
}

/// One screen as reported to the application layer: its position in the
/// enumeration, pixel size, and whether it is treated as primary (the first
/// in enumeration order; no OS-reported primary flag is consulted).
#[derive(Clone, Copy, Debug, PartialEq, Eq, Structural)]
pub struct ScreenInfo {
    pub id: u32,
    pub width: u32,
    pub height: u32,
    pub is_primary: bool,
}

/// A finished region capture: the encoded payload, the rectangle it answers,
/// and when it was produced (seconds since the epoch, supplied by the
/// caller's clock).
#[derive(Clone, Debug)]
pub struct CaptureResult {
    pub image_data: String,
    pub bounds: CaptureBounds,
    pub timestamp: u64,
}

/// Screen reading and encoding against the first enumerated screen.
pub struct ScreenCapture;

impl ScreenCapture {
    pub fn new() -> (r: Self) {
        ScreenCapture
    }

    /// Encode an RGBA buffer as the self-describing PNG data URI payload.
    /// Succeeds for every image with nonzero dimensions whose encoded stream
    /// the base64 engine can represent; fails on an empty axis.
    pub fn encode_rgba_to_base64(width: u32, height: u32, rgba: &Vec<u8>) -> (r: Result<
        String,
        String,
    >)
        requires
            rgba@.len() == 4 * width * height,
        ensures
            r matches Ok(p) ==> p@ == spec_data_uri(png_of(width, height, rgba@)),
            width == 0 || height == 0 ==> r is Err,
            width > 0 && height > 0 && png_of(width, height, rgba@).len() <= usize::MAX / 4
                ==> r is Ok,
    {
        match png_from_rgba(width, height, rgba) {
            Ok(png) => {
                if png.len() > usize::MAX / 4 {
                    return Err(String::from_str("Failed to encode PNG: output too large"));
                }
                Ok(encode_png_data_uri(&png))
            },
            Err(e) => Err(with_prefix("Failed to encode PNG: ", e.as_str())),
        }
    }

    /// Take a screenshot of the whole first screen and encode it. On success
    /// the payload is a well-formed PNG data URI.
    pub fn capture_fullscreen() -> (r: Result<String, String>)
        ensures
            r matches Ok(p) ==> exists|pw: u32, ph: u32, pix: Seq<u8>|
                pix.len() == 4 * pw * ph && p@ == spec_data_uri(#[trigger] png_of(pw, ph, pix)),
    {
        let mons = match list_monitors() {
            Ok(m) => m,
            Err(e) => {
                return Err(with_prefix("Failed to get screens: ", e.as_str()));
            },
        };
        if mons.len() == 0 {
            return Err(String::from_str("No screens found"));
        }
        let (w, h, rgba) = match read_screen_rgba(0) {
            Ok(t) => t,
            Err(e) => {
                return Err(with_prefix("Failed to capture screen: ", e.as_str()));
            },
        };
        if !rgba_len_matches(rgba.len(), w, h) {
            return Err(String::from_str("Failed to create RGBA image from screenshot"));
        }
        match Self::encode_rgba_to_base64(w, h, &rgba) {
            Ok(p) => {
                proof {
                    assert(pixels_fit(w, h, rgba@));
                }
                Ok(p)
            },
            Err(e) => Err(e),
        }
    }

    /// Capture the first screen, crop to the requested bounds, and encode.
    /// The result carries the bounds verbatim and the caller's timestamp;
    /// negative origins are always rejected.
    pub fn capture_region(bounds: CaptureBounds, timestamp: u64) -> (r: Result<
        CaptureResult,
        String,
    >)
        ensures
            bounds.x < 0 || bounds.y < 0 ==> r is Err,
            r matches Ok(cr) ==> {
                &&& cr.bounds == bounds
                &&& cr.timestamp == timestamp
                &&& exists|pw: u32, ph: u32, pix: Seq<u8>|
                    pix.len() == 4 * pw * ph && cr.image_data@ == spec_data_uri(
                        #[trigger] png_of(pw, ph, pix),
                    )
            },
    {
        let mons = match list_monitors() {
            Ok(m) => m,
            Err(e) => {
                return Err(with_prefix("Failed to get screens: ", e.as_str()));
            },
        };
        if mons.len() == 0 {
            return Err(String::from_str("No screens found"));
        }
        let (w, h, rgba) = match read_screen_rgba(0) {
            Ok(t) => t,
            Err(e) => {
                return Err(with_prefix("Failed to capture screen: ", e.as_str()));
            },
        };
        if !rgba_len_matches(rgba.len(), w, h) {
            return Err(String::from_str("Failed to create RGBA image from screenshot"));
        }
        let (cw, ch, cropped) = match crop_rgba(&rgba, w, h, &bounds) {
            Ok(t) => t,
            Err(e) => {
                return Err(e);
            },
        };
        proof {
            crate::capture::lemma_crop_len(cw, ch, cropped@.len());
        }
        match Self::encode_rgba_to_base64(cw, ch, &cropped) {
            Ok(p) => {
                proof {
                    assert(pixels_fit(cw, ch, cropped@));
                }
                Ok(CaptureResult { image_data: p, bounds, timestamp })
            },
            Err(e) => Err(e),
        }
    }

    /// Describe every connected screen: one entry per monitor, in index
    /// order, the first marked primary. An empty enumeration is a failure,
    /// never an empty success.
    pub fn get_screen_info() -> (r: Result<Vec<ScreenInfo>, String>)
        ensures
            r matches Ok(v) ==> {
                &&& v@.len() >= 1
                &&& forall|k: int|
                    0 <= k < v@.len() ==> ((#[trigger] v@[k]).id == k as u32 && (v@[k].is_primary
                        <==> k == 0))
            },
    {
        let mons = match list_monitors() {
            Ok(m) => m,
            Err(e) => {
                return Err(with_prefix("Failed to get screens: ", e.as_str()));
            },
        };
        if mons.len() == 0 {
            return Err(String::from_str("No screens available"));
        }
        Ok(screen_infos_of(&mons))
    }

    /// Compute the bounding box of all connected screens. On success the
    /// area's size equals the extent between its two corners.
    pub fn get_total_screen_area() -> (r: Result<crate::geometry::TotalScreenArea, String>)
        ensures
            r matches Ok(a) ==> {
                &&& a.width == a.max_x - a.min_x
                &&& a.height == a.max_y - a.min_y
                &&& a.min_x <= a.max_x
                &&& a.min_y <= a.max_y
            },
    {
        let mons = match list_monitors() {
            Ok(m) => m,
            Err(e) => {
                return Err(with_prefix("Failed to get screens: ", e.as_str()));
            },
        };
        if mons.len() == 0 {
            return Err(String::from_str("No screens found"));
        }
        if !monitors_all_valid(&mons) {
            return Err(String::from_str("Screen bounds exceed the supported coordinate range"));
        }
        match crate::geometry::compute_total_area(&mons) {
            Ok(a) => {
                proof {
                    let ms = mons@;
                    let i = choose|i: int| 0 <= i < ms.len() && (#[trigger] ms[i]).x == a.min_x;
                    assert(ms[i].x + ms[i].width <= a.max_x);
                    let j = choose|j: int| 0 <= j < ms.len() && (#[trigger] ms[j]).y == a.min_y;
                    assert(ms[j].y + ms[j].height <= a.max_y);
                }
                Ok(a)
            },
            Err(_) => Err(String::from_str("No screens found")),
        }
    }
}

/// Helper predicate for the capture contracts: the buffer holds exactly the
/// pixels of an image of the given dimensions.
pub open spec fn pixels_fit(w: u32, h: u32, pix: Seq<u8>) -> bool {
    pix.len() == 4 * w * h
}

/// The cropped buffer's length is the pixel count of its dimensions.
pub proof fn lemma_crop_len(cw: u32, ch: u32, len: nat)
    requires
        len == 4 * ch * cw,
    ensures
        len == 4 * cw * ch,
{
    assert(4 * ch * cw == 4 * cw * ch) by (nonlinear_arith);
}

/// Build the per-screen descriptions for an enumeration: one entry per
/// monitor, sizes copied verbatim, ids in enumeration order, and the first
/// screen treated as primary (no OS-reported primary flag is consulted).
pub fn screen_infos_of(mons: &Vec<MonitorInfo>) -> (v: Vec<ScreenInfo>)
    ensures
        v@.len() == mons@.len(),
        forall|k: int|
            0 <= k < v@.len() ==> {
                let si = #[trigger] v@[k];
                &&& si.id == k as u32
                &&& si.width == mons@[k].width
                &&& si.height == mons@[k].height
                &&& (si.is_primary <==> k == 0)
            },
{
    let n = mons.len();
    let mut v: Vec<ScreenInfo> = Vec::new();
    let mut i: usize = 0;
    while i < n
        invariant
            0 <= i <= n,
            n == mons@.len(),
            v@.len() == i,
            forall|k: int|
                0 <= k < i ==> {
                    let si = #[trigger] v@[k];
                    &&& si.id == k as u32
                    &&& si.width == mons@[k].width
                    &&& si.height == mons@[k].height
                    &&& (si.is_primary <==> k == 0)
                },
        decreases n - i,
    {
        let m = mons[i];
        let id: u32 = #[verifier::truncate] (i as u32);
        v.push(ScreenInfo { id, width: m.width, height: m.height, is_primary: i == 0 });
        i += 1;
    }
    v
}

/// The quadrant shortcuts: quick selection of one quarter (or the centre) of
/// the first screen.
#[derive(Debug, Clone, PartialEq, Eq, Structural)]
pub enum ScreenQuadrant {
    TopLeft,
    TopRight,
    BottomLeft,
    BottomRight,
    Center,
}

impl ScreenQuadrant {
    /// The quadrant's display name.
    pub fn name(&self) -> (s: &'static str)
        ensures
            *self == ScreenQuadrant::TopLeft ==> s@ == "top-left"@,
            *self == ScreenQuadrant::TopRight ==> s@ == "top-right"@,
            *self == ScreenQuadrant::BottomLeft ==> s@ == "bottom-left"@,
            *self == ScreenQuadrant::BottomRight ==> s@ == "bottom-right"@,
            *self == ScreenQuadrant::Center ==> s@ == "center"@,
    {
        match self {
            ScreenQuadrant::TopLeft => "top-left",
            ScreenQuadrant::TopRight => "top-right",
            ScreenQuadrant::BottomLeft => "bottom-left",
            ScreenQuadrant::BottomRight => "bottom-right",
            ScreenQuadrant::Center => "center",
        }
    }

    /// The capture rectangle this quadrant selects on a screen of the given
    /// size: half the screen on each axis, anchored per quadrant (the centre
    /// variant anchored at a quarter of the screen).
    pub fn bounds_for(&self, screen_width: u32, screen_height: u32) -> (b: CaptureBounds)
        ensures
            b.width == screen_width / 2,
            b.height == screen_height / 2,
            *self == ScreenQuadrant::TopLeft ==> b.x == 0 && b.y == 0,
            *self == ScreenQuadrant::TopRight ==> b.x == screen_width / 2 && b.y == 0,
            *self == ScreenQuadrant::BottomLeft ==> b.x == 0 && b.y == screen_height / 2,
            *self == ScreenQuadrant::BottomRight ==> b.x == screen_width / 2 && b.y
                == screen_height / 2,
            *self == ScreenQuadrant::Center ==> b.x == screen_width / 4 && b.y == screen_height
                / 4,
    {
        let half_width = screen_width / 2;
        let half_height = screen_height / 2;
        match self {
            ScreenQuadrant::TopLeft => CaptureBounds {
                x: 0,
                y: 0,
                width: half_width,
                height: half_height,
            },
            ScreenQuadrant::TopRight => CaptureBounds {
                x: half_width as i32,
                y: 0,
                width: half_width,
                height: half_height,
            },
            ScreenQuadrant::BottomLeft => CaptureBounds {
                x: 0,
                y: half_height as i32,
                width: half_width,
                height: half_height,
            },
            ScreenQuadrant::BottomRight => CaptureBounds {
                x: half_width as i32,
                y: half_height as i32,
                width: half_width,
                height: half_height,
            },
            ScreenQuadrant::Center => CaptureBounds {
                x: (half_width / 2) as i32,
                y: (half_height / 2) as i32,
                width: half_width,
                height: half_height,
            },
        }
    }
}

} // verus!
