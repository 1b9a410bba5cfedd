//! The OCR service stub: it validates that a payload holds a decodable
//! image of a usable size. Text recognition itself is disabled in this
//! build, so the report carries a fixed notice and no recognized text.

use vstd::prelude::*;
use vstd::string::StringExecFns;
use vstd::string::StrSliceExecFns;
use crate::auth::str_eq;
use crate::encode::{base64_decode, base64_decode_of};

verus! {

/// What the OCR pass reports: the recognized text and whether any was found.
#[derive(Clone, Debug)]
pub struct OcrReport {
    pub text: String,
    pub has_text: bool,
}

/// What image's `load_from_memory` sees in a byte stream: `Some` with the
/// decoded image's dimensions when the bytes decode, `None` otherwise. A
/// function of the bytes alone.
pub uninterp spec fn decoded_dims(bytes: Seq<u8>) -> Option<(u32, u32)>;

/// Relies on image's `load_from_memory` and `dimensions`: decode an image
/// from bytes and report its pixel dimensions; the error case carries the
/// decoder's message.
#[verifier::external_body]
fn load_image_dims(bytes: &Vec<u8>) -> (r: Result<(u32, u32), String>)
    ensures
        r is Ok <==> decoded_dims(bytes@) is Some,
        r matches Ok(d) ==> decoded_dims(bytes@) == Some(d),
{
    let img = image::load_from_memory(bytes).map_err(|e| format!("{}", e))?;
    let (w, h) = image::GenericImageView::dimensions(&img);
    Ok((w, h))
}

/// The position of the first comma, or -1 when there is none.
pub open spec fn find_comma(s: Seq<char>) -> int
    decreases s.len(),
{
    if s.len() == 0 {
        -1
    } else if s[0] == ',' {
        0
    } else {
        let r = find_comma(s.skip(1));
        if r == -1 {
            -1
        } else {
            r + 1
        }
    }
}

/// The part of a payload handed to the base64 decoder: for a `data:image`
/// payload, everything after the first comma (or the whole payload when no
/// comma exists); any other payload is taken whole.
pub open spec fn base64_portion(s: Seq<char>) -> Seq<char> {
    if s.len() >= 10 && s.subrange(0, 10) == "data:image"@ {
        let c = find_comma(s);
        if c >= 0 {
            s.subrange(c + 1, s.len() as int)
        } else {
            s
        }
    } else {
        s
    }
}

proof fn lemma_find_comma_at(s: Seq<char>, i: int)
    requires
        0 <= i < s.len(),
        s[i] == ',',
        forall|j: int| 0 <= j < i ==> s[j] != ',',
    ensures
        find_comma(s) == i,
    decreases s.len(),
{
    if i > 0 {
        assert(s[0] != ',');
        assert forall|j: int| 0 <= j < i - 1 implies s.skip(1)[j] != ',' by {
            assert(s.skip(1)[j] == s[j + 1]);
        }
        assert(s.skip(1)[i - 1] == s[i]);
        lemma_find_comma_at(s.skip(1), i - 1);
    }
}

proof fn lemma_find_comma_none(s: Seq<char>)
    requires
        forall|j: int| 0 <= j < s.len() ==> s[j] != ',',
    ensures
        find_comma(s) == -1,
    decreases s.len(),
{
    if s.len() > 0 {
        assert forall|j: int| 0 <= j < s.skip(1).len() implies s.skip(1)[j] != ',' by {
            assert(s.skip(1)[j] == s[j + 1]);
        }
        lemma_find_comma_none(s.skip(1));
    }
}

/// One decimal digit as text.
pub open spec fn dec_digit(d: int) -> Seq<char> {
    if d == 0 {
        "0"@
    } else if d == 1 {
        "1"@
    } else if d == 2 {
        "2"@
    } else if d == 3 {
        "3"@
    } else if d == 4 {
        "4"@
    } else if d == 5 {
        "5"@
    } else if d == 6 {
        "6"@
    } else if d == 7 {
        "7"@
    } else if d == 8 {
        "8"@
    } else {
        "9"@
    }
}

/// A nonnegative number in decimal, most significant digit first.
pub open spec fn dec_str(n: int) -> Seq<char>
    decreases n,
{
    if n < 10 {
        dec_digit(n)
    } else {
        dec_str(n / 10) + dec_digit(n % 10)
    }
}

fn digit_str(d: u32) -> (r: String)
    requires
        d < 10,
    ensures
        r@ == dec_digit(d as int),
{
    if d == 0 {
        String::from_str("0")
    } else if d == 1 {
        String::from_str("1")
    } else if d == 2 {
        String::from_str("2")
    } else if d == 3 {
        String::from_str("3")
    } else if d == 4 {
        String::from_str("4")
    } else if d == 5 {
        String::from_str("5")
    } else if d == 6 {
        String::from_str("6")
    } else if d == 7 {
        String::from_str("7")
    } else if d == 8 {
        String::from_str("8")
    } else {
        String::from_str("9")
    }
}

/// A number rendered in decimal.
pub fn u32_to_dec(n: u32) -> (r: String)
    ensures
        r@ == dec_str(n as int),
    decreases n,
{
    if n < 10 {
        digit_str(n)
    } else {
        let mut s = u32_to_dec(n / 10);
        let tail = digit_str(n % 10);
        s.append(tail.as_str());
        s
    }
}

/// Scan for the first comma.
fn find_comma_exec(s: &str) -> (r: Option<usize>)
    ensures
        match r {
            Option::Some(c) => c < s@.len() && find_comma(s@) == c,
            Option::None => find_comma(s@) == -1,
        },
{
    let len = s.unicode_len();
    let mut i: usize = 0;
    while i < len
        invariant
            0 <= i <= len,
            len == s@.len(),
            forall|j: int| 0 <= j < i ==> s@[j] != ',',
        decreases len - i,
    {
        if s.get_char(i) == ',' {
            proof {
                lemma_find_comma_at(s@, i as int);
            }
            return Some(i);
        }
        i += 1;
    }
    proof {
        lemma_find_comma_none(s@);
    }
    None
}

/// The notice the stub reports instead of recognized text.
pub open spec fn disabled_notice() -> Seq<char> {
    "OCR functionality temporarily disabled for this build"@
}

/// The message reported when the decoded image is below the usable size.
pub open spec fn too_small_message(w: u32, h: u32) -> Seq<char> {
    "Image too small for OCR: "@ + dec_str(w as int) + "x"@ + dec_str(h as int) + " pixels"@
}

/// The OCR service handle.
pub struct OCRService;

impl OCRService {
    /// The stub initializes unconditionally.
    pub fn new() -> (r: Result<OCRService, String>)
        ensures
            r is Ok,
    {
        Ok(OCRService)
    }

    /// Validate an image payload: strip a `data:image` prefix up to the
    /// first comma, decode the base64 text, decode the image, and require
    /// at least ten pixels on each axis. Succeeds exactly when all three
    /// steps do, and then reports the fixed disabled-notice with no text.
    pub fn extract_text(&self, image_data: &str) -> (r: Result<OcrReport, String>)
        ensures
            r is Ok <==> (match base64_decode_of(base64_portion(image_data@)) {
                Option::Some(b) => match decoded_dims(b) {
                    Option::Some(d) => d.0 >= 10 && d.1 >= 10,
                    Option::None => false,
                },
                Option::None => false,
            }),
            r matches Ok(rep) ==> rep.text@ == disabled_notice() && !rep.has_text,
            (match base64_decode_of(base64_portion(image_data@)) {
                Option::Some(b) => match decoded_dims(b) {
                    Option::Some(d) => d.0 < 10 || d.1 < 10,
                    Option::None => false,
                },
                Option::None => false,
            }) ==> (r matches Err(e) && exists|d: (u32, u32)|
                decoded_dims(base64_decode_of(base64_portion(image_data@)).unwrap()) == Some(d)
                    && e@ == #[trigger] too_small_message(d.0, d.1)),
    {
        let len = image_data.unicode_len();
        let is_data_uri = if len >= 10 {
            let prefix = image_data.substring_char(0, 10);
            str_eq(prefix, "data:image")
        } else {
            false
        };
        let ghost s = image_data@;
        let base64_data: &str = if is_data_uri {
            // Take the part after the first comma, or the whole payload
            // when no comma exists.
            match find_comma_exec(image_data) {
                Some(c) => image_data.substring_char(c + 1, len),
                None => image_data,
            }
        } else {
            image_data
        };
        proof {
            assert(base64_data@ == base64_portion(s));
        }
        let image_bytes = match base64_decode(base64_data) {
            Ok(b) => b,
            Err(e) => {
                let mut msg = String::from_str("Failed to decode image: ");
                msg.append(e.as_str());
                return Err(msg);
            },
        };
        let (width, height) = match load_image_dims(&image_bytes) {
            Ok(d) => d,
            Err(e) => {
                let mut msg = String::from_str("Failed to load image: ");
                msg.append(e.as_str());
                return Err(msg);
            },
        };
        if width < 10 || height < 10 {
            let mut msg = String::from_str("Image too small for OCR: ");
            let ws = u32_to_dec(width);
            msg.append(ws.as_str());
            msg.append("x");
            let hs = u32_to_dec(height);
            msg.append(hs.as_str());
            msg.append(" pixels");
            proof {
                assert(msg@ == too_small_message(width, height));
            }
            return Err(msg);
        }
        Ok(
            OcrReport {
                text: String::from_str("OCR functionality temporarily disabled for this build"),
                has_text: false,
            },
        )
    }
}

} // verus!
