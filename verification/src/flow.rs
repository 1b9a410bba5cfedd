//! The optimized capture path: probe the cache, refresh the screen-geometry
//! snapshot, resolve the rectangle onto a monitor, read and encode the
//! pixels, and store the payload — the cache's sole capture entry point.

use vstd::prelude::*;
use crate::cache::{
    ScreenshotCache, drop_stale_key, insert_spec, lookup_fresh, payloads_shaped,
};
use crate::capture::{
    list_monitors, monitors_all_valid, png_from_rgba, png_of, read_screen_area_rgba,
    rgba_len_matches,
};
use crate::encode::{encode_png_data_uri, is_data_uri_payload, spec_data_uri};
use crate::errors::CaptureError;
use crate::geometry::{CaptureBounds, compute_total_area};
use crate::resolve::{resolve, resolve_single_fallback};

verus! {

impl ScreenshotCache {
    /// Capture with caching: an exact, fresh cache hit answers from memory
    /// with the stored payload and leaves every part of the state untouched;
    /// otherwise one capture is attempted, and on success its payload is
    /// stored under the requested rectangle (evicting oldest-first past the
    /// byte budget) and also held in the reusable encode buffer.
    pub fn capture_optimized(&mut self, bounds: CaptureBounds, now_ms: u64) -> (r: Result<
        String,
        CaptureError,
    >)
        requires
            old(self).wf(),
            old(self).time_ok(now_ms),
        ensures
            final(self).wf(),
            final(self).time_ok(now_ms),
            final(self).max_bytes() == old(self).max_bytes(),
            final(self).ttl_ms() == old(self).ttl_ms(),
            match lookup_fresh(old(self).entries_seq(), bounds, now_ms, old(self).ttl_ms()) {
                Option::Some(p) => {
                    &&& r == Ok::<String, CaptureError>(p)
                    &&& final(self).entries_seq() == old(self).entries_seq()
                    &&& final(self).buffer() == old(self).buffer()
                    &&& final(self).geom() == old(self).geom()
                },
                Option::None => {
                    let probed = drop_stale_key(
                        old(self).entries_seq(),
                        bounds,
                        now_ms,
                        old(self).ttl_ms(),
                    );
                    &&& (r matches Ok(p) ==> {
                        &&& final(self).entries_seq() == insert_spec(
                            probed,
                            bounds,
                            p,
                            now_ms,
                            old(self).max_bytes(),
                        )
                        &&& p@ == spec_data_uri(final(self).buffer())
                    })
                    &&& (r is Err ==> final(self).entries_seq() == probed)
                    // The geometry snapshot is refreshed exactly when absent
                    // or past its own, longer freshness window.
                    &&& (!old(self).geom_stale_at(now_ms) ==> final(self).geom() == old(
                        self,
                    ).geom())
                    &&& (old(self).geom_stale_at(now_ms) && r is Ok ==> (final(self).geom()
                        matches Some(g) && g.cached_at == now_ms))
                    &&& (old(self).geom_stale_at(now_ms) && r is Err ==> final(self).geom()
                        == old(self).geom() || (final(self).geom() matches Some(g)
                        && g.cached_at == now_ms))
                },
            },
            // A cache that holds only well-formed image payloads keeps that
            // shape, and every payload it answers with has it.
            payloads_shaped(old(self).entries_seq()) ==> payloads_shaped(
                final(self).entries_seq(),
            ),
            payloads_shaped(old(self).entries_seq()) ==> (r matches Ok(p)
                ==> is_data_uri_payload(p@)),
    {
        match self.get_fresh(&bounds, now_ms) {
            Some(p) => {
                return Ok(p);
            },
            None => {},
        }
        if self.screen_geom_stale(now_ms) {
            let mons = match list_monitors() {
                Ok(m) => m,
                Err(_) => {
                    return Err(CaptureError::CaptureBackendFailure);
                },
            };
            if mons.len() == 0 {
                return Err(CaptureError::NoDisplays);
            }
            let m0 = mons[0];
            self.set_screen_geom(m0.width, m0.height, now_ms);
        }
        let payload = match self.capture_with_reused_buffer(&bounds) {
            Ok(p) => p,
            Err(e) => {
                return Err(e);
            },
        };
        proof {
            // The fresh payload is a data URI of the buffer's PNG bytes.
            assert(payload@ == spec_data_uri(self.buffer()));
            assert(is_data_uri_payload(payload@));
        }
        self.add_capture(bounds, payload.clone(), now_ms);
        Ok(payload)
    }

    /// The multi-screen capture: compute the virtual desktop, resolve the
    /// rectangle to the first usable monitor, read that region, encode it as
    /// a PNG data URI and keep the PNG bytes in the reusable buffer. When
    /// the topology cannot be enumerated, fall back to the single-screen
    /// path. The cache entries are not touched.
    pub fn capture_with_reused_buffer(&mut self, bounds: &CaptureBounds) -> (r: Result<
        String,
        CaptureError,
    >)
        ensures
            final(self).entries_seq() == old(self).entries_seq(),
            final(self).geom() == old(self).geom(),
            final(self).max_bytes() == old(self).max_bytes(),
            final(self).ttl_ms() == old(self).ttl_ms(),
            r matches Ok(p) ==> p@ == spec_data_uri(final(self).buffer()),
            r matches Ok(p) ==> (exists|pw: u32, ph: u32, pix: Seq<u8>|
                pix.len() == 4 * pw * ph && final(self).buffer() == #[trigger] png_of(
                    pw,
                    ph,
                    pix,
                )),
            r is Err ==> final(self).buffer() == old(self).buffer(),
    {
        let mons = match list_monitors() {
            Ok(m) => m,
            Err(_) => {
                return self.capture_single_screen_fallback(bounds);
            },
        };
        if mons.len() == 0 {
            return self.capture_single_screen_fallback(bounds);
        }
        if !monitors_all_valid(&mons) {
            return Err(CaptureError::CaptureBackendFailure);
        }
        let area = match compute_total_area(&mons) {
            Ok(a) => a,
            Err(e) => {
                return Err(e);
            },
        };
        let rc = match resolve(bounds, &area, &mons) {
            Ok(rc) => rc,
            Err(e) => {
                return Err(e);
            },
        };
        proof {
            // The resolved region sits inside its (coordinate-valid)
            // monitor, which is what the screen-read wrapper asks for.
            let m = mons@[rc.screen_index as int];
            assert(m.valid());
            assert(rc.local.x + rc.local.width <= m.width);
            assert(rc.local.y + rc.local.height <= m.height);
        }
        let (w, h, rgba) = match read_screen_area_rgba(
            rc.screen_index,
            rc.local.x,
            rc.local.y,
            rc.local.width,
            rc.local.height,
        ) {
            Ok(t) => t,
            Err(_) => {
                return Err(CaptureError::CaptureBackendFailure);
            },
        };
        if !rgba_len_matches(rgba.len(), w, h) {
            return Err(CaptureError::CaptureBackendFailure);
        }
        let png = match png_from_rgba(w, h, &rgba) {
            Ok(p) => p,
            Err(_) => {
                return Err(CaptureError::EncodeFailure);
            },
        };
        if png.len() > usize::MAX / 4 {
            return Err(CaptureError::EncodeFailure);
        }
        self.store_in_buffer(&png);
        proof {
            assert(rgba@.len() == 4 * w * h);
            assert(final(self).buffer() == png_of(w, h, rgba@));
        }
        Ok(encode_png_data_uri(&png))
    }

    /// The single-screen fallback: clamp the raw rectangle against the first
    /// monitor's size with no translation, preserving capture capability
    /// when topology resolution fails. The cache entries are not touched.
    pub fn capture_single_screen_fallback(&mut self, bounds: &CaptureBounds) -> (r: Result<
        String,
        CaptureError,
    >)
        ensures
            final(self).entries_seq() == old(self).entries_seq(),
            final(self).geom() == old(self).geom(),
            final(self).max_bytes() == old(self).max_bytes(),
            final(self).ttl_ms() == old(self).ttl_ms(),
            r matches Ok(p) ==> p@ == spec_data_uri(final(self).buffer()),
            r matches Ok(p) ==> (exists|pw: u32, ph: u32, pix: Seq<u8>|
                pix.len() == 4 * pw * ph && final(self).buffer() == #[trigger] png_of(
                    pw,
                    ph,
                    pix,
                )),
            r is Err ==> final(self).buffer() == old(self).buffer(),
    {
        let mons = match list_monitors() {
            Ok(m) => m,
            Err(_) => {
                return Err(CaptureError::CaptureBackendFailure);
            },
        };
        if mons.len() == 0 {
            return Err(CaptureError::NoDisplays);
        }
        let m0 = mons[0];
        if !(m0.width <= i32::MAX as u32 && m0.height <= i32::MAX as u32) {
            return Err(CaptureError::CaptureBackendFailure);
        }
        let c = match resolve_single_fallback(bounds, m0.width, m0.height) {
            Ok(c) => c,
            Err(e) => {
                return Err(e);
            },
        };
        let (w, h, rgba) = match read_screen_area_rgba(0, c.x, c.y, c.width, c.height) {
            Ok(t) => t,
            Err(_) => {
                return Err(CaptureError::CaptureBackendFailure);
            },
        };
        if !rgba_len_matches(rgba.len(), w, h) {
            return Err(CaptureError::CaptureBackendFailure);
        }
        let png = match png_from_rgba(w, h, &rgba) {
            Ok(p) => p,
            Err(_) => {
                return Err(CaptureError::EncodeFailure);
            },
        };
        if png.len() > usize::MAX / 4 {
            return Err(CaptureError::EncodeFailure);
        }
        self.store_in_buffer(&png);
        proof {
            assert(rgba@.len() == 4 * w * h);
            assert(final(self).buffer() == png_of(w, h, rgba@));
        }
        Ok(encode_png_data_uri(&png))
    }
}

} // verus!
