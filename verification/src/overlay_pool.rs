//! The overlay window pool: one reusable full-desktop transparent surface,
//! created lazily once per process and then shown or hidden, never rebuilt.
//!
//! The pool is the decision half of the overlay lifecycle: it says whether
//! the environment must create the surface or re-show the existing one, and
//! records each completed transition. The windowing calls themselves live
//! outside the library; they report back through the `on_*` transitions.

use vstd::prelude::*;
use crate::geometry::{MonitorInfo, TotalScreenArea, compute_total_area, monitors_valid};

verus! {

/// Width assumed for the overlay when no monitor can be enumerated.
pub const FALLBACK_OVERLAY_WIDTH: u32 = 1920;

/// Height assumed for the overlay when no monitor can be enumerated.
pub const FALLBACK_OVERLAY_HEIGHT: u32 = 1080;

/// What the environment should do with the overlay surface on a show
/// request.
#[derive(Clone, Copy, Debug, PartialEq, Eq, Structural)]
pub enum ShowAction {
    /// No surface exists yet: build it, once, and report the handle back.
    CreateSurface,
    /// A surface exists: re-show and re-focus it rather than rebuilding.
    ReuseSurface(u64),
}

/// Placement and size for the overlay surface: the whole virtual desktop,
/// or a fixed single-screen fallback when no monitor is known.
#[derive(Clone, Copy, Debug, PartialEq, Eq, Structural)]
pub struct OverlayGeometry {
    pub x: i32,
    pub y: i32,
    pub width: u32,
    pub height: u32,
}

/// The pool state: the surface handle if one was ever created, how many
/// surfaces were created over the process lifetime, whether the surface is
/// currently shown, and when it was last used.
pub struct OverlayPool {
    surface: Option<u64>,
    created_count: u64,
    is_active: bool,
    last_used: Option<u64>,
}

impl OverlayPool {
    /// The surface handle, if one was created.
    pub closed spec fn surface_handle(self) -> Option<u64> {
        self.surface
    }

    /// How many surfaces were ever created.
    pub closed spec fn surfaces_created(self) -> int {
        self.created_count as int
    }

    /// Whether the surface is currently shown.
    pub closed spec fn active(self) -> bool {
        self.is_active
    }

    /// When the overlay was last shown, in caller-clock milliseconds.
    pub closed spec fn last_used_at(self) -> Option<u64> {
        self.last_used
    }

    /// The pool never creates more than one surface: the creation count is
    /// exactly one when a surface exists and zero before.
    pub open spec fn wf(self) -> bool {
        self.surfaces_created() == if self.surface_handle() is Some {
            1int
        } else {
            0int
        }
    }

    /// What `plan_show` decides for this state.
    pub open spec fn show_decision(self) -> ShowAction {
        match self.surface_handle() {
            Option::None => ShowAction::CreateSurface,
            Option::Some(h) => ShowAction::ReuseSurface(h),
        }
    }

    /// A fresh pool: no surface, never used.
    pub fn new() -> (r: OverlayPool)
        ensures
            r.wf(),
            r.surface_handle() is None,
            r.surfaces_created() == 0,
            !r.active(),
            r.last_used_at() is None,
    {
        OverlayPool { surface: None, created_count: 0, is_active: false, last_used: None }
    }

    /// Decide what a show request needs: construction on first use, reuse of
    /// the one existing surface ever after.
    pub fn plan_show(&self) -> (a: ShowAction)
        ensures
            a == self.show_decision(),
    {
        match self.surface {
            None => ShowAction::CreateSurface,
            Some(h) => ShowAction::ReuseSurface(h),
        }
    }

    /// Record that the environment constructed the surface. Only legal while
    /// no surface exists, so construction happens at most once per process.
    pub fn on_surface_created(&mut self, handle: u64, now_ms: u64)
        requires
            old(self).wf(),
            old(self).surface_handle() is None,
        ensures
            final(self).wf(),
            final(self).surface_handle() == Some(handle),
            final(self).surfaces_created() == old(self).surfaces_created() + 1,
            final(self).surfaces_created() == 1,
            final(self).active(),
            final(self).last_used_at() == Some(now_ms),
    {
        self.surface = Some(handle);
        self.created_count = self.created_count + 1;
        self.is_active = true;
        self.last_used = Some(now_ms);
    }

    /// Record that the existing surface was re-shown: the handle and the
    /// creation count are untouched.
    pub fn on_surface_shown(&mut self, now_ms: u64)
        requires
            old(self).surface_handle() is Some,
        ensures
            final(self).wf() == old(self).wf(),
            final(self).surface_handle() == old(self).surface_handle(),
            final(self).surfaces_created() == old(self).surfaces_created(),
            final(self).active(),
            final(self).last_used_at() == Some(now_ms),
    {
        self.is_active = true;
        self.last_used = Some(now_ms);
    }

    /// Record that the surface was hidden — not destroyed: the handle and
    /// the creation count are untouched, so the next show reuses it.
    pub fn on_surface_hidden(&mut self)
        ensures
            final(self).wf() == old(self).wf(),
            final(self).surface_handle() == old(self).surface_handle(),
            final(self).surfaces_created() == old(self).surfaces_created(),
            !final(self).active(),
            final(self).last_used_at() == old(self).last_used_at(),
    {
        self.is_active = false;
    }

    /// Whether the overlay is currently shown.
    pub fn is_overlay_active(&self) -> (r: bool)
        ensures
            r == self.active(),
    {
        self.is_active
    }
}

impl Default for OverlayPool {
    fn default() -> (r: OverlayPool)
        ensures
            r.wf(),
            r.surface_handle() is None,
            r.surfaces_created() == 0,
            !r.active(),
    {
        OverlayPool::new()
    }
}

/// Overlay reuse: once a surface exists, every further show request reuses
/// that same handle, and the number of surfaces ever created stays one for
/// the process lifetime. Together with `on_surface_created`'s precondition
/// (construction is only legal while no surface exists) this pins the pool
/// to at most one construction.
pub proof fn lemma_overlay_reuse(p: OverlayPool, h: u64)
    requires
        p.wf(),
        p.surface_handle() == Some(h),
    ensures
        p.show_decision() == ShowAction::ReuseSurface(h),
        p.surfaces_created() == 1,
{
}

/// The geometry for the overlay surface: the bounding box of all monitors,
/// so one continuous canvas covers every screen; with no monitors known the
/// fixed single-screen fallback is used.
pub fn overlay_geometry(monitors: &Vec<MonitorInfo>) -> (g: OverlayGeometry)
    requires
        monitors_valid(monitors@),
    ensures
        monitors@.len() == 0 ==> g == (OverlayGeometry {
            x: 0,
            y: 0,
            width: FALLBACK_OVERLAY_WIDTH,
            height: FALLBACK_OVERLAY_HEIGHT,
        }),
        monitors@.len() > 0 ==> (exists|a: TotalScreenArea|
            (#[trigger] a.is_bounding_box_of(monitors@)) && g == (OverlayGeometry {
                x: a.min_x,
                y: a.min_y,
                width: a.width,
                height: a.height,
            })),
{
    match compute_total_area(monitors) {
        Ok(a) => {
            let g = OverlayGeometry { x: a.min_x, y: a.min_y, width: a.width, height: a.height };
            proof {
                assert(a.is_bounding_box_of(monitors@));
            }
            g
        },
        Err(_) => OverlayGeometry {
            x: 0,
            y: 0,
            width: FALLBACK_OVERLAY_WIDTH,
            height: FALLBACK_OVERLAY_HEIGHT,
        },
    }
}

} // verus!
