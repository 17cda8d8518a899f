//! Override-redirect windows (menus, tooltips) that the compositor paints
//! without managing them: when one is tracked, forgotten, or moved.

use vstd::prelude::*;
use crate::wm::client::Client;
use crate::wm::state::{UnmanagedWindow, WindowManager};

verus! {

/// Whether `w` is among the tracked unmanaged windows.
pub open spec fn is_tracked(s: Seq<UnmanagedWindow>, w: u32) -> bool {
    exists|i: int| 0 <= i < s.len() && s[i].window == w
}

/// Whether `w` is the frame of a managed window.
pub open spec fn is_client_frame(cs: Seq<Client>, w: u32) -> bool {
    exists|i: int| 0 <= i < cs.len() && cs[i].frame == Some(w)
}

/// The tracked windows other than `w`.
pub open spec fn without_window(s: Seq<UnmanagedWindow>, w: u32) -> Seq<UnmanagedWindow> {
    s.filter(|u: UnmanagedWindow| u.window != w)
}

/// The tracked windows with `w` given a new geometry.
pub open spec fn with_geometry(s: Seq<UnmanagedWindow>, w: u32, x: i16, y: i16, width: u16, height: u16) -> Seq<
    UnmanagedWindow,
> {
    s.map_values(
        |u: UnmanagedWindow|
            if u.window == w {
                UnmanagedWindow { x, y, width, height, ..u }
            } else {
                u
            },
    )
}

impl WindowManager {
    /// Whether a window that was mapped is one to track for painting: not
    /// managed, not tracked already, and not a frame.
    pub fn should_track(&self, w: u32) -> (r: bool)
        ensures
            r == (!self.has_client(w) && !is_tracked(self.unmanaged_windows@, w) && !is_client_frame(self.clients@, w)),
    {
        if self.find_client(w).is_some() {
            return false;
        }
        let mut i: usize = 0;
        while i < self.unmanaged_windows.len()
            invariant
                i <= self.unmanaged_windows@.len(),
                forall|j: int| 0 <= j < i ==> (#[trigger] self.unmanaged_windows@[j]).window != w,
            decreases self.unmanaged_windows.len() - i,
        {
            if self.unmanaged_windows[i].window == w {
                return false;
            }
            i += 1;
        }
        let mut k: usize = 0;
        while k < self.clients.len()
            invariant
                k <= self.clients@.len(),
                forall|j: int| 0 <= j < k ==> (#[trigger] self.clients@[j]).frame != Some(w),
            decreases self.clients.len() - k,
        {
            if self.clients[k].frame == Some(w) {
                return false;
            }
            k += 1;
        }
        true
    }

    /// Starts painting the unmanaged window `u` when `should_track` says so.
    pub fn track_unmanaged(&mut self, u: UnmanagedWindow) -> (r: bool)
        ensures
            r == (!old(self).has_client(u.window) && !is_tracked(old(self).unmanaged_windows@, u.window)
                && !is_client_frame(old(self).clients@, u.window)),
            r ==> final(self).unmanaged_windows@ == old(self).unmanaged_windows@.push(u),
            !r ==> final(self).unmanaged_windows@ == old(self).unmanaged_windows@,
            final(self).clients@ == old(self).clients@,
            final(self).mru_stack@ == old(self).mru_stack@,
            final(self).focused_window == old(self).focused_window,
            final(self).drag_state == old(self).drag_state,
            final(self).current_workspace == old(self).current_workspace,
    {
        if self.should_track(u.window) {
            self.unmanaged_windows.push(u);
            true
        } else {
            false
        }
    }

    /// Stops painting the unmanaged window `w`, giving back its record (so
    /// that its picture and damage can be freed) when it was tracked.
    pub fn forget_unmanaged(&mut self, w: u32) -> (r: Option<UnmanagedWindow>)
        ensures
            final(self).unmanaged_windows@ == without_window(old(self).unmanaged_windows@, w),
            r is None <==> !is_tracked(old(self).unmanaged_windows@, w),
            r matches Some(u) ==> u.window == w && old(self).unmanaged_windows@.contains(u),
            final(self).clients@ == old(self).clients@,
            final(self).mru_stack@ == old(self).mru_stack@,
            final(self).focused_window == old(self).focused_window,
            final(self).drag_state == old(self).drag_state,
            final(self).current_workspace == old(self).current_workspace,
    {
        let ghost s = self.unmanaged_windows@;
        let ghost f = |u: UnmanagedWindow| u.window != w;
        let mut kept: Vec<UnmanagedWindow> = Vec::new();
        let mut found: Option<UnmanagedWindow> = None;
        let mut i: usize = 0;
        while i < self.unmanaged_windows.len()
            invariant
                s == self.unmanaged_windows@,
                f == (|u: UnmanagedWindow| u.window != w),
                i <= s.len(),
                kept@ == s.take(i as int).filter(f),
                found is None <==> !(exists|j: int| 0 <= j < i && s[j].window == w),
                found matches Some(u) ==> u.window == w && s.contains(u),
            decreases s.len() - i,
        {
            let u = self.unmanaged_windows[i];
            proof {
                assert(s.take(i + 1) == s.take(i as int).push(u));
                s.take(i as int).lemma_filter_push(u, f);
            }
            if u.window == w {
                if found.is_none() {
                    found = Some(u);
                }
            } else {
                kept.push(u);
            }
            i += 1;
        }
        proof {
            assert(s.take(s.len() as int) == s);
        }
        self.unmanaged_windows = kept;
        found
    }

    /// Records the new geometry of the unmanaged window `w`; whether it is
    /// tracked (and so needs painting again).
    pub fn configure_unmanaged(&mut self, w: u32, x: i16, y: i16, width: u16, height: u16) -> (r: bool)
        ensures
            final(self).unmanaged_windows@ == with_geometry(old(self).unmanaged_windows@, w, x, y, width, height),
            r == is_tracked(old(self).unmanaged_windows@, w),
            final(self).clients@ == old(self).clients@,
            final(self).mru_stack@ == old(self).mru_stack@,
            final(self).focused_window == old(self).focused_window,
            final(self).drag_state == old(self).drag_state,
            final(self).current_workspace == old(self).current_workspace,
    {
        let ghost s = self.unmanaged_windows@;
        let mut out: Vec<UnmanagedWindow> = Vec::new();
        let mut hit = false;
        let mut i: usize = 0;
        while i < self.unmanaged_windows.len()
            invariant
                s == self.unmanaged_windows@,
                i <= s.len(),
                out@ == with_geometry(s.take(i as int), w, x, y, width, height),
                hit == (exists|j: int| 0 <= j < i && s[j].window == w),
            decreases s.len() - i,
        {
            let u = self.unmanaged_windows[i];
            if u.window == w {
                out.push(UnmanagedWindow { x, y, width, height, ..u });
                hit = true;
            } else {
                out.push(u);
            }
            proof {
                assert(s.take(i + 1) == s.take(i as int).push(u));
                assert(with_geometry(s.take(i + 1), w, x, y, width, height) =~= with_geometry(
                    s.take(i as int),
                    w,
                    x,
                    y,
                    width,
                    height,
                ).push(if u.window == w { UnmanagedWindow { x, y, width, height, ..u } } else { u }));
            }
            i += 1;
        }
        proof {
            assert(s.take(s.len() as int) == s);
        }
        self.unmanaged_windows = out;
        hit
    }
}

} // verus!
