//! The window manager's model of its clients: which windows it manages, the
//! most-recently-used stacking list, focus, workspaces and pointer drags.

use vstd::prelude::*;
use crate::error::ErrorTracker;
use crate::wm::client::{Client, ALL_WORKSPACES, spec_on_workspace, spec_decoration};

verus! {

broadcast use vstd::seq_lib::group_seq_properties;

/// An interactive drag of a frame in progress.
#[derive(Debug, Clone, Copy, PartialEq, Eq, Structural)]
pub enum DragState {
    Idle,
    Moving {
        window: u32,
        start_pointer_x: i16,
        start_pointer_y: i16,
        start_frame_x: i16,
        start_frame_y: i16,
        snap: crate::wm::geometry::SnapZone,
    },
    Resizing { window: u32, start_pointer_x: i16, start_pointer_y: i16, start_width: u16, start_height: u16 },
}

/// An override-redirect window (menu, tooltip) that is composited but not managed.
#[derive(Debug, Clone, Copy, PartialEq, Eq, Structural)]
pub struct UnmanagedWindow {
    pub window: u32,
    pub picture: u32,
    pub damage: Option<u32>,
    pub x: i16,
    pub y: i16,
    pub width: u16,
    pub height: u16,
}

/// The state the window manager decides with.
pub struct WindowManager {
    pub root_window: u32,
    pub screen_width: u16,
    pub screen_height: u16,
    pub clients: Vec<Client>,
    pub drag_state: DragState,
    pub current_workspace: u32,
    pub last_click_time: u32,
    pub last_click_window: u32,
    /// Managed windows, most recently used first.
    pub mru_stack: Vec<u32>,
    pub focused_window: Option<u32>,
    pub unmanaged_windows: Vec<UnmanagedWindow>,
    pub error_tracker: ErrorTracker,
    /// Whether a double click on a title bar maximizes.
    pub double_click_maximizes: bool,
}

/// `s` without the occurrences of `w`.
pub open spec fn without(s: Seq<u32>, w: u32) -> Seq<u32> {
    s.filter(differs_from(w))
}

/// The predicate "is not `w`".
pub open spec fn differs_from(w: u32) -> spec_fn(u32) -> bool {
    |x: u32| x != w
}

pub open spec fn seq_distinct(s: Seq<u32>) -> bool {
    forall|i: int, j: int| 0 <= i < j < s.len() ==> s[i] != s[j]
}

impl WindowManager {
    /// Whether `w` is a managed window.
    pub open spec fn has_client(&self, w: u32) -> bool {
        exists|j: int| 0 <= j < self.clients@.len() && (#[trigger] self.clients@[j]).window == w
    }

    /// Managed windows are distinct, and the MRU list holds each managed
    /// window exactly once and nothing else.
    #[verifier::opaque]
    pub open spec fn wf(&self) -> bool {
        &&& forall|i: int, j: int|
            0 <= i < j < self.clients@.len() ==> (#[trigger] self.clients@[i]).window != (
            #[trigger] self.clients@[j]).window
        &&& seq_distinct(self.mru_stack@)
        &&& forall|w: u32| self.mru_stack@.contains(w) <==> self.has_client(w)
    }

    /// An empty model for the given root window and screen size.
    pub fn new(root_window: u32, screen_width: u16, screen_height: u16) -> (r: Self)
        ensures
            r.wf(),
            r.root_window == root_window,
            r.screen_width == screen_width,
            r.screen_height == screen_height,
            r.clients@.len() == 0,
            r.mru_stack@.len() == 0,
            r.drag_state == DragState::Idle,
            r.current_workspace == 0,
            r.last_click_time == 0,
            r.last_click_window == 0,
            r.focused_window.is_none(),
            r.unmanaged_windows@.len() == 0,
            r.double_click_maximizes,
    {
        reveal(WindowManager::wf);
        WindowManager {
            root_window,
            screen_width,
            screen_height,
            clients: Vec::new(),
            drag_state: DragState::Idle,
            current_workspace: 0,
            last_click_time: 0,
            last_click_window: 0,
            mru_stack: Vec::new(),
            focused_window: None,
            unmanaged_windows: Vec::new(),
            error_tracker: ErrorTracker::new(),
            double_click_maximizes: true,
        }
    }

    /// Position of the managed window `w` in `clients`.
    pub fn find_client(&self, w: u32) -> (r: Option<usize>)
        ensures
            r matches Some(i) ==> i < self.clients@.len() && self.clients@[i as int].window == w,
            r is None ==> !self.has_client(w),
    {
        let mut i: usize = 0;
        while i < self.clients.len()
            invariant
                i <= self.clients@.len(),
                forall|j: int| 0 <= j < i ==> (#[trigger] self.clients@[j]).window != w,
            decreases self.clients.len() - i,
        {
            if self.clients[i].window == w {
                return Some(i);
            }
            i += 1;
        }
        None
    }

    /// The first client (in `clients` order) whose frame is `frame`.
    pub fn find_client_by_frame(&self, frame: u32) -> (r: Option<&Client>)
        ensures
            r matches Some(c) ==> c.frame == Some(frame) && exists|j: int|
                0 <= j < self.clients@.len() && self.clients@[j] == *c,
            r is None ==> forall|j: int| 0 <= j < self.clients@.len() ==> self.clients@[j].frame != Some(frame),
    {
        let mut i: usize = 0;
        while i < self.clients.len()
            invariant
                i <= self.clients@.len(),
                forall|j: int| 0 <= j < i ==> self.clients@[j].frame != Some(frame),
            decreases self.clients.len() - i,
        {
            if self.clients[i].frame == Some(frame) {
                return Some(&self.clients[i]);
            }
            i += 1;
        }
        None
    }

    /// The managed window whose user-time proxy window is `w`, if any.
    pub fn find_client_by_user_time_window(&self, w: u32) -> (r: Option<u32>)
        ensures
            r matches Some(win) ==> exists|j: int|
                0 <= j < self.clients@.len() && self.clients@[j].window == win && self.clients@[j].hints.user_time_window
                    == Some(w),
            r is None ==> forall|j: int| 0 <= j < self.clients@.len() ==> self.clients@[j].hints.user_time_window != Some(w),
    {
        let mut i: usize = 0;
        while i < self.clients.len()
            invariant
                i <= self.clients@.len(),
                forall|j: int| 0 <= j < i ==> self.clients@[j].hints.user_time_window != Some(w),
            decreases self.clients.len() - i,
        {
            if self.clients[i].hints.user_time_window == Some(w) {
                return Some(self.clients[i].window);
            }
            i += 1;
        }
        None
    }

    /// Records a newly managed client (replacing the record of the same
    /// window, if any) and puts it at the front of the MRU list.
    pub fn add_client(&mut self, client: Client)
        requires
            old(self).wf(),
        ensures
            final(self).wf(),
            final(self).has_client(client.window),
            old(self).has_client(client.window) ==> exists|i: int|
                0 <= i < old(self).clients@.len() && old(self).clients@[i].window == client.window
                    && final(self).clients@ == old(self).clients@.update(i, client),
            !old(self).has_client(client.window) ==> final(self).clients@ == old(self).clients@.push(client),
            final(self).mru_stack@ == seq![client.window] + without(old(self).mru_stack@, client.window),
            final(self).focused_window == old(self).focused_window,
            final(self).current_workspace == old(self).current_workspace,
            final(self).drag_state == old(self).drag_state,
    {
        reveal(WindowManager::wf);
        let w = client.window;
        let ghost old_clients = self.clients@;
        match self.find_client(w) {
            Some(i) => {
                self.clients.set(i, client);
                proof {
                    assert forall|x: u32| self.has_client(x) <==> old(self).has_client(x) by {
                        if old(self).has_client(x) {
                            let j = choose|j: int| 0 <= j < old_clients.len() && (#[trigger] old_clients[j]).window == x;
                            assert(self.clients@[j].window == x);
                        }
                        if self.has_client(x) {
                            let j = choose|j: int| 0 <= j < self.clients@.len() && (#[trigger] self.clients@[j]).window == x;
                            assert(old_clients[j].window == x);
                        }
                    }
                    assert(old(self).has_client(w)) by {
                        assert(old_clients[i as int].window == w);
                    }
                }
            },
            None => {
                self.clients.push(client);
                proof {
                    assert(self.clients@[old_clients.len() as int].window == w);
                    assert forall|x: u32| self.has_client(x) <==> (old(self).has_client(x) || x == w) by {
                        if old(self).has_client(x) {
                            let j = choose|j: int| 0 <= j < old_clients.len() && (#[trigger] old_clients[j]).window == x;
                            assert(self.clients@[j].window == x);
                        }
                        if self.has_client(x) {
                            let j = choose|j: int| 0 <= j < self.clients@.len() && (#[trigger] self.clients@[j]).window == x;
                            if j < old_clients.len() {
                                assert(old_clients[j].window == x);
                            }
                        }
                    }
                }
            },
        }
        assert(forall|x: u32| self.has_client(x) <==> (old(self).has_client(x) || x == w));
        proof {
            assert forall|i: int, j: int|
                0 <= i < j < self.clients@.len() implies (#[trigger] self.clients@[i]).window != (
                #[trigger] self.clients@[j]).window by {
                if old(self).has_client(w) {
                } else {
                    if j == old_clients.len() {
                        assert(old_clients[i].window != w);
                    }
                }
            }
        }
        self.move_to_front(w);
    }

    /// The managed windows are distinct and the MRU list is a list of
    /// distinct windows that holds exactly the managed windows, except that
    /// it may lack `w`.
    pub open spec fn wf_except_mru_of(&self, w: u32) -> bool {
        &&& forall|i: int, j: int|
            0 <= i < j < self.clients@.len() ==> (#[trigger] self.clients@[i]).window != (
            #[trigger] self.clients@[j]).window
        &&& seq_distinct(self.mru_stack@)
        &&& forall|x: u32| x != w ==> (self.mru_stack@.contains(x) <==> self.has_client(x))
    }

    /// Puts the managed window `w` at the front of the MRU list.
    pub fn move_to_front(&mut self, w: u32)
        requires
            old(self).wf_except_mru_of(w),
            old(self).has_client(w),
        ensures
            final(self).wf(),
            final(self).clients@ == old(self).clients@,
            final(self).mru_stack@ == seq![w] + without(old(self).mru_stack@, w),
            final(self).focused_window == old(self).focused_window,
            final(self).current_workspace == old(self).current_workspace,
            final(self).drag_state == old(self).drag_state,
    {
        reveal(WindowManager::wf);
        let rest = remove_window(&self.mru_stack, w);
        let mut mru: Vec<u32> = Vec::new();
        mru.push(w);
        let mut k: usize = 0;
        while k < rest.len()
            invariant
                k <= rest@.len(),
                mru@ == seq![w] + rest@.take(k as int),
            decreases rest.len() - k,
        {
            mru.push(rest[k]);
            proof {
                assert(rest@.take(k + 1) == rest@.take(k as int).push(rest@[k as int]));
            }
            k += 1;
        }
        proof {
            assert(rest@.take(rest@.len() as int) == rest@);
        }
        self.mru_stack = mru;
        proof {
            assert(self.has_client(w));
            assert forall|a: int, b: int| 0 <= a < b < self.mru_stack@.len() implies self.mru_stack@[a]
                != self.mru_stack@[b] by {
                if a == 0 {
                    assert(rest@.contains(self.mru_stack@[b]));
                } else {
                    assert(self.mru_stack@[a] == rest@[a - 1]);
                    assert(self.mru_stack@[b] == rest@[b - 1]);
                }
            }
            assert forall|x: u32| self.mru_stack@.contains(x) <==> self.has_client(x) by {
                if x == w {
                    assert(self.mru_stack@[0] == w);
                    assert(self.mru_stack@.contains(w));
                } else {
                    if self.has_client(x) {
                        assert(old(self).has_client(x));
                        assert(old(self).mru_stack@.contains(x));
                        assert(rest@.contains(x));
                    }
                    if rest@.contains(x) {
                        let k2 = choose|k2: int| 0 <= k2 < rest@.len() && rest@[k2] == x;
                        assert(self.mru_stack@[k2 + 1] == x);
                        assert(self.mru_stack@.contains(x));
                    }
                    if self.mru_stack@.contains(x) {
                        let k2 = choose|k2: int| 0 <= k2 < self.mru_stack@.len() && self.mru_stack@[k2] == x;
                        assert(rest@[k2 - 1] == x);
                        assert(rest@.contains(x));
                        assert(old(self).mru_stack@.contains(x));
                        assert(old(self).has_client(x));
                        assert(self.has_client(x));
                    }
                }
            }
        }
    }

    /// Forgets the managed window `w`: gives back its record and the window
    /// to focus next (the front of the MRU list without `w`).
    pub fn unmanage_window(&mut self, w: u32) -> (r: Option<(Client, Option<u32>)>)
        requires
            old(self).wf(),
        ensures
            final(self).wf(),
            r is None <==> !old(self).has_client(w),
            r is None ==> final(self).clients@ == old(self).clients@ && final(self).mru_stack@ == old(self).mru_stack@,
            r matches Some((c, next)) ==> {
                &&& c.window == w
                &&& exists|i: int|
                    0 <= i < old(self).clients@.len() && old(self).clients@[i] == c && final(self).clients@ == old(
                        self,
                    ).clients@.remove(i)
                &&& final(self).mru_stack@ == without(old(self).mru_stack@, w)
                &&& next == (if final(self).mru_stack@.len() > 0 {
                    Some(final(self).mru_stack@[0])
                } else {
                    None
                })
            },
            !final(self).has_client(w),
            final(self).focused_window == old(self).focused_window,
            final(self).current_workspace == old(self).current_workspace,
    {
        reveal(WindowManager::wf);
        match self.find_client(w) {
            None => None,
            Some(i) => {
                let ghost old_clients = self.clients@;
                let c = self.clients.remove(i);
                let rest = remove_window(&self.mru_stack, w);
                self.mru_stack = rest;
                proof {
                    assert forall|x: u32| self.has_client(x) <==> (old(self).has_client(x) && x != w) by {
                        if old(self).has_client(x) && x != w {
                            let j = choose|j: int| 0 <= j < old_clients.len() && (#[trigger] old_clients[j]).window == x;
                            if j < i {
                                assert(self.clients@[j].window == x);
                            } else {
                                assert(j != i);
                                assert(self.clients@[j - 1].window == x);
                            }
                        }
                        if self.has_client(x) {
                            let j = choose|j: int| 0 <= j < self.clients@.len() && (#[trigger] self.clients@[j]).window == x;
                            if j < i {
                                assert(old_clients[j].window == x);
                            } else {
                                assert(old_clients[j + 1].window == x);
                            }
                        }
                    }
                    assert forall|a: int, b: int|
                        0 <= a < b < self.clients@.len() implies (#[trigger] self.clients@[a]).window != (
                        #[trigger] self.clients@[b]).window by {
                        let a2 = if a < i { a } else { a + 1 };
                        let b2 = if b < i { b } else { b + 1 };
                        assert(self.clients@[a] == old_clients[a2]);
                        assert(self.clients@[b] == old_clients[b2]);
                    }
                }
                let next = if self.mru_stack.len() > 0 { Some(self.mru_stack[0]) } else { None };
                Some((c, next))
            },
        }
    }
}

/// `s` without the occurrences of `w`, in the same order.
pub fn remove_window(s: &Vec<u32>, w: u32) -> (r: Vec<u32>)
    ensures
        r@ == without(s@, w),
        forall|x: u32| r@.contains(x) <==> (s@.contains(x) && x != w),
        seq_distinct(s@) ==> seq_distinct(r@),
{
    let mut r: Vec<u32> = Vec::new();
    let mut i: usize = 0;
    while i < s.len()
        invariant
            i <= s@.len(),
            r@ == without(s@.take(i as int), w),
            forall|x: u32| r@.contains(x) <==> (s@.take(i as int).contains(x) && x != w),
            seq_distinct(s@) ==> seq_distinct(r@),
        decreases s.len() - i,
    {
        proof {
            assert(s@.take(i + 1) == s@.take(i as int).push(s@[i as int]));
            s@.take(i as int).lemma_filter_push(s@[i as int], differs_from(w));
        }
        if s[i] != w {
            let ghost old_r = r@;
            proof {
                if seq_distinct(s@) {
                    assert(!s@.take(i as int).contains(s@[i as int])) by {
                        if s@.take(i as int).contains(s@[i as int]) {
                            let k = choose|k: int| 0 <= k < i && s@.take(i as int)[k] == s@[i as int];
                            assert(s@[k] == s@[i as int]);
                        }
                    }
                }
            }
            r.push(s[i]);
            proof {
                if seq_distinct(s@) {
                    assert forall|a: int, b: int| 0 <= a < b < r@.len() implies r@[a] != r@[b] by {
                        if b == r@.len() - 1 {
                            assert(old_r.contains(r@[a]));
                        }
                    }
                }
            }
        }
        i += 1;
    }
    proof {
        assert(s@.take(s@.len() as int) == s@);
    }
    r
}

} // verus!
