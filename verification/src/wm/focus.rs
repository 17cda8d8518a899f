//! Focus policy: window groups, transient and modal relations, X server
//! timestamps, modal redirection and focus-stealing prevention.

use vstd::prelude::*;
use crate::wm::client::{Client, ClientState};
use crate::wm::state::{WindowManager, DragState, without};

verus! {

/// Whether two clients belong to the same group: they are the same window,
/// share a group leader, or one leads the other's group.
pub open spec fn spec_same_group(c1: Client, c2: Client) -> bool {
    ||| c1.window == c2.window
    ||| (c1.hints.group_leader.is_some() && c2.hints.group_leader.is_some() && c1.hints.group_leader == c2.hints.group_leader)
    ||| c1.hints.group_leader == Some(c2.window)
    ||| c2.hints.group_leader == Some(c1.window)
}

/// Whether `c1` is transient for `c2`: named directly, or (when `c1` is
/// transient for the root window) `c2` is a top-level window of its group.
pub open spec fn spec_is_transient_for(root: u32, c1: Client, c2: Client) -> bool {
    match c1.hints.transient_for {
        Some(t) => if t != root {
            t == c2.window
        } else {
            c2.hints.transient_for.is_none() && spec_same_group(c1, c2)
        },
        None => false,
    }
}

/// Whether `c1` is a modal window for `c2`.
pub open spec fn spec_is_modal_for(root: u32, c1: Client, c2: Client) -> bool {
    c1.state.is_modal && spec_is_transient_for(root, c1, c2)
}

/// Whether X server time `t1` is before `t2`, comparing modulo 2^32 within
/// half the range; time 0 is before everything and nothing is before it.
pub open spec fn spec_timestamp_is_before(t1: u32, t2: u32) -> bool {
    if t1 == 0 {
        true
    } else if t2 == 0 {
        false
    } else {
        (if t2 >= t1 { t2 - t1 } else { t2 - t1 + 0x1_0000_0000 }) < 0x7FFF_FFFF
    }
}

/// Whether the two clients are in the same group.
pub fn same_group(c1: &Client, c2: &Client) -> (r: bool)
    ensures
        r == spec_same_group(*c1, *c2),
{
    if c1.window == c2.window {
        return true;
    }
    if let Some(g1) = c1.hints.group_leader {
        if let Some(g2) = c2.hints.group_leader {
            if g1 == g2 {
                return true;
            }
        }
        if g1 == c2.window {
            return true;
        }
    }
    if let Some(g2) = c2.hints.group_leader {
        if g2 == c1.window {
            return true;
        }
    }
    false
}

/// Whether `c1` is transient for `c2` given the root window.
pub fn is_transient_for(root: u32, c1: &Client, c2: &Client) -> (r: bool)
    ensures
        r == spec_is_transient_for(root, *c1, *c2),
{
    if let Some(transient_for) = c1.hints.transient_for {
        if transient_for != root {
            return transient_for == c2.window;
        } else if c2.hints.transient_for.is_none() {
            return same_group(c1, c2);
        }
    }
    false
}

/// Whether `c1` is modal for `c2` given the root window.
pub fn is_modal_for(root: u32, c1: &Client, c2: &Client) -> (r: bool)
    ensures
        r == spec_is_modal_for(root, *c1, *c2),
{
    if c1.state.is_modal {
        return is_transient_for(root, c1, c2);
    }
    false
}

/// Whether X server time `t1` is before `t2`.
pub fn timestamp_is_before(t1: u32, t2: u32) -> (r: bool)
    ensures
        r == spec_timestamp_is_before(t1, t2),
{
    if t1 == 0 {
        return true;
    }
    if t2 == 0 {
        return false;
    }
    let diff = t2.wrapping_sub(t1);
    assert((u32::MAX >> 1u32) == 0x7FFF_FFFFu32) by (bit_vector);
    diff < (u32::MAX >> 1)
}

/// What focusing a window comes to.
#[derive(Debug, Clone, Copy, PartialEq, Eq, Structural)]
pub enum FocusOutcome {
    /// The window (or its modal) is not managed: nothing happens.
    NotManaged,
    /// Focus stealing prevention refused focus to `target`.
    Prevented { target: u32 },
    /// `target` goes to the front of the MRU list; it takes input focus if
    /// `accepts_input`.
    Focused { target: u32, accepts_input: bool },
}

/// The X requests that carry a focus decision out.
#[derive(Debug, Clone, Copy, PartialEq, Eq, Structural)]
pub struct FocusSteps {
    /// The window sent a `WM_TAKE_FOCUS` message, if any.
    pub take_focus: Option<u32>,
    /// The window given input focus, if any.
    pub input_focus: Option<u32>,
}

/// Nothing is sent unless focus was granted; then the target is sent
/// `WM_TAKE_FOCUS` exactly when its `WM_PROTOCOLS` list that protocol, and
/// takes input focus exactly when it accepts input.
pub open spec fn spec_focus_steps(o: FocusOutcome, protocols: Seq<u32>, take_focus_atom: u32) -> FocusSteps {
    match o {
        FocusOutcome::Focused { target, accepts_input } => FocusSteps {
            take_focus: if protocols.contains(take_focus_atom) {
                Some(target)
            } else {
                None
            },
            input_focus: if accepts_input {
                Some(target)
            } else {
                None
            },
        },
        _ => FocusSteps { take_focus: None, input_focus: None },
    }
}

impl FocusOutcome {
    /// The requests that carry this outcome out, given the atoms of the
    /// target's `WM_PROTOCOLS` and the `WM_TAKE_FOCUS` atom.
    pub fn steps(&self, protocols: &[u32], take_focus_atom: u32) -> (r: FocusSteps)
        ensures
            r == spec_focus_steps(*self, protocols@, take_focus_atom),
    {
        match *self {
            FocusOutcome::Focused { target, accepts_input } => {
                let mut listed = false;
                let mut i: usize = 0;
                while i < protocols.len()
                    invariant
                        i <= protocols@.len(),
                        listed == exists|j: int| 0 <= j < i && protocols@[j] == take_focus_atom,
                    decreases protocols.len() - i,
                {
                    if protocols[i] == take_focus_atom {
                        listed = true;
                    }
                    i += 1;
                }
                FocusSteps {
                    take_focus: if listed {
                        Some(target)
                    } else {
                        None
                    },
                    input_focus: if accepts_input {
                        Some(target)
                    } else {
                        None
                    },
                }
            },
            _ => FocusSteps { take_focus: None, input_focus: None },
        }
    }
}

impl WindowManager {
    /// The record of the managed window `w`.
    pub open spec fn client_of(&self, w: u32) -> Client {
        self.clients@[self.client_index(w)]
    }

    /// Position of the record of `w` in `clients`.
    pub open spec fn client_index(&self, w: u32) -> int {
        choose|j: int| 0 <= j < self.clients@.len() && self.clients@[j].window == w
    }

    /// Whether the MRU entry `k` is a modal window for `c`.
    pub open spec fn modal_at(&self, k: int, c: Client) -> bool {
        self.has_client(self.mru_stack@[k]) && spec_is_modal_for(self.root_window, self.client_of(self.mru_stack@[k]), c)
    }

    /// The most recently used window that is modal for `c`.
    #[verifier::opaque]
    pub open spec fn spec_modal_for(&self, c: Client) -> Option<u32> {
        if exists|k: int| 0 <= k < self.mru_stack@.len() && self.modal_at(k, c) {
            let k = choose|k: int|
                0 <= k < self.mru_stack@.len() && self.modal_at(k, c) && forall|j: int| 0 <= j < k ==> !self.modal_at(j, c);
            Some(self.mru_stack@[k])
        } else {
            None
        }
    }

    /// Following modal windows from `w`: the most recent modal window of
    /// `w`, then that window's own most recent modal, and so on, for at most
    /// `steps` steps.
    pub open spec fn spec_modal_chain(&self, w: u32, steps: nat) -> u32
        decreases steps,
    {
        if steps == 0 || !self.has_client(w) {
            w
        } else {
            match self.spec_modal_for(self.client_of(w)) {
                Some(m) => self.spec_modal_chain(m, (steps - 1) as nat),
                None => w,
            }
        }
    }

    /// The window focus goes to when `w` is asked for: the innermost window
    /// of its chain of modal windows (a chain is followed for at most as
    /// many steps as there are managed windows, so that modal windows that
    /// name each other in a circle end the walk), else `w` itself.
    #[verifier::opaque]
    pub open spec fn spec_focus_target(&self, w: u32) -> u32 {
        self.spec_modal_chain(w, self.clients@.len())
    }

    /// Focus stealing prevention: the window at the front of the MRU list
    /// keeps focus against a window in a lower layer, one without a user
    /// time or with an older one, and while a drag is in progress, unless
    /// the new window is modal.
    #[verifier::opaque]
    pub open spec fn spec_focus_prevented(&self, t: u32) -> bool {
        self.mru_stack@.len() > 0 && self.mru_stack@[0] != t && self.has_client(self.mru_stack@[0]) && {
            let f = self.client_of(self.mru_stack@[0]);
            let c = self.client_of(t);
            (f.state.layer > c.state.layer || c.hints.user_time == 0 || spec_timestamp_is_before(c.hints.user_time, f.hints.user_time)
                || self.drag_state != DragState::Idle) && !c.state.is_modal
        }
    }

    pub proof fn lemma_client_of(&self, j: int)
        requires
            self.wf(),
            0 <= j < self.clients@.len(),
        ensures
            self.client_of(self.clients@[j].window) == self.clients@[j],
            self.client_index(self.clients@[j].window) == j,
            self.has_client(self.clients@[j].window),
    {
        reveal(WindowManager::wf);
        let w = self.clients@[j].window;
        let k = choose|k: int| 0 <= k < self.clients@.len() && self.clients@[k].window == w;
        assert(k == j);
    }

    proof fn lemma_first_modal(&self, k: int, c: Client)
        requires
            0 <= k < self.mru_stack@.len(),
            self.modal_at(k, c),
            forall|j: int| 0 <= j < k ==> !self.modal_at(j, c),
        ensures
            self.spec_modal_for(c) == Some(self.mru_stack@[k]),
    {
        reveal(WindowManager::spec_modal_for);
        let kk = choose|kk: int|
            0 <= kk < self.mru_stack@.len() && self.modal_at(kk, c) && forall|j: int| 0 <= j < kk ==> !self.modal_at(j, c);
        if kk < k {
            assert(!self.modal_at(kk, c));
        } else if kk > k {
            assert(!self.modal_at(k, c));
        }
    }

    /// Puts the attention flag of the client at `ti` down.
    fn clear_attention(&mut self, ti: usize)
        requires
            old(self).wf(),
            ti < old(self).clients@.len(),
        ensures
            final(self).wf(),
            final(self).clients@ == old(self).clients@.update(
                ti as int,
                Client { state: ClientState { demands_attention: false, ..old(self).clients@[ti as int].state }, ..old(self).clients@[ti as int] },
            ),
            final(self).mru_stack@ == old(self).mru_stack@,
            final(self).focused_window == old(self).focused_window,
            final(self).drag_state == old(self).drag_state,
            final(self).current_workspace == old(self).current_workspace,
            forall|x: u32| old(self).has_client(x) <==> final(self).has_client(x),
    {
        self.clients[ti].state.demands_attention = false;
        proof {
            lemma_same_windows(old(self), self);
        }
    }

    /// The most recently used window that is modal for `c`.
    pub fn get_modal_for(&self, c: &Client) -> (r: Option<u32>)
        requires
            self.wf(),
        ensures
            r == self.spec_modal_for(*c),
    {
        reveal(WindowManager::spec_modal_for);
        let mut k: usize = 0;
        while k < self.mru_stack.len()
            invariant
                self.wf(),
                k <= self.mru_stack@.len(),
                forall|j: int| 0 <= j < k ==> !self.modal_at(j, *c),
            decreases self.mru_stack.len() - k,
        {
            let w = self.mru_stack[k];
            if let Some(i) = self.find_client(w) {
                proof {
                    self.lemma_client_of(i as int);
                }
                if is_modal_for(self.root_window, &self.clients[i], c) {
                    proof {
                        assert(self.modal_at(k as int, *c));
                        self.lemma_first_modal(k as int, *c);
                    }
                    return Some(w);
                }
            }
            k += 1;
        }
        None
    }

    /// Position in `clients` of the window that focusing `w` goes to.
    fn focus_target_index(&self, w: u32) -> (r: Option<usize>)
        requires
            self.wf(),
        ensures
            r is None <==> !self.has_client(self.spec_focus_target(w)),
            r matches Some(ti) ==> ti < self.clients@.len() && self.clients@[ti as int].window
                == self.spec_focus_target(w),
    {
        reveal(WindowManager::spec_focus_target);
        let n = self.clients.len();
        let mut target = w;
        let mut steps: usize = 0;
        while steps < n
            invariant
                self.wf(),
                n == self.clients@.len(),
                steps <= n,
                self.spec_modal_chain(w, n as nat) == self.spec_modal_chain(target, (n - steps) as nat),
            ensures
                self.spec_modal_chain(w, n as nat) == self.spec_modal_chain(target, (n - steps) as nat),
                self.spec_modal_chain(target, (n - steps) as nat) == target,
            decreases n - steps,
        {
            match self.find_client(target) {
                None => {
                    break;
                },
                Some(i) => {
                    proof {
                        self.lemma_client_of(i as int);
                    }
                    match self.get_modal_for(&self.clients[i]) {
                        None => {
                            break;
                        },
                        Some(m) => {
                            target = m;
                        },
                    }
                },
            }
            steps += 1;
        }
        self.find_client(target)
    }

    /// Whether focus stealing prevention refuses focus to the client at `ti`.
    fn focus_prevented(&self, ti: usize) -> (r: bool)
        requires
            self.wf(),
            ti < self.clients@.len(),
        ensures
            r == self.spec_focus_prevented(self.clients@[ti as int].window),
    {
        reveal(WindowManager::spec_focus_prevented);
        proof {
            self.lemma_client_of(ti as int);
        }
        let layer = self.clients[ti].state.layer;
        let user_time = self.clients[ti].hints.user_time;
        let mut prevent = false;
        if self.mru_stack.len() > 0 {
            let current_focus = self.mru_stack[0];
            if current_focus != self.clients[ti].window {
                if let Some(fi) = self.find_client(current_focus) {
                    proof {
                        self.lemma_client_of(fi as int);
                    }
                    if self.clients[fi].state.layer > layer {
                        prevent = true;
                    }
                    if user_time == 0 || timestamp_is_before(user_time, self.clients[fi].hints.user_time) {
                        prevent = true;
                    }
                    if self.drag_state != DragState::Idle {
                        prevent = true;
                    }
                }
            }
        }
        prevent && !self.clients[ti].state.is_modal
    }

    /// Decides focus for a request to focus `w`: redirects to the innermost
    /// of its modal windows, clears the target's attention flag, applies focus stealing
    /// prevention, and on success moves the target to the front of the MRU
    /// list. Input focus itself is confirmed with `confirm_focus`.
    pub fn focus_window(&mut self, w: u32) -> (r: FocusOutcome)
        requires
            old(self).wf(),
        ensures
            final(self).wf(),
            final(self).focused_window == old(self).focused_window,
            final(self).drag_state == old(self).drag_state,
            final(self).current_workspace == old(self).current_workspace,
            ({
                let t = old(self).spec_focus_target(w);
                &&& (r == FocusOutcome::NotManaged) <==> !old(self).has_client(t)
                &&& r == FocusOutcome::NotManaged ==> final(self).clients@ == old(self).clients@
                    && final(self).mru_stack@ == old(self).mru_stack@
                &&& r != FocusOutcome::NotManaged ==> final(self).clients@ == old(self).clients@.update(
                    old(self).client_index(t),
                    Client { state: ClientState { demands_attention: false, ..old(self).client_of(t).state }, ..old(self).client_of(t) },
                )
                &&& old(self).has_client(t) && old(self).spec_focus_prevented(t) ==> r == (FocusOutcome::Prevented {
                    target: t,
                }) && final(self).mru_stack@ == old(self).mru_stack@
                &&& old(self).has_client(t) && !old(self).spec_focus_prevented(t) ==> r == (FocusOutcome::Focused {
                    target: t,
                    accepts_input: old(self).client_of(t).state.accepts_input,
                }) && final(self).mru_stack@ == seq![t] + without(old(self).mru_stack@, t)
            }),
    {
        reveal(WindowManager::wf);
        let ti = match self.focus_target_index(w) {
            Some(ti) => ti,
            None => {
                return FocusOutcome::NotManaged;
            },
        };
        proof {
            self.lemma_client_of(ti as int);
        }
        let target = self.clients[ti].window;
        assert(self.client_of(target) == self.clients@[ti as int]);
        let accepts_input = self.clients[ti].state.accepts_input;
        let prevented = self.focus_prevented(ti);
        self.clear_attention(ti);
        assert(old(self).clients@[ti as int].window == target);
        if prevented {
            return FocusOutcome::Prevented { target };
        }
        self.move_to_front(target);
        FocusOutcome::Focused { target, accepts_input }
    }

    /// Records that the X server accepted input focus for `target`; gives
    /// back the window that had it before.
    pub fn confirm_focus(&mut self, target: u32) -> (r: Option<u32>)
        ensures
            r == old(self).focused_window,
            final(self).focused_window == Some(target),
            final(self).clients@ == old(self).clients@,
            final(self).mru_stack@ == old(self).mru_stack@,
            final(self).drag_state == old(self).drag_state,
            final(self).current_workspace == old(self).current_workspace,
    {
        let old_focus = self.focused_window;
        self.focused_window = Some(target);
        old_focus
    }
}

/// X server times compare as nearby points on a circle: of two non-zero
/// times less than half the range apart, the smaller is before the larger
/// and not the other way round, also across the wrap at 2^32; time 0 is
/// before every time and no other time is before it.
pub proof fn lemma_timestamp_order(t1: u32, t2: u32)
    ensures
        spec_timestamp_is_before(0, t2),
        t1 != 0 ==> !spec_timestamp_is_before(t1, 0),
        (t1 != 0 && t1 < t2 && t2 - t1 < 0x7FFF_FFFF) ==> spec_timestamp_is_before(t1, t2) && !spec_timestamp_is_before(
            t2,
            t1,
        ),
        (t2 != 0 && t2 < t1 && t2 + 0x1_0000_0000 - t1 < 0x7FFF_FFFF) ==> spec_timestamp_is_before(t1, t2)
            && !spec_timestamp_is_before(t2, t1),
{
}

/// Focus stealing prevention, stated case by case. Let `f` be the window at
/// the front of the MRU list and `t` another managed-or-not window asking
/// for focus. A non-modal `t` is refused while any drag is in progress, when
/// it sits in a lower layer than `f`, when it has no user time, and when its
/// user time is older than `f`'s. A modal window, the window already at the
/// front, and any window while the MRU list is empty or its front is not
/// managed are never refused.
pub proof fn lemma_focus_prevention(m: WindowManager, t: u32)
    ensures
        ({
            let front_other = m.mru_stack@.len() > 0 && m.mru_stack@[0] != t && m.has_client(m.mru_stack@[0]);
            let c = m.client_of(t);
            &&& (front_other && !c.state.is_modal && m.drag_state != DragState::Idle) ==> m.spec_focus_prevented(t)
            &&& (front_other && !c.state.is_modal && m.client_of(m.mru_stack@[0]).state.layer > c.state.layer)
                ==> m.spec_focus_prevented(t)
            &&& (front_other && !c.state.is_modal && c.hints.user_time == 0) ==> m.spec_focus_prevented(t)
            &&& (front_other && !c.state.is_modal && spec_timestamp_is_before(
                c.hints.user_time,
                m.client_of(m.mru_stack@[0]).hints.user_time,
            )) ==> m.spec_focus_prevented(t)
            &&& c.state.is_modal ==> !m.spec_focus_prevented(t)
            &&& !front_other ==> !m.spec_focus_prevented(t)
            &&& (front_other && m.drag_state == DragState::Idle && m.client_of(m.mru_stack@[0]).state.layer
                <= c.state.layer && c.hints.user_time != 0 && !spec_timestamp_is_before(
                c.hints.user_time,
                m.client_of(m.mru_stack@[0]).hints.user_time,
            )) ==> !m.spec_focus_prevented(t)
        }),
{
    reveal(WindowManager::spec_focus_prevented);
}

/// Two models whose client lists name the same windows at the same
/// positions manage the same windows.
pub proof fn lemma_same_windows(a: &WindowManager, b: &WindowManager)
    requires
        a.clients@.len() == b.clients@.len(),
        forall|j: int| 0 <= j < a.clients@.len() ==> a.clients@[j].window == b.clients@[j].window,
        a.mru_stack@ == b.mru_stack@,
        a.wf(),
    ensures
        forall|x: u32| a.has_client(x) <==> b.has_client(x),
        b.wf(),
{
    reveal(WindowManager::wf);
    assert forall|x: u32| a.has_client(x) <==> b.has_client(x) by {
        if a.has_client(x) {
            let j = choose|j: int| 0 <= j < a.clients@.len() && (#[trigger] a.clients@[j]).window == x;
            assert(b.clients@[j].window == x);
        }
        if b.has_client(x) {
            let j = choose|j: int| 0 <= j < b.clients@.len() && (#[trigger] b.clients@[j]).window == x;
            assert(a.clients@[j].window == x);
        }
    }
    assert forall|i: int, j: int| 0 <= i < j < b.clients@.len() implies (#[trigger] b.clients@[i]).window != (
        #[trigger] b.clients@[j]).window by {
        assert(a.clients@[i].window == b.clients@[i].window);
        assert(a.clients@[j].window == b.clients@[j].window);
    }
}

} // verus!
