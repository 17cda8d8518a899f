//! Changes of a managed window's properties, and the order in which the
//! compositor paints windows.

use vstd::prelude::*;
use crate::wm::client::{Client, ClientState, ClientHints, FrameExtents, spec_decoration, spec_on_workspace};
use crate::wm::focus::lemma_same_windows;
use crate::wm::state::{UnmanagedWindow, WindowManager};

verus! {

/// A property of a managed window that changed, as read from the server.
#[derive(Debug, Clone)]
pub enum PropertyUpdate {
    Opacity(u32),
    Strut(Option<Vec<u32>>),
    Name(String),
    /// `_GTK_FRAME_EXTENTS` and whether the window draws its own frame.
    FrameExtents { extents: FrameExtents, is_csd: bool },
    UserTime(u32),
    /// `WM_HINTS`: group leader, input focus, urgency.
    WmHints { group_leader: Option<u32>, accepts_input: bool, is_urgent: bool },
    TransientFor(u32),
    Modal(bool),
    /// The user-time window and the user time read from it; without a
    /// window the user time stays.
    UserTimeWindow { window: Option<u32>, user_time: u32 },
    Shaped(bool),
}

/// The client after a property change, and whether the screen needs
/// repainting.
pub open spec fn spec_apply_property(c: Client, u: PropertyUpdate) -> (Client, bool) {
    match u {
        PropertyUpdate::Opacity(v) => (Client { hints: ClientHints { opacity: v, ..c.hints }, ..c }, true),
        PropertyUpdate::Strut(s) => (Client { hints: ClientHints { strut: s, ..c.hints }, ..c }, false),
        PropertyUpdate::Name(n) => (Client { name: n, ..c }, false),
        PropertyUpdate::FrameExtents { extents, is_csd } => if c.state.is_csd != is_csd || c.hints.frame_extents
            != extents {
            (
                Client {
                    state: ClientState { is_csd: is_csd, ..c.state },
                    hints: ClientHints { frame_extents: extents, ..c.hints },
                    ..c
                },
                true,
            )
        } else {
            (c, false)
        },
        PropertyUpdate::UserTime(t) => (Client { hints: ClientHints { user_time: t, ..c.hints }, ..c }, false),
        PropertyUpdate::WmHints { group_leader, accepts_input, is_urgent } => (
            Client {
                state: ClientState { accepts_input: accepts_input, is_urgent: is_urgent, ..c.state },
                hints: ClientHints { group_leader: group_leader, ..c.hints },
                ..c
            },
            false,
        ),
        PropertyUpdate::TransientFor(p) => (Client { hints: ClientHints { transient_for: Some(p), ..c.hints }, ..c }, false),
        PropertyUpdate::Modal(m) => (Client { state: ClientState { is_modal: m, ..c.state }, ..c }, false),
        PropertyUpdate::UserTimeWindow { window, user_time } => match window {
            Some(w) => (
                Client { hints: ClientHints { user_time_window: Some(w), user_time: user_time, ..c.hints }, ..c },
                false,
            ),
            None => (Client { hints: ClientHints { user_time_window: None, ..c.hints }, ..c }, false),
        },
        PropertyUpdate::Shaped(s) => (Client { state: ClientState { is_shaped: s, ..c.state }, ..c }, true),
    }
}

impl Client {
    /// Applies a property change; gives whether to repaint.
    pub fn apply_property(&mut self, u: PropertyUpdate) -> (r: bool)
        ensures
            (*final(self), r) == spec_apply_property(*old(self), u),
    {
        match u {
            PropertyUpdate::Opacity(v) => {
                self.hints.opacity = v;
                true
            },
            PropertyUpdate::Strut(s) => {
                self.hints.strut = s;
                false
            },
            PropertyUpdate::Name(n) => {
                self.name = n;
                false
            },
            PropertyUpdate::FrameExtents { extents, is_csd } => {
                if self.state.is_csd != is_csd || self.hints.frame_extents != extents {
                    self.state = ClientState { is_csd: is_csd, ..self.state };
                    self.hints.frame_extents = extents;
                    true
                } else {
                    false
                }
            },
            PropertyUpdate::UserTime(t) => {
                self.hints.user_time = t;
                false
            },
            PropertyUpdate::WmHints { group_leader, accepts_input, is_urgent } => {
                self.state = ClientState { accepts_input: accepts_input, is_urgent: is_urgent, ..self.state };
                self.hints.group_leader = group_leader;
                false
            },
            PropertyUpdate::TransientFor(p) => {
                self.hints.transient_for = Some(p);
                false
            },
            PropertyUpdate::Modal(m) => {
                self.state = ClientState { is_modal: m, ..self.state };
                false
            },
            PropertyUpdate::UserTimeWindow { window, user_time } => {
                match window {
                    Some(w) => {
                        self.hints.user_time_window = Some(w);
                        self.hints.user_time = user_time;
                    },
                    None => {
                        self.hints.user_time_window = None;
                    },
                }
                false
            },
            PropertyUpdate::Shaped(s) => {
                self.state = ClientState { is_shaped: s, ..self.state };
                true
            },
        }
    }
}

/// One window to paint, from the bottom up.
#[derive(Debug, Clone, Copy, PartialEq, Eq, Structural)]
pub struct PaintItem {
    /// The frame's picture, for decorated windows.
    pub picture: Option<u32>,
    /// The picture of the window's content.
    pub content: u32,
    pub x: i16,
    pub y: i16,
    /// Size of the frame.
    pub width: u32,
    pub height: u32,
    pub border: u16,
    pub title: u16,
    pub client_width: u16,
    pub client_height: u16,
    /// Whether a shadow is drawn under it.
    pub shadow: bool,
    pub opacity: u32,
}

/// Whether the MRU entry with key `a` (layer, position) is painted before
/// the one with key `b`: lower layers first, and within a layer the less
/// recently used first.
pub open spec fn paints_before(a: (u16, int), b: (u16, int)) -> bool {
    a.0 < b.0 || (a.0 == b.0 && a.1 > b.1)
}

/// `s` with `k` inserted after the keys painted before it.
pub open spec fn insert_key(s: Seq<(u16, int)>, k: (u16, int)) -> Seq<(u16, int)>
    decreases s.len(),
{
    if s.len() == 0 {
        seq![k]
    } else if paints_before(s.last(), k) {
        s.push(k)
    } else {
        insert_key(s.drop_last(), k).push(s.last())
    }
}

pub open spec fn sort_keys(s: Seq<(u16, int)>) -> Seq<(u16, int)>
    decreases s.len(),
{
    if s.len() == 0 {
        s
    } else {
        insert_key(sort_keys(s.drop_last()), s.last())
    }
}

/// The (layer, MRU position) keys of the managed windows, in MRU order.
pub open spec fn mru_keys(m: WindowManager) -> Seq<(u16, int)> {
    Seq::new(m.mru_stack@.len(), |k: int| (m.client_of(m.mru_stack@[k]).state.layer, k))
}

/// Whether a client is painted: shown on the current workspace, not
/// minimized, and with a content picture.
pub open spec fn painted(c: Client, ws: u32) -> bool {
    spec_on_workspace(c, ws) && !c.state.is_minimized && c.content_picture.is_some()
}

pub open spec fn paint_item(c: Client) -> PaintItem {
    let (b, t) = spec_decoration(c);
    PaintItem {
        picture: c.picture,
        content: c.content_picture.unwrap(),
        x: c.x,
        y: c.y,
        width: (c.width + 2 * b) as u32,
        height: (c.height + t + 2 * b) as u32,
        border: b,
        title: t,
        client_width: c.width,
        client_height: c.height,
        shadow: !c.state.is_csd && !c.state.is_desktop && !c.state.is_dock,
        opacity: c.hints.opacity,
    }
}

pub open spec fn unmanaged_item(u: UnmanagedWindow) -> PaintItem {
    PaintItem {
        picture: None,
        content: u.picture,
        x: u.x,
        y: u.y,
        width: u.width as u32,
        height: u.height as u32,
        border: 0,
        title: 0,
        client_width: u.width,
        client_height: u.height,
        shadow: false,
        opacity: 0xFFFF_FFFF,
    }
}

/// The painted managed windows in paint order.
pub open spec fn managed_paint_list(m: WindowManager) -> Seq<PaintItem> {
    sort_keys(mru_keys(m)).filter(|k: (u16, int)| painted(m.client_of(m.mru_stack@[k.1]), m.current_workspace)).map_values(
        |k: (u16, int)| paint_item(m.client_of(m.mru_stack@[k.1])),
    )
}

/// Everything the compositor paints, bottom first: the managed windows,
/// then the unmanaged ones.
pub open spec fn spec_paint_list(m: WindowManager) -> Seq<PaintItem> {
    managed_paint_list(m) + m.unmanaged_windows@.map_values(|u: UnmanagedWindow| unmanaged_item(u))
}

/// Whether keys are in paint order.
pub open spec fn keys_sorted(s: Seq<(u16, int)>) -> bool {
    forall|i: int, j: int| 0 <= i < j < s.len() ==> paints_before(#[trigger] s[i], #[trigger] s[j])
}

proof fn lemma_insert_key_sorted(s: Seq<(u16, int)>, k: (u16, int))
    requires
        keys_sorted(s),
        forall|i: int| 0 <= i < s.len() ==> (#[trigger] s[i]).1 != k.1,
    ensures
        keys_sorted(insert_key(s, k)),
        insert_key(s, k).len() == s.len() + 1,
        forall|x: (u16, int)| #[trigger] insert_key(s, k).contains(x) <==> (s.contains(x) || x == k),
    decreases s.len(),
{
    if s.len() == 0 {
        assert(insert_key(s, k) == seq![k]);
        assert forall|x: (u16, int)| insert_key(s, k).contains(x) <==> (s.contains(x) || x == k) by {
            if insert_key(s, k).contains(x) {
                assert(seq![k][0] == k);
            }
            if x == k {
                assert(seq![k][0] == k);
            }
        }
    } else if paints_before(s.last(), k) {
        let r = s.push(k);
        assert(insert_key(s, k) == r);
        assert forall|i: int, j: int| 0 <= i < j < r.len() implies paints_before(#[trigger] r[i], #[trigger] r[j]) by {
            if j == s.len() {
                if i < s.len() - 1 {
                    assert(paints_before(s[i], s[s.len() - 1]));
                }
            } else {
                assert(r[i] == s[i] && r[j] == s[j]);
            }
        }
        assert forall|x: (u16, int)| r.contains(x) <==> (s.contains(x) || x == k) by {
            if r.contains(x) {
                let i = choose|i: int| 0 <= i < r.len() && r[i] == x;
                if i < s.len() {
                    assert(s[i] == x);
                }
            }
            if s.contains(x) {
                let i = choose|i: int| 0 <= i < s.len() && s[i] == x;
                assert(r[i] == x);
            }
            if x == k {
                assert(r[s.len() as int] == k);
            }
        }
    } else {
        let d = s.drop_last();
        let l = s.last();
        assert forall|i: int| 0 <= i < d.len() implies (#[trigger] d[i]).1 != k.1 by {
            assert(d[i] == s[i]);
        }
        assert forall|i: int, j: int| 0 <= i < j < d.len() implies paints_before(#[trigger] d[i], #[trigger] d[j]) by {
            assert(d[i] == s[i] && d[j] == s[j]);
        }
        lemma_insert_key_sorted(d, k);
        let r0 = insert_key(d, k);
        let r = r0.push(l);
        assert(insert_key(s, k) == r);
        assert(l.1 != k.1) by {
            assert(s[s.len() - 1] == l);
        }
        assert forall|i: int| 0 <= i < r0.len() implies paints_before(#[trigger] r0[i], l) by {
            assert(r0.contains(r0[i]));
            if r0[i] == k {
            } else {
                assert(d.contains(r0[i]));
                let j = choose|j: int| 0 <= j < d.len() && d[j] == r0[i];
                assert(s[j] == d[j]);
                assert(paints_before(s[j], s[s.len() - 1]));
            }
        }
        assert forall|i: int, j: int| 0 <= i < j < r.len() implies paints_before(#[trigger] r[i], #[trigger] r[j]) by {
            if j == r0.len() {
                assert(r[i] == r0[i]);
            } else {
                assert(r[i] == r0[i] && r[j] == r0[j]);
            }
        }
        assert forall|x: (u16, int)| r.contains(x) <==> (s.contains(x) || x == k) by {
            if r.contains(x) {
                let i = choose|i: int| 0 <= i < r.len() && r[i] == x;
                if i < r0.len() {
                    assert(r0[i] == x);
                    assert(r0.contains(x));
                    if d.contains(x) {
                        let j = choose|j: int| 0 <= j < d.len() && d[j] == x;
                        assert(s[j] == x);
                    }
                } else {
                    assert(s[s.len() - 1] == x);
                }
            }
            if s.contains(x) {
                let i = choose|i: int| 0 <= i < s.len() && s[i] == x;
                if i < d.len() {
                    assert(d[i] == x);
                    assert(d.contains(x));
                    assert(r0.contains(x));
                    let j = choose|j: int| 0 <= j < r0.len() && r0[j] == x;
                    assert(r[j] == x);
                } else {
                    assert(r[r0.len() as int] == x);
                }
            }
            if x == k {
                assert(insert_key(d, k).contains(x));
                let j = choose|j: int| 0 <= j < r0.len() && r0[j] == x;
                assert(r[j] == x);
            }
        }
    }
}

proof fn lemma_sort_keys_sorted(s: Seq<(u16, int)>)
    requires
        forall|i: int, j: int| 0 <= i < j < s.len() ==> (#[trigger] s[i]).1 != (#[trigger] s[j]).1,
    ensures
        keys_sorted(sort_keys(s)),
        sort_keys(s).len() == s.len(),
        forall|x: (u16, int)| #[trigger] sort_keys(s).contains(x) <==> s.contains(x),
    decreases s.len(),
{
    if s.len() == 0 {
    } else {
        let d = s.drop_last();
        let l = s.last();
        assert forall|i: int, j: int| 0 <= i < j < d.len() implies (#[trigger] d[i]).1 != (#[trigger] d[j]).1 by {
            assert(d[i] == s[i] && d[j] == s[j]);
        }
        lemma_sort_keys_sorted(d);
        let sd = sort_keys(d);
        assert forall|i: int| 0 <= i < sd.len() implies (#[trigger] sd[i]).1 != l.1 by {
            assert(sort_keys(d).contains(sd[i]));
            assert(d.contains(sd[i]));
            let j = choose|j: int| 0 <= j < d.len() && d[j] == sd[i];
            assert(s[j] == d[j]);
            assert(s[s.len() - 1] == l);
        }
        lemma_insert_key_sorted(sd, l);
        assert forall|x: (u16, int)| sort_keys(s).contains(x) <==> s.contains(x) by {
            if s.contains(x) {
                let i = choose|i: int| 0 <= i < s.len() && s[i] == x;
                if i < d.len() {
                    assert(d[i] == x);
                    assert(d.contains(x));
                }
            }
            if d.contains(x) {
                let i = choose|i: int| 0 <= i < d.len() && d[i] == x;
                assert(s[i] == x);
            }
            if x == l {
                assert(s[s.len() - 1] == x);
            }
        }
    }
}

/// Two elements kept by a filter keep their order, and a map keeps
/// positions.
proof fn lemma_filter_map_order<A, B>(s: Seq<A>, f: spec_fn(A) -> bool, g: spec_fn(A) -> B, p: int, q: int)
    requires
        0 <= p < q < s.len(),
        f(s[p]),
        f(s[q]),
    ensures
        exists|j: int, i: int|
            0 <= j < i < s.filter(f).map_values(g).len() && s.filter(f).map_values(g)[i] == g(s[q])
                && s.filter(f).map_values(g)[j] == g(s[p]),
{
    let s1 = s.take(p + 1);
    let s2 = s.skip(p + 1);
    assert(s =~= s1 + s2);
    Seq::filter_distributes_over_add(s1, s2, f);
    let f1 = s1.filter(f);
    let f2 = s2.filter(f);
    assert(s1[p] == s[p]);
    s1.lemma_filter_contains(f, p);
    assert(s2[q - p - 1] == s[q]);
    s2.lemma_filter_contains(f, q - p - 1);
    let j = choose|j: int| 0 <= j < f1.len() && f1[j] == s[p];
    let i2 = choose|i: int| 0 <= i < f2.len() && f2[i] == s[q];
    let all = s.filter(f);
    assert(all == f1 + f2);
    assert(all[j] == s[p]);
    assert(all[f1.len() + i2] == s[q]);
    let mv = all.map_values(g);
    assert(mv[j] == g(s[p]));
    assert(mv[f1.len() + i2] == g(s[q]));
}

/// Paint order of managed windows: of two painted windows, the one in a
/// lower layer is painted first, and within a layer the one used less
/// recently (further down the MRU list) is painted first, so the more
/// recent one ends on top.
pub proof fn lemma_paint_order(m: WindowManager, a: int, b: int)
    requires
        0 <= a < m.mru_stack@.len(),
        0 <= b < m.mru_stack@.len(),
        a != b,
        painted(m.client_of(m.mru_stack@[a]), m.current_workspace),
        painted(m.client_of(m.mru_stack@[b]), m.current_workspace),
        m.client_of(m.mru_stack@[b]).state.layer < m.client_of(m.mru_stack@[a]).state.layer || (m.client_of(
            m.mru_stack@[b],
        ).state.layer == m.client_of(m.mru_stack@[a]).state.layer && a < b),
    ensures
        exists|j: int, i: int|
            0 <= j < i < spec_paint_list(m).len() && spec_paint_list(m)[i] == paint_item(m.client_of(m.mru_stack@[a]))
                && spec_paint_list(m)[j] == paint_item(m.client_of(m.mru_stack@[b])),
{
    let k = mru_keys(m);
    assert forall|i: int, j: int| 0 <= i < j < k.len() implies (#[trigger] k[i]).1 != (#[trigger] k[j]).1 by {}
    lemma_sort_keys_sorted(k);
    let s = sort_keys(k);
    let ka = k[a];
    let kb = k[b];
    assert(k.contains(ka));
    assert(k.contains(kb));
    assert(s.contains(ka));
    assert(s.contains(kb));
    let pa = choose|i: int| 0 <= i < s.len() && s[i] == ka;
    let pb = choose|i: int| 0 <= i < s.len() && s[i] == kb;
    assert(pa != pb);
    if pa < pb {
        assert(paints_before(s[pa], s[pb]));
        assert(false);
    }
    let f = |x: (u16, int)| painted(m.client_of(m.mru_stack@[x.1]), m.current_workspace);
    let g = |x: (u16, int)| paint_item(m.client_of(m.mru_stack@[x.1]));
    lemma_filter_map_order(s, f, g, pb, pa);
    let ml = s.filter(f).map_values(g);
    assert(ml == managed_paint_list(m));
    let (j2, i2) = choose|j: int, i: int| 0 <= j < i < ml.len() && ml[i] == g(s[pa]) && ml[j] == g(s[pb]);
    let all = spec_paint_list(m);
    assert(all[i2] == ml[i2]);
    assert(all[j2] == ml[j2]);
}

proof fn lemma_insert_key_at(s: Seq<(u16, int)>, x: (u16, int), k: int)
    requires
        0 <= k <= s.len(),
        forall|j: int| k <= j < s.len() ==> !paints_before(#[trigger] s[j], x),
        k == 0 || paints_before(s[k - 1], x),
    ensures
        insert_key(s, x) == s.take(k) + seq![x] + s.skip(k),
    decreases s.len(),
{
    if s.len() == 0 {
        assert(s.take(k) + seq![x] + s.skip(k) =~= seq![x]);
    } else if k == s.len() {
        assert(s.last() == s[k - 1]);
        assert(s.take(k) + seq![x] + s.skip(k) =~= s.push(x));
    } else {
        let t = s.drop_last();
        assert(!paints_before(s.last(), x)) by {
            assert(s.last() == s[s.len() - 1]);
        }
        assert forall|j: int| k <= j < t.len() implies !paints_before(#[trigger] t[j], x) by {
            assert(t[j] == s[j]);
        }
        if k > 0 {
            assert(t[k - 1] == s[k - 1]);
        }
        lemma_insert_key_at(t, x, k);
        assert(t.take(k) + seq![x] + t.skip(k) + seq![s.last()] =~= s.take(k) + seq![x] + s.skip(k));
    }
}

impl WindowManager {
    /// The managed window a property change on `w` concerns: `w` itself, or
    /// the window whose user-time window `w` is.
    pub fn property_target(&self, w: u32) -> (r: Option<u32>)
        ensures
            self.has_client(w) ==> r == Some(w),
            !self.has_client(w) ==> (r matches Some(t) ==> exists|j: int|
                0 <= j < self.clients@.len() && self.clients@[j].window == t && self.clients@[j].hints.user_time_window
                    == Some(w)),
            !self.has_client(w) ==> (r is None <==> forall|j: int|
                0 <= j < self.clients@.len() ==> self.clients@[j].hints.user_time_window != Some(w)),
    {
        match self.find_client(w) {
            Some(i) => Some(w),
            None => self.find_client_by_user_time_window(w),
        }
    }

    /// Applies a property change to the managed window `w`; gives whether
    /// to repaint, or none for a window not managed.
    pub fn apply_property(&mut self, w: u32, u: PropertyUpdate) -> (r: Option<bool>)
        requires
            old(self).wf(),
        ensures
            final(self).wf(),
            final(self).mru_stack@ == old(self).mru_stack@,
            final(self).focused_window == old(self).focused_window,
            final(self).drag_state == old(self).drag_state,
            final(self).current_workspace == old(self).current_workspace,
            !old(self).has_client(w) ==> r is None && final(self).clients@ == old(self).clients@,
            old(self).has_client(w) ==> {
                let (c2, repaint) = spec_apply_property(old(self).client_of(w), u);
                &&& r == Some(repaint)
                &&& final(self).clients@ == old(self).clients@.update(old(self).client_index(w), c2)
            },
    {
        match self.find_client(w) {
            Some(i) => {
                proof {
                    self.lemma_client_of(i as int);
                }
                let repaint = self.clients[i].apply_property(u);
                proof {
                    lemma_same_windows(old(self), self);
                }
                Some(repaint)
            },
            None => None,
        }
    }

    /// What the compositor paints, bottom first: the managed windows shown
    /// on the current workspace and not minimized, by layer and then from
    /// the least recently used, then the unmanaged windows.
    pub fn paint_list(&self) -> (r: Vec<PaintItem>)
        requires
            self.wf(),
        ensures
            r@ == spec_paint_list(*self),
    {
        let n = self.mru_stack.len();
        let ghost all = mru_keys(*self);
        let mut keys: Vec<(u16, usize)> = Vec::new();
        let mut idx: Vec<usize> = Vec::new();
        let mut k: usize = 0;
        while k < n
            invariant
                self.wf(),
                n == self.mru_stack@.len(),
                k <= n,
                all == mru_keys(*self),
                keys@.len() == idx@.len(),
                forall|j: int| 0 <= j < keys@.len() ==> (#[trigger] keys@[j]).1 == idx@[j] && idx@[j] < n,
                keys@.map_values(|p: (u16, usize)| (p.0, p.1 as int)) == sort_keys(all.take(k as int)),
            decreases n - k,
        {
            let w = self.mru_stack[k];
            let i = self.find_client(w).unwrap_or(0);
            let layer = if i < self.clients.len() { self.clients[i].state.layer } else { 0 };
            proof {
                reveal(WindowManager::wf);
                assert(self.mru_stack@.contains(w));
                assert(self.has_client(w));
                self.lemma_client_of(i as int);
                assert(all[k as int] == (layer, k as int));
                assert(all.take(k + 1).drop_last() == all.take(k as int));
                assert(all.take(k + 1).last() == (layer, k as int));
            }
            let mut p: usize = keys.len();
            let ghost sk = keys@.map_values(|p: (u16, usize)| (p.0, p.1 as int));
            while p > 0 && (keys[p - 1].0 < layer || (keys[p - 1].0 == layer && keys[p - 1].1 > k)) == false
                invariant
                    p <= keys@.len(),
                    sk == keys@.map_values(|q: (u16, usize)| (q.0, q.1 as int)),
                    forall|j: int| p <= j < keys@.len() ==> !paints_before(#[trigger] sk[j], (layer, k as int)),
                decreases p,
            {
                proof {
                    assert(sk[p - 1] == (keys@[p - 1].0, keys@[p - 1].1 as int));
                }
                p -= 1;
            }
            proof {
                if p > 0 {
                    assert(sk[p - 1] == (keys@[p - 1].0, keys@[p - 1].1 as int));
                }
                lemma_insert_key_at(sk, (layer, k as int), p as int);
            }
            let ghost old_keys = keys@;
            let ghost old_idx = idx@;
            keys.insert(p, (layer, k));
            idx.insert(p, k);
            proof {
                assert(keys@.map_values(|q: (u16, usize)| (q.0, q.1 as int)) =~= sk.take(p as int) + seq![(layer, k as int)]
                    + sk.skip(p as int));
                assert forall|j: int| 0 <= j < keys@.len() implies (#[trigger] keys@[j]).1 == idx@[j] && idx@[j] < n by {
                    if j < p {
                        assert(keys@[j] == old_keys[j]);
                        assert(idx@[j] == old_idx[j]);
                    } else if j > p {
                        assert(keys@[j] == old_keys[j - 1]);
                        assert(idx@[j] == old_idx[j - 1]);
                    }
                }
            }
            k += 1;
        }
        proof {
            assert(all.take(n as int) == all);
        }
        let ghost sorted = sort_keys(all);
        let ghost f = |kk: (u16, int)| painted(self.client_of(self.mru_stack@[kk.1]), self.current_workspace);
        let ghost g = |kk: (u16, int)| paint_item(self.client_of(self.mru_stack@[kk.1]));
        let mut out: Vec<PaintItem> = Vec::new();
        let mut j: usize = 0;
        while j < keys.len()
            invariant
                self.wf(),
                n == self.mru_stack@.len(),
                j <= keys@.len(),
                keys@.len() == idx@.len(),
                forall|q: int| 0 <= q < keys@.len() ==> (#[trigger] keys@[q]).1 == idx@[q] && idx@[q] < n,
                sorted == keys@.map_values(|p: (u16, usize)| (p.0, p.1 as int)),
                f == (|kk: (u16, int)| painted(self.client_of(self.mru_stack@[kk.1]), self.current_workspace)),
                g == (|kk: (u16, int)| paint_item(self.client_of(self.mru_stack@[kk.1]))),
                out@ == sorted.take(j as int).filter(f).map_values(g),
            decreases keys.len() - j,
        {
            let pos = idx[j];
            proof {
                assert(keys@[j as int].1 == idx@[j as int]);
            }
            let w = self.mru_stack[pos];
            let i = self.find_client(w).unwrap_or(0);
            let ghost key = sorted[j as int];
            proof {
                reveal(WindowManager::wf);
                assert(self.mru_stack@.contains(w));
                assert(self.has_client(w));
                self.lemma_client_of(i as int);
                assert(key.1 == pos);
                assert(sorted.take(j + 1) == sorted.take(j as int).push(key));
                sorted.take(j as int).lemma_filter_push(key, f);
            }
            let c = &self.clients[i];
            if c.on_workspace(self.current_workspace) && !c.state.is_minimized {
                if let Some(content) = c.content_picture {
                    let (b, t) = c.decoration();
                    let item = PaintItem {
                        picture: c.picture,
                        content,
                        x: c.x,
                        y: c.y,
                        width: c.width as u32 + 2 * b as u32,
                        height: c.height as u32 + t as u32 + 2 * b as u32,
                        border: b,
                        title: t,
                        client_width: c.width,
                        client_height: c.height,
                        shadow: !c.state.is_csd && !c.state.is_desktop && !c.state.is_dock,
                        opacity: c.hints.opacity,
                    };
                    let ghost before = out@;
                    out.push(item);
                    proof {
                        assert(sorted.take(j as int).filter(f).push(key).map_values(g) =~= before.push(item));
                    }
                }
            }
            j += 1;
        }
        proof {
            assert(sorted.take(keys@.len() as int) == sorted);
        }
        let ghost managed = out@;
        let mut u: usize = 0;
        while u < self.unmanaged_windows.len()
            invariant
                u <= self.unmanaged_windows@.len(),
                out@ == managed + self.unmanaged_windows@.take(u as int).map_values(|x: UnmanagedWindow| unmanaged_item(x)),
            decreases self.unmanaged_windows.len() - u,
        {
            let x = self.unmanaged_windows[u];
            out.push(PaintItem {
                picture: None,
                content: x.picture,
                x: x.x,
                y: x.y,
                width: x.width as u32,
                height: x.height as u32,
                border: 0,
                title: 0,
                client_width: x.width,
                client_height: x.height,
                shadow: false,
                opacity: 0xFFFF_FFFF,
            });
            proof {
                assert(self.unmanaged_windows@.take(u + 1) == self.unmanaged_windows@.take(u as int).push(x));
                assert(out@ =~= managed + self.unmanaged_windows@.take(u + 1).map_values(|y: UnmanagedWindow| unmanaged_item(y)));
            }
            u += 1;
        }
        proof {
            assert(self.unmanaged_windows@.take(self.unmanaged_windows@.len() as int) == self.unmanaged_windows@);
        }
        out
    }
}

} // verus!
