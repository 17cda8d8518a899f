//! Client liveness (`_NET_WM_PING`): which windows to ping on each round,
//! which have left a ping unanswered for too long, and what an answer
//! clears. The caller keeps the clock, sends the pings and reads the
//! answers.

use vstd::prelude::*;

verus! {

/// How long a ping may stay unanswered before its window counts as not
/// responding, in milliseconds.
pub const PING_TIMEOUT_MS: u64 = 5000;

/// Whether a ping to `w` is waiting for its answer.
pub open spec fn ping_pending(p: Seq<(u32, u64)>, w: u32) -> bool {
    exists|i: int| 0 <= i < p.len() && p[i].0 == w
}

/// Whether a ping to `w` sent at least `PING_TIMEOUT_MS` before `now` is
/// still unanswered.
pub open spec fn ping_overdue(p: Seq<(u32, u64)>, w: u32, now: u64) -> bool {
    exists|i: int| 0 <= i < p.len() && p[i].0 == w && now >= p[i].1 + PING_TIMEOUT_MS
}

/// The windows of a round that are pinged: those with no ping pending.
pub open spec fn to_ping(p: Seq<(u32, u64)>, candidates: Seq<u32>) -> Seq<u32> {
    candidates.filter(|w: u32| !ping_pending(p, w))
}

/// The windows of a round that do not respond.
pub open spec fn unresponsive(p: Seq<(u32, u64)>, candidates: Seq<u32>, now: u64) -> Seq<u32> {
    candidates.filter(|w: u32| ping_overdue(p, w, now))
}

/// The pings waiting for an answer, as (window, time sent).
pub struct PingMonitor {
    pub pending: Vec<(u32, u64)>,
}

/// What a round of pinging asks for.
#[derive(Debug, Clone, PartialEq, Eq)]
pub struct PingRound {
    /// Send `_NET_WM_PING` to these windows.
    pub send: Vec<u32>,
    /// These windows left a ping unanswered for too long.
    pub not_responding: Vec<u32>,
}

fn pending_state(p: &Vec<(u32, u64)>, w: u32, now: u64) -> (r: (bool, bool))
    ensures
        r.0 == ping_pending(p@, w),
        r.1 == ping_overdue(p@, w, now),
{
    let mut has_ping = false;
    let mut overdue = false;
    let mut i: usize = 0;
    while i < p.len()
        invariant
            i <= p@.len(),
            has_ping == (exists|j: int| 0 <= j < i && p@[j].0 == w),
            overdue == (exists|j: int| 0 <= j < i && p@[j].0 == w && now >= p@[j].1 + PING_TIMEOUT_MS),
        decreases p.len() - i,
    {
        let (x, sent) = p[i];
        if x == w {
            has_ping = true;
            if now >= sent && now - sent >= PING_TIMEOUT_MS {
                overdue = true;
            }
        }
        i += 1;
    }
    (has_ping, overdue)
}

impl PingMonitor {
    /// No ping sent yet.
    pub fn new() -> (r: Self)
        ensures
            r.pending@.len() == 0,
    {
        PingMonitor { pending: Vec::new() }
    }

    /// A round at time `now` (milliseconds) over the windows that take
    /// pings: those without a pending ping are pinged and their pings
    /// recorded as sent now; those whose ping is overdue are reported.
    pub fn round(&mut self, now: u64, candidates: &[u32]) -> (r: PingRound)
        ensures
            r.send@ == to_ping(old(self).pending@, candidates@),
            r.not_responding@ == unresponsive(old(self).pending@, candidates@, now),
            final(self).pending@ == old(self).pending@ + to_ping(old(self).pending@, candidates@).map_values(
                |w: u32| (w, now),
            ),
    {
        let ghost p = self.pending@;
        let ghost fs = |w: u32| !ping_pending(p, w);
        let ghost fo = |w: u32| ping_overdue(p, w, now);
        let mut send: Vec<u32> = Vec::new();
        let mut late: Vec<u32> = Vec::new();
        let mut i: usize = 0;
        while i < candidates.len()
            invariant
                p == self.pending@,
                fs == (|w: u32| !ping_pending(p, w)),
                fo == (|w: u32| ping_overdue(p, w, now)),
                i <= candidates@.len(),
                send@ == candidates@.take(i as int).filter(fs),
                late@ == candidates@.take(i as int).filter(fo),
            decreases candidates.len() - i,
        {
            let w = candidates[i];
            proof {
                assert(candidates@.take(i + 1) == candidates@.take(i as int).push(w));
                candidates@.take(i as int).lemma_filter_push(w, fs);
                candidates@.take(i as int).lemma_filter_push(w, fo);
            }
            let (has_ping, overdue) = pending_state(&self.pending, w, now);
            if !has_ping {
                send.push(w);
            }
            if overdue {
                late.push(w);
            }
            i += 1;
        }
        proof {
            assert(candidates@.take(candidates@.len() as int) == candidates@);
        }
        let ghost g = |w: u32| (w, now);
        let mut k: usize = 0;
        while k < send.len()
            invariant
                k <= send@.len(),
                g == (|w: u32| (w, now)),
                self.pending@ == p + send@.take(k as int).map_values(g),
            decreases send.len() - k,
        {
            self.pending.push((send[k], now));
            proof {
                assert(send@.take(k + 1) == send@.take(k as int).push(send@[k as int]));
                assert(p + send@.take(k + 1).map_values(g) =~= (p + send@.take(k as int).map_values(g)).push((send@[k as int], now)));
            }
            k += 1;
        }
        proof {
            assert(send@.take(send@.len() as int) == send@);
        }
        PingRound { send, not_responding: late }
    }

    /// Drops the pings waiting on `w`, because it answered or went away;
    /// whether any was waiting.
    pub fn clear(&mut self, w: u32) -> (r: bool)
        ensures
            r == ping_pending(old(self).pending@, w),
            final(self).pending@ == old(self).pending@.filter(|x: (u32, u64)| x.0 != w),
    {
        let ghost p = self.pending@;
        let ghost f = |x: (u32, u64)| x.0 != w;
        let mut kept: Vec<(u32, u64)> = Vec::new();
        let mut hit = false;
        let mut i: usize = 0;
        while i < self.pending.len()
            invariant
                p == self.pending@,
                f == (|x: (u32, u64)| x.0 != w),
                i <= p.len(),
                kept@ == p.take(i as int).filter(f),
                hit == (exists|j: int| 0 <= j < i && p[j].0 == w),
            decreases p.len() - i,
        {
            let x = self.pending[i];
            proof {
                assert(p.take(i + 1) == p.take(i as int).push(x));
                p.take(i as int).lemma_filter_push(x, f);
            }
            if x.0 == w {
                hit = true;
            } else {
                kept.push(x);
            }
            i += 1;
        }
        proof {
            assert(p.take(p.len() as int) == p);
        }
        self.pending = kept;
        hit
    }
}

/// After an answer from `w`, a round pings `w` again, and does not report
/// it, whatever was pending before.
pub proof fn lemma_answered_window_is_pinged_again(p: Seq<(u32, u64)>, w: u32, now: u64)
    ensures
        !ping_pending(p.filter(|x: (u32, u64)| x.0 != w), w),
        !ping_overdue(p.filter(|x: (u32, u64)| x.0 != w), w, now),
        to_ping(p.filter(|x: (u32, u64)| x.0 != w), seq![w]) == seq![w],
        unresponsive(p.filter(|x: (u32, u64)| x.0 != w), seq![w], now) == Seq::<u32>::empty(),
{
    let f = |x: (u32, u64)| x.0 != w;
    let q = p.filter(f);
    assert forall|i: int| 0 <= i < q.len() implies q[i].0 != w by {
        assert(f(q[i]));
    }
    let s = seq![w];
    assert(s.drop_last() =~= Seq::<u32>::empty());
    reveal_with_fuel(Seq::filter, 2);
    assert(to_ping(q, s) =~= seq![w]);
    assert(unresponsive(q, s, now) =~= Seq::<u32>::empty());
}

} // verus!
