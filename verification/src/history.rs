use std::collections::VecDeque;
use vstd::prelude::*;

verus! {

/// The last `n` elements of `s` (all of `s` when it is shorter).
pub open spec fn keep_last<T>(s: Seq<T>, n: nat) -> Seq<T> {
    if s.len() > n {
        s.skip(s.len() - n)
    } else {
        s
    }
}

/// A first-in first-out history that keeps only the most recent `limit`
/// entries; pushing into a full history evicts the oldest entry.
pub struct BoundedHistory<T> {
    items: VecDeque<T>,
    limit: usize,
}

impl<T> View for BoundedHistory<T> {
    type V = Seq<T>;

    closed spec fn view(&self) -> Seq<T> {
        self.items@
    }
}

impl<T> BoundedHistory<T> {
    /// The most entries the history keeps.
    pub closed spec fn spec_limit(&self) -> nat {
        self.limit as nat
    }

    /// Well-formedness: never more entries than the limit.
    pub closed spec fn wf(&self) -> bool {
        self.items@.len() <= self.limit
    }

    /// An empty history keeping at most `limit` entries.
    pub fn new(limit: usize) -> (r: Self)
        ensures
            r.wf(),
            r@ == Seq::<T>::empty(),
            r.spec_limit() == limit,
    {
        BoundedHistory { items: VecDeque::new(), limit }
    }

    /// Number of entries held.
    pub fn len(&self) -> (n: usize)
        ensures
            n == self@.len(),
    {
        broadcast use vstd::std_specs::vecdeque::group_vec_dequeue_axioms;

        self.items.len()
    }

    /// The most entries the history keeps.
    pub fn limit(&self) -> (n: usize)
        ensures
            n == self.spec_limit(),
    {
        self.limit
    }

    /// Appends `item` as the newest entry and, when that takes the history
    /// over its limit, evicts and returns the oldest one.
    pub fn push(&mut self, item: T) -> (evicted: Option<T>)
        requires
            old(self).wf(),
        ensures
            final(self).wf(),
            final(self).spec_limit() == old(self).spec_limit(),
            final(self)@ == keep_last(old(self)@.push(item), old(self).spec_limit()),
            match evicted {
                Some(x) => old(self)@.len() == old(self).spec_limit() && x == old(self)@.push(
                    item,
                )[0],
                None => old(self)@.len() < old(self).spec_limit(),
            },
    {
        broadcast use vstd::std_specs::vecdeque::group_vec_dequeue_axioms;

        let ghost pushed = self.items@.push(item);
        self.items.push_back(item);
        if self.items.len() > self.limit {
            let evicted = self.items.pop_front();
            assert(self.items@ =~= keep_last(pushed, self.limit as nat));
            evicted
        } else {
            None
        }
    }

    /// The oldest entry, if any.
    pub fn front(&self) -> (r: Option<&T>)
        ensures
            match r {
                Some(x) => self@.len() > 0 && *x == self@[0],
                None => self@.len() == 0,
            },
    {
        broadcast use vstd::std_specs::vecdeque::group_vec_dequeue_axioms;

        if self.items.len() == 0 {
            None
        } else {
            Some(&self.items[0])
        }
    }

    /// The newest entry, if any.
    pub fn back(&self) -> (r: Option<&T>)
        ensures
            match r {
                Some(x) => self@.len() > 0 && *x == self@[self@.len() - 1],
                None => self@.len() == 0,
            },
    {
        broadcast use vstd::std_specs::vecdeque::group_vec_dequeue_axioms;

        let n = self.items.len();
        if n == 0 {
            None
        } else {
            Some(&self.items[n - 1])
        }
    }

    /// The entry at `index`, counted from the oldest.
    pub fn get(&self, index: usize) -> (r: Option<&T>)
        ensures
            match r {
                Some(x) => index < self@.len() && *x == self@[index as int],
                None => index >= self@.len(),
            },
    {
        broadcast use vstd::std_specs::vecdeque::group_vec_dequeue_axioms;

        if index < self.items.len() {
            Some(&self.items[index])
        } else {
            None
        }
    }

    /// Removes every entry.
    pub fn clear(&mut self)
        ensures
            final(self).wf(),
            final(self)@ == Seq::<T>::empty(),
            final(self).spec_limit() == old(self).spec_limit(),
    {
        self.items.clear();
    }
}

/// Number of `true` entries in `s`.
pub open spec fn count_true(s: Seq<bool>) -> nat
    decreases s.len(),
{
    if s.len() == 0 {
        0
    } else {
        count_true(s.drop_last()) + if s.last() {
            1nat
        } else {
            0nat
        }
    }
}

/// Number of `false` entries in `s`.
pub open spec fn count_false(s: Seq<bool>) -> nat
    decreases s.len(),
{
    if s.len() == 0 {
        0
    } else {
        count_false(s.drop_last()) + if s.last() {
            0nat
        } else {
            1nat
        }
    }
}

/// Every entry is either `true` or `false`.
pub proof fn lemma_counts_sum(s: Seq<bool>)
    ensures
        count_true(s) + count_false(s) == s.len(),
    decreases s.len(),
{
    if s.len() > 0 {
        lemma_counts_sum(s.drop_last());
    }
}

/// Dropping the oldest entry removes exactly that entry from the counts.
pub proof fn lemma_counts_drop_first(s: Seq<bool>)
    requires
        s.len() > 0,
    ensures
        count_true(s) == count_true(s.drop_first()) + if s[0] {
            1nat
        } else {
            0nat
        },
        count_false(s) == count_false(s.drop_first()) + if s[0] {
            0nat
        } else {
            1nat
        },
    decreases s.len(),
{
    if s.len() > 1 {
        let a = s.drop_last();
        let b = s.drop_first();
        lemma_counts_drop_first(a);
        assert(a.drop_first() =~= b.drop_last());
        assert(b.last() == s.last());
        assert(a[0] == s[0]);
        assert(count_true(b) == count_true(b.drop_last()) + if b.last() {
            1nat
        } else {
            0nat
        });
        assert(count_false(b) == count_false(b.drop_last()) + if b.last() {
            0nat
        } else {
            1nat
        });
    } else {
        assert(s.drop_first() =~= Seq::<bool>::empty());
        assert(s.drop_last() =~= Seq::<bool>::empty());
    }
}

/// Frames over which the transport loss rate is measured.
pub const TRANSPORT_LOSS_RATE_WINDOW_FRAMES: usize = 2400;

/// Delivery outcome of the most recent transport frames: `true` for a frame
/// that arrived, `false` for one that had to be concealed.
pub struct TransportLossWindow {
    outcomes: BoundedHistory<bool>,
    received: u32,
    concealed: u32,
}

impl View for TransportLossWindow {
    type V = Seq<bool>;

    closed spec fn view(&self) -> Seq<bool> {
        self.outcomes@
    }
}

impl TransportLossWindow {
    /// Well-formedness: the window keeps the configured number of outcomes
    /// and its two counters agree with them.
    pub closed spec fn wf(&self) -> bool {
        &&& self.outcomes.wf()
        &&& self.outcomes.spec_limit() == TRANSPORT_LOSS_RATE_WINDOW_FRAMES
        &&& self.received == count_true(self.outcomes@)
        &&& self.concealed == count_false(self.outcomes@)
    }

    /// An empty window.
    pub fn new() -> (r: Self)
        ensures
            r.wf(),
            r@ == Seq::<bool>::empty(),
    {
        TransportLossWindow {
            outcomes: BoundedHistory::new(TRANSPORT_LOSS_RATE_WINDOW_FRAMES),
            received: 0,
            concealed: 0,
        }
    }

    fn record(&mut self, delivered: bool)
        requires
            old(self).wf(),
        ensures
            final(self).wf(),
            final(self)@ == keep_last(
                old(self)@.push(delivered),
                TRANSPORT_LOSS_RATE_WINDOW_FRAMES as nat,
            ),
    {
        proof {
            lemma_counts_sum(self.outcomes@);
        }
        let ghost pushed = self.outcomes@.push(delivered);
        assert(pushed.drop_last() =~= self.outcomes@);
        let evicted = self.outcomes.push(delivered);
        if delivered {
            self.received = self.received + 1;
        } else {
            self.concealed = self.concealed + 1;
        }
        match evicted {
            Some(oldest) => {
                proof {
                    lemma_counts_drop_first(pushed);
                    assert(pushed.drop_first() =~= self.outcomes@);
                }
                if oldest {
                    self.received = self.received - 1;
                } else {
                    self.concealed = self.concealed - 1;
                }
            },
            None => {},
        }
    }

    /// Records a frame that arrived from the peer.
    pub fn record_received(&mut self)
        requires
            old(self).wf(),
        ensures
            final(self).wf(),
            final(self)@ == keep_last(old(self)@.push(true), TRANSPORT_LOSS_RATE_WINDOW_FRAMES as nat),
    {
        self.record(true);
    }

    /// Records a frame that had to be concealed.
    pub fn record_concealed(&mut self)
        requires
            old(self).wf(),
        ensures
            final(self).wf(),
            final(self)@ == keep_last(
                old(self)@.push(false),
                TRANSPORT_LOSS_RATE_WINDOW_FRAMES as nat,
            ),
    {
        self.record(false);
    }

    /// Received frames inside the window.
    pub fn received(&self) -> (n: u32)
        requires
            self.wf(),
        ensures
            n == count_true(self@),
    {
        self.received
    }

    /// Concealed frames inside the window.
    pub fn concealed(&self) -> (n: u32)
        requires
            self.wf(),
        ensures
            n == count_false(self@),
    {
        self.concealed
    }
}

/// Packet counters of a transport link. The four `*_packets` counters run
/// since the link was created; the two `window_*` counters cover only the
/// most recent `TRANSPORT_LOSS_RATE_WINDOW_FRAMES` frames.
#[derive(Clone, Copy, Debug)]
pub struct TransportStats {
    pub sent_packets: u64,
    pub received_packets: u64,
    pub concealed_packets: u64,
    pub dropped_packets: u64,
    pub window_received_packets: u32,
    pub window_concealed_packets: u32,
}

impl Default for TransportStats {
    fn default() -> (r: Self)
        ensures
            r == TransportStats::zeroed(),
    {
        TransportStats {
            sent_packets: 0,
            received_packets: 0,
            concealed_packets: 0,
            dropped_packets: 0,
            window_received_packets: 0,
            window_concealed_packets: 0,
        }
    }
}

impl TransportStats {
    /// All counters at zero.
    pub open spec fn zeroed() -> TransportStats {
        TransportStats {
            sent_packets: 0,
            received_packets: 0,
            concealed_packets: 0,
            dropped_packets: 0,
            window_received_packets: 0,
            window_concealed_packets: 0,
        }
    }

    /// These counters with the window counters taken from `window`.
    pub fn with_loss_window(&self, window: &TransportLossWindow) -> (r: TransportStats)
        requires
            window.wf(),
        ensures
            r == (TransportStats {
                window_received_packets: count_true(window@) as u32,
                window_concealed_packets: count_false(window@) as u32,
                ..*self
            }),
    {
        TransportStats {
            window_received_packets: window.received(),
            window_concealed_packets: window.concealed(),
            ..*self
        }
    }

    /// The loss rate of the window as a fraction: the concealed frames and
    /// all frames of the window. The rate is zero when the window is empty.
    pub fn loss_counts(&self) -> (r: (u32, u64))
        ensures
            r.0 == self.window_concealed_packets,
            r.1 == self.window_received_packets + self.window_concealed_packets,
    {
        (
            self.window_concealed_packets,
            self.window_received_packets as u64 + self.window_concealed_packets as u64,
        )
    }
}

} // verus!
