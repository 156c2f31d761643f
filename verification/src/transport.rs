use crate::history::{keep_last, TransportLossWindow, TransportStats, TRANSPORT_LOSS_RATE_WINDOW_FRAMES};
use crate::jitter::{
    holds_sequence, lemma_holds_sequence, position_of, sorted_insert, sorted_remove,
    strictly_sorted, JitterBuffer,
};
use crate::model::{
    now_micros, silence, AudioFrame, FrameView, NodeIdentity, NodeRole, SessionMode,
    SAMPLES_PER_FRAME, SAMPLE_RATE_HZ,
};
use crate::packet::{decode_packet, encode_packet, spec_decode_packet, spec_encode_packet};
use std::collections::VecDeque;
use vstd::prelude::*;

verus! {

/// The frame handed out when nothing arrived in time: the last delivered
/// frame renumbered to `sequence` (its capture time is the time of the call
/// and is not stated), or silence when nothing was ever delivered.
pub open spec fn is_concealment(r: FrameView, last: Option<FrameView>, sequence: u64) -> bool {
    match last {
        Some(l) => r.sequence == sequence && r.sample_rate == l.sample_rate && r.samples
            == l.samples,
        None => r.sequence == sequence && r.sample_rate == SAMPLE_RATE_HZ && r.samples == silence(
            SAMPLES_PER_FRAME as nat,
        ),
    }
}

/// The window after one more delivery outcome.
pub open spec fn window_after(window: Seq<bool>, delivered: bool) -> Seq<bool> {
    keep_last(window.push(delivered), TRANSPORT_LOSS_RATE_WINDOW_FRAMES as nat)
}

/// A loopback link for offline runs: every sent frame comes back after a
/// fixed number of frames.
pub struct MockTransport {
    delay_frames: usize,
    queue: VecDeque<AudioFrame>,
    last_frame: Option<AudioFrame>,
    loss_window: TransportLossWindow,
    stats: TransportStats,
}

impl MockTransport {
    /// Frames that must wait in the queue before one is delivered.
    pub closed spec fn spec_delay_frames(&self) -> nat {
        self.delay_frames as nat
    }

    /// The frames sent and not yet delivered, oldest first.
    pub closed spec fn queued(&self) -> Seq<FrameView> {
        self.queue@.map_values(|f: AudioFrame| f@)
    }

    /// The most recently delivered frame.
    pub closed spec fn last_delivered(&self) -> Option<FrameView> {
        match self.last_frame {
            Some(f) => Some(f@),
            None => None,
        }
    }

    /// Delivery outcomes of the most recent frames.
    pub closed spec fn window(&self) -> Seq<bool> {
        self.loss_window@
    }

    /// The cumulative counters.
    pub closed spec fn counters(&self) -> TransportStats {
        self.stats
    }

    pub closed spec fn wf(&self) -> bool {
        self.loss_window.wf()
    }

    /// A link that holds back `delay_frames` frames.
    pub fn new(delay_frames: usize) -> (r: Self)
        ensures
            r.wf(),
            r.spec_delay_frames() == delay_frames,
            r.queued() == Seq::<FrameView>::empty(),
            r.last_delivered() is None,
            r.window() == Seq::<bool>::empty(),
            r.counters() == TransportStats::zeroed(),
    {
        let r = MockTransport {
            delay_frames,
            queue: VecDeque::new(),
            last_frame: None,
            loss_window: TransportLossWindow::new(),
            stats: TransportStats::default(),
        };
        assert(r.queued() =~= Seq::<FrameView>::empty());
        r
    }

    /// Queues a copy of `frame` and counts it as sent.
    pub fn send_frame(&mut self, frame: &AudioFrame)
        requires
            old(self).wf(),
            old(self).counters().sent_packets < u64::MAX,
        ensures
            final(self).wf(),
            final(self).queued() == old(self).queued().push(frame@),
            final(self).counters() == (TransportStats {
                sent_packets: (old(self).counters().sent_packets + 1) as u64,
                ..old(self).counters()
            }),
            final(self).spec_delay_frames() == old(self).spec_delay_frames(),
            final(self).last_delivered() == old(self).last_delivered(),
            final(self).window() == old(self).window(),
    {
        self.stats.sent_packets = self.stats.sent_packets + 1;
        let ghost before = self.queue@;
        self.queue.push_back(frame.duplicate());
        assert(self.queued() =~= before.map_values(|f: AudioFrame| f@).push(frame@));
    }

    /// Delivers the oldest queued frame once more than `delay_frames` are
    /// waiting; otherwise conceals the gap.
    pub fn recv_or_conceal(&mut self) -> (r: AudioFrame)
        requires
            old(self).wf(),
            old(self).counters().received_packets < u64::MAX,
            old(self).counters().concealed_packets < u64::MAX,
        ensures
            final(self).wf(),
            final(self).spec_delay_frames() == old(self).spec_delay_frames(),
            old(self).queued().len() > old(self).spec_delay_frames() ==> {
                &&& r@ == old(self).queued()[0]
                &&& final(self).queued() == old(self).queued().drop_first()
                &&& final(self).last_delivered() == Some(r@)
                &&& final(self).window() == window_after(old(self).window(), true)
                &&& final(self).counters() == (TransportStats {
                    received_packets: (old(self).counters().received_packets + 1) as u64,
                    ..old(self).counters()
                })
            },
            old(self).queued().len() <= old(self).spec_delay_frames() ==> {
                &&& is_concealment(r@, old(self).last_delivered(), match old(self).last_delivered() {
                    Some(l) => l.sequence,
                    None => 0,
                })
                &&& final(self).queued() == old(self).queued()
                &&& final(self).last_delivered() == old(self).last_delivered()
                &&& final(self).window() == window_after(old(self).window(), false)
                &&& final(self).counters() == (TransportStats {
                    concealed_packets: (old(self).counters().concealed_packets + 1) as u64,
                    ..old(self).counters()
                })
            },
    {
        broadcast use vstd::std_specs::vecdeque::group_vec_dequeue_axioms;

        if self.queue.len() > self.delay_frames {
            let ghost before = self.queue@;
            let popped = self.queue.pop_front();
            match popped {
                Some(frame) => {
                    assert(self.queued() =~= before.map_values(|f: AudioFrame| f@).drop_first());
                    self.stats.received_packets = self.stats.received_packets + 1;
                    self.loss_window.record_received();
                    self.last_frame = Some(frame.duplicate());
                    return frame;
                },
                None => {},
            }
        }
        self.stats.concealed_packets = self.stats.concealed_packets + 1;
        self.loss_window.record_concealed();
        match &self.last_frame {
            Some(frame) => frame.with_timestamp(now_micros()),
            None => AudioFrame::zero(0),
        }
    }

    /// The counters, with the window counters taken from the loss window.
    pub fn stats(&self) -> (r: TransportStats)
        requires
            self.wf(),
        ensures
            r == (TransportStats {
                window_received_packets: crate::history::count_true(self.window()) as u32,
                window_concealed_packets: crate::history::count_false(self.window()) as u32,
                ..self.counters()
            }),
    {
        self.stats.with_loss_window(&self.loss_window)
    }
}

/// A datagram from a peer whose identity does not pair with this node.
#[derive(Clone, Copy, Debug, PartialEq, Eq, Structural)]
pub struct IncompatiblePeer {
    pub received: NodeIdentity,
    pub expected: NodeIdentity,
}

/// A role's name as it appears in messages.
pub open spec fn spec_role_name(role: NodeRole) -> Seq<char> {
    match role {
        NodeRole::Master => "Master"@,
        NodeRole::Slave => "Slave"@,
        NodeRole::Peer => "Peer"@,
    }
}

/// A session mode's name as it appears in messages.
pub open spec fn spec_mode_name(mode: SessionMode) -> Seq<char> {
    match mode {
        SessionMode::MasterSlave => "MasterSlave"@,
        SessionMode::Peer => "Peer"@,
        SessionMode::Both => "Both"@,
    }
}

fn role_name(role: NodeRole) -> (r: &'static str)
    ensures
        r@ == spec_role_name(role),
{
    match role {
        NodeRole::Master => "Master",
        NodeRole::Slave => "Slave",
        NodeRole::Peer => "Peer",
    }
}

fn mode_name(mode: SessionMode) -> (r: &'static str)
    ensures
        r@ == spec_mode_name(mode),
{
    match mode {
        SessionMode::MasterSlave => "MasterSlave",
        SessionMode::Peer => "Peer",
        SessionMode::Both => "Both",
    }
}

impl IncompatiblePeer {
    /// The refusal's text: the identity received and the one expected.
    pub fn message(&self) -> (r: String)
        ensures
            r@ == "received packet from incompatible peer role="@ + spec_role_name(
                self.received.role,
            ) + " mode="@ + spec_mode_name(self.received.session_mode) + "; expected role="@
                + spec_role_name(self.expected.role) + " mode="@ + spec_mode_name(
                self.expected.session_mode,
            ),
    {
        let mut s = "received packet from incompatible peer role=".to_owned();
        s.append(role_name(self.received.role));
        s.append(" mode=");
        s.append(mode_name(self.received.session_mode));
        s.append("; expected role=");
        s.append(role_name(self.expected.role));
        s.append(" mode=");
        s.append(mode_name(self.expected.session_mode));
        s
    }
}

/// The receive side of a UDP link: a jitter buffer that reorders frames by
/// sequence number, conceals missing ones and skips ahead when it overflows.
/// The socket itself lives with the caller, which hands over each datagram
/// and asks for one frame per processing tick.
pub struct UdpLinkState {
    local_identity: NodeIdentity,
    expected_peer_identity: NodeIdentity,
    jitter_capacity: usize,
    jitter_buffer: JitterBuffer,
    expected_sequence: Option<u64>,
    last_frame: Option<AudioFrame>,
    loss_window: TransportLossWindow,
    stats: TransportStats,
}

/// The sequence number the next tick plays: the expected one, or at the
/// start the smallest buffered one (zero if nothing is buffered).
pub open spec fn playback_sequence(expected: Option<u64>, buffered: Seq<FrameView>) -> u64 {
    match expected {
        Some(e) => e,
        None => if buffered.len() > 0 {
            buffered[0].sequence
        } else {
            0
        },
    }
}

impl UdpLinkState {
    pub closed spec fn spec_local_identity(&self) -> NodeIdentity {
        self.local_identity
    }

    pub closed spec fn spec_expected_peer_identity(&self) -> NodeIdentity {
        self.expected_peer_identity
    }

    /// Frames the buffer may hold before it skips ahead.
    pub closed spec fn capacity(&self) -> nat {
        self.jitter_capacity as nat
    }

    /// Buffered frames in sequence order.
    pub closed spec fn buffered(&self) -> Seq<FrameView> {
        self.jitter_buffer@
    }

    /// Next sequence number to play, once playback has started.
    pub closed spec fn expected(&self) -> Option<u64> {
        self.expected_sequence
    }

    /// The most recently played frame that came from the peer.
    pub closed spec fn last_delivered(&self) -> Option<FrameView> {
        match self.last_frame {
            Some(f) => Some(f@),
            None => None,
        }
    }

    pub closed spec fn window(&self) -> Seq<bool> {
        self.loss_window@
    }

    pub closed spec fn counters(&self) -> TransportStats {
        self.stats
    }

    pub closed spec fn wf(&self) -> bool {
        &&& self.loss_window.wf()
        &&& self.jitter_buffer.wf()
    }

    /// No counter or sequence number of the next tick can overflow.
    pub open spec fn tick_in_range(&self) -> bool {
        let e = playback_sequence(self.expected(), self.buffered());
        &&& e < u64::MAX
        &&& self.counters().concealed_packets < u64::MAX
        &&& self.buffered().len() > 0 ==> {
            &&& self.buffered().last().sequence < u64::MAX
            &&& self.counters().dropped_packets + self.buffered().last().sequence <= u64::MAX
        }
    }

    /// A link for a node with identity `local_identity` that accepts
    /// packets only from `expected_peer_identity`.
    pub fn new(
        jitter_capacity: usize,
        local_identity: NodeIdentity,
        expected_peer_identity: NodeIdentity,
    ) -> (r: Self)
        ensures
            r.wf(),
            r.capacity() == jitter_capacity,
            r.spec_local_identity() == local_identity,
            r.spec_expected_peer_identity() == expected_peer_identity,
            r.buffered() == Seq::<FrameView>::empty(),
            r.expected() is None,
            r.last_delivered() is None,
            r.window() == Seq::<bool>::empty(),
            r.counters() == TransportStats::zeroed(),
    {
        UdpLinkState {
            local_identity,
            expected_peer_identity,
            jitter_capacity,
            jitter_buffer: JitterBuffer::new(),
            expected_sequence: None,
            last_frame: None,
            loss_window: TransportLossWindow::new(),
            stats: TransportStats::default(),
        }
    }

    /// The datagram that carries `frame` to the peer.
    pub fn outgoing_packet(&self, frame: &AudioFrame, is_speech: bool) -> (r: Vec<u8>)
        ensures
            r@ == spec_encode_packet(frame@, is_speech, self.spec_local_identity()),
    {
        encode_packet(frame, is_speech, self.local_identity)
    }

    /// Counts a datagram that the socket accepted for sending.
    pub fn record_sent(&mut self)
        requires
            old(self).counters().sent_packets < u64::MAX,
        ensures
            final(self).counters() == (TransportStats {
                sent_packets: (old(self).counters().sent_packets + 1) as u64,
                ..old(self).counters()
            }),
            final(self).wf() == old(self).wf(),
            final(self).buffered() == old(self).buffered(),
            final(self).expected() == old(self).expected(),
            final(self).last_delivered() == old(self).last_delivered(),
            final(self).window() == old(self).window(),
            final(self).capacity() == old(self).capacity(),
            final(self).spec_local_identity() == old(self).spec_local_identity(),
            final(self).spec_expected_peer_identity() == old(self).spec_expected_peer_identity(),
    {
        self.stats.sent_packets = self.stats.sent_packets + 1;
    }

    /// Takes in one received datagram. A datagram that does not decode is
    /// ignored; one from a peer with the wrong identity is refused and
    /// leaves the link unchanged; any other frame is counted and buffered,
    /// replacing a buffered frame with the same sequence number.
    pub fn accept_datagram(&mut self, payload: &[u8]) -> (r: Result<(), IncompatiblePeer>)
        requires
            old(self).wf(),
            old(self).counters().received_packets < u64::MAX,
        ensures
            final(self).wf(),
            final(self).capacity() == old(self).capacity(),
            final(self).spec_local_identity() == old(self).spec_local_identity(),
            final(self).spec_expected_peer_identity() == old(self).spec_expected_peer_identity(),
            final(self).expected() == old(self).expected(),
            final(self).last_delivered() == old(self).last_delivered(),
            final(self).window() == old(self).window(),
            match spec_decode_packet(payload@) {
                None => r is Ok && final(self).buffered() == old(self).buffered()
                    && final(self).counters() == old(self).counters(),
                Some((frame, identity)) => if identity != old(self).spec_expected_peer_identity() {
                    &&& r == Err::<(), IncompatiblePeer>(
                        IncompatiblePeer {
                            received: identity,
                            expected: old(self).spec_expected_peer_identity(),
                        },
                    )
                    &&& final(self).buffered() == old(self).buffered()
                    &&& final(self).counters() == old(self).counters()
                } else {
                    &&& r is Ok
                    &&& final(self).buffered() == sorted_insert(old(self).buffered(), frame)
                    &&& final(self).counters() == (TransportStats {
                        received_packets: (old(self).counters().received_packets + 1) as u64,
                        ..old(self).counters()
                    })
                },
            },
    {
        match decode_packet(payload) {
            None => Ok(()),
            Some((frame, identity)) => {
                if identity != self.expected_peer_identity {
                    return Err(
                        IncompatiblePeer { received: identity, expected: self.expected_peer_identity },
                    );
                }
                self.stats.received_packets = self.stats.received_packets + 1;
                self.jitter_buffer.insert(frame);
                Ok(())
            },
        }
    }

    /// Whether the next tick stays clear of overflow.
    pub fn can_tick(&self) -> (r: bool)
        requires
            self.wf(),
        ensures
            r == self.tick_in_range(),
    {
        let e = match self.expected_sequence {
            Some(e) => e,
            None => match self.jitter_buffer.first_sequence() {
                Some(k) => k,
                None => 0,
            },
        };
        if e == u64::MAX || self.stats.concealed_packets == u64::MAX {
            return false;
        }
        match self.jitter_buffer.last_sequence() {
            Some(k) => k < u64::MAX && self.stats.dropped_packets <= u64::MAX - k,
            None => true,
        }
    }

    /// Produces the frame for this tick: the expected frame if it arrived;
    /// otherwise, when the buffer holds more than its capacity, the earliest
    /// buffered frame (counting the skipped sequence numbers as dropped);
    /// otherwise a concealment frame.
    pub fn pop_next_frame(&mut self) -> (r: AudioFrame)
        requires
            old(self).wf(),
            old(self).tick_in_range(),
        ensures
            final(self).wf(),
            final(self).capacity() == old(self).capacity(),
            final(self).spec_local_identity() == old(self).spec_local_identity(),
            final(self).spec_expected_peer_identity() == old(self).spec_expected_peer_identity(),
            ({
                let s = old(self).buffered();
                let e = playback_sequence(old(self).expected(), s);
                let c = old(self).counters();
                if holds_sequence(s, e) {
                    &&& r@ == s[position_of(s, e)]
                    &&& final(self).buffered() == sorted_remove(s, e)
                    &&& final(self).expected() == Some((e + 1) as u64)
                    &&& final(self).last_delivered() == Some(r@)
                    &&& final(self).window() == window_after(old(self).window(), true)
                    &&& final(self).counters() == c
                } else if s.len() > old(self).capacity() {
                    &&& r@ == s[0]
                    &&& final(self).buffered() == s.drop_first()
                    &&& final(self).expected() == Some((s[0].sequence + 1) as u64)
                    &&& final(self).last_delivered() == Some(r@)
                    &&& final(self).window() == window_after(old(self).window(), true)
                    &&& final(self).counters() == (TransportStats {
                        dropped_packets: (c.dropped_packets + if s[0].sequence > e {
                            s[0].sequence - e
                        } else {
                            0
                        }) as u64,
                        ..c
                    })
                } else {
                    &&& is_concealment(r@, old(self).last_delivered(), e)
                    &&& final(self).buffered() == s
                    &&& final(self).expected() == Some((e + 1) as u64)
                    &&& final(self).last_delivered() == old(self).last_delivered()
                    &&& final(self).window() == window_after(old(self).window(), false)
                    &&& final(self).counters() == (TransportStats {
                        concealed_packets: (c.concealed_packets + 1) as u64,
                        ..c
                    })
                }
            }),
    {
        let ghost s = self.jitter_buffer@;
        proof {
            self.jitter_buffer.lemma_sorted();
            if s.len() > 0 {
                assert(s[0].sequence <= s.last().sequence);
            }
        }
        if self.expected_sequence.is_none() {
            self.expected_sequence = match self.jitter_buffer.first_sequence() {
                Some(k) => Some(k),
                None => Some(0),
            };
        }
        let expected = match self.expected_sequence {
            Some(e) => e,
            None => 0,
        };
        proof {
            lemma_holds_sequence(s, expected);
        }
        match self.jitter_buffer.remove(expected) {
            Some(frame) => {
                self.expected_sequence = Some(expected + 1);
                self.loss_window.record_received();
                self.last_frame = Some(frame.duplicate());
                return frame;
            },
            None => {},
        }
        if self.jitter_buffer.len() > self.jitter_capacity {
            let frame = self.jitter_buffer.pop_first();
            let sequence = frame.sequence;
            if sequence > expected {
                self.stats.dropped_packets = self.stats.dropped_packets + (sequence - expected);
            }
            self.expected_sequence = Some(sequence + 1);
            self.loss_window.record_received();
            self.last_frame = Some(frame.duplicate());
            return frame;
        }
        self.stats.concealed_packets = self.stats.concealed_packets + 1;
        self.loss_window.record_concealed();
        self.expected_sequence = Some(expected + 1);
        match &self.last_frame {
            Some(frame) => frame.with_sequence(expected).with_timestamp(now_micros()),
            None => AudioFrame::zero(expected),
        }
    }

    /// The counters, with the window counters taken from the loss window.
    pub fn stats(&self) -> (r: TransportStats)
        requires
            self.wf(),
        ensures
            r == (TransportStats {
                window_received_packets: crate::history::count_true(self.window()) as u32,
                window_concealed_packets: crate::history::count_false(self.window()) as u32,
                ..self.counters()
            }),
    {
        self.stats.with_loss_window(&self.loss_window)
    }
}

/// The socket receive errors the UDP link tells apart.
#[derive(Clone, Copy, Debug, PartialEq, Eq, Structural)]
pub enum ReceiveErrorKind {
    WouldBlock,
    ConnectionReset,
    ConnectionAborted,
    ConnectionRefused,
    HostUnreachable,
    NetworkUnreachable,
    Other,
}

#[verifier::external_type_specification]
#[verifier::external_body]
pub struct ExIoError(std::io::Error);

/// The kind of an I/O error as the link tells kinds apart: what
/// `std::io::Error::kind` reports for it, mapped one for one, with every
/// other kind mapped to `Other`.
pub uninterp spec fn spec_receive_error_kind(error: std::io::Error) -> ReceiveErrorKind;

/// Trusted: `std::io::Error::kind`, with the kinds the link tells apart
/// mapped one for one and every other kind mapped to `Other`. The kind is
/// a property of the error value alone, so the result is named by
/// `spec_receive_error_kind`.
#[verifier::external_body]
fn receive_error_kind(error: &std::io::Error) -> (r: ReceiveErrorKind)
    ensures
        r == spec_receive_error_kind(*error),
{
    match error.kind() {
        std::io::ErrorKind::WouldBlock => ReceiveErrorKind::WouldBlock,
        std::io::ErrorKind::ConnectionReset => ReceiveErrorKind::ConnectionReset,
        std::io::ErrorKind::ConnectionAborted => ReceiveErrorKind::ConnectionAborted,
        std::io::ErrorKind::ConnectionRefused => ReceiveErrorKind::ConnectionRefused,
        std::io::ErrorKind::HostUnreachable => ReceiveErrorKind::HostUnreachable,
        std::io::ErrorKind::NetworkUnreachable => ReceiveErrorKind::NetworkUnreachable,
        _ => ReceiveErrorKind::Other,
    }
}

/// The receive errors that only mean the peer is not there yet (as
/// Windows reports an absent peer on a UDP socket): a reset, aborted or
/// refused connection, or an unreachable host or network.
pub open spec fn spec_is_transient(kind: ReceiveErrorKind) -> bool {
    kind == ReceiveErrorKind::ConnectionReset || kind == ReceiveErrorKind::ConnectionAborted
        || kind == ReceiveErrorKind::ConnectionRefused || kind == ReceiveErrorKind::HostUnreachable
        || kind == ReceiveErrorKind::NetworkUnreachable
}

/// Whether a receive error of this kind only means the peer is absent.
pub fn is_transient_receive_error(kind: ReceiveErrorKind) -> (r: bool)
    ensures
        r == spec_is_transient(kind),
{
    match kind {
        ReceiveErrorKind::ConnectionReset => true,
        ReceiveErrorKind::ConnectionAborted => true,
        ReceiveErrorKind::ConnectionRefused => true,
        ReceiveErrorKind::HostUnreachable => true,
        ReceiveErrorKind::NetworkUnreachable => true,
        _ => false,
    }
}

/// Whether a UDP receive error only means the peer is absent (see
/// `spec_is_transient`), judged by the error's kind.
pub fn udp_receive_error_is_transient(error: &std::io::Error) -> (r: bool)
    ensures
        r == spec_is_transient(spec_receive_error_kind(*error)),
{
    is_transient_receive_error(receive_error_kind(error))
}

/// Whether draining the socket stops quietly on a receive error: when
/// nothing more is waiting, or when the peer is absent; any other error
/// fails the receive.
pub fn receive_error_ends_drain(kind: ReceiveErrorKind) -> (r: bool)
    ensures
        r == (kind == ReceiveErrorKind::WouldBlock || spec_is_transient(kind)),
{
    match kind {
        ReceiveErrorKind::WouldBlock => true,
        _ => is_transient_receive_error(kind),
    }
}

/// Whether draining the socket stops quietly on this receive error (see
/// `receive_error_ends_drain`), judged by the error's kind.
pub fn udp_receive_error_ends_drain(error: &std::io::Error) -> (r: bool)
    ensures
        r == (spec_receive_error_kind(*error) == ReceiveErrorKind::WouldBlock || spec_is_transient(
            spec_receive_error_kind(*error),
        )),
{
    receive_error_ends_drain(receive_error_kind(error))
}

} // verus!
