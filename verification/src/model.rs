use vstd::prelude::*;

verus! {

/// Fixed processing sample rate of the pipeline, in Hz.
pub const SAMPLE_RATE_HZ: u32 = 48000;

/// The pipeline processes a single (mono) channel.
pub const CHANNELS: usize = 1;

/// Duration of one processing frame, in milliseconds.
pub const FRAME_MS: usize = 10;

/// Samples in one 10 ms frame at 48 kHz.
pub const SAMPLES_PER_FRAME: usize = 480;

/// Transport used to exchange raw PCM with the peer node.
#[derive(Clone, Copy, Debug, PartialEq, Eq, Structural)]
pub enum TransportBackend {
    Udp,
    Mock,
}

impl Default for TransportBackend {
    fn default() -> (r: Self)
        ensures
            r == TransportBackend::Udp,
    {
        TransportBackend::Udp
    }
}

/// Source of the local microphone signal.
#[derive(Clone, Copy, Debug, PartialEq, Eq, Structural)]
pub enum AudioBackend {
    Wasapi,
    Mock,
}

impl Default for AudioBackend {
    fn default() -> (r: Self)
        ensures
            r == AudioBackend::Wasapi,
    {
        AudioBackend::Wasapi
    }
}

/// Destination of the processed signal.
#[derive(Clone, Copy, Debug, PartialEq, Eq, Structural)]
pub enum OutputBackend {
    VirtualStub,
    WavDump,
    Null,
}

impl Default for OutputBackend {
    fn default() -> (r: Self)
        ensures
            r == OutputBackend::VirtualStub,
    {
        OutputBackend::VirtualStub
    }
}

/// How two nodes pair up.
#[derive(Clone, Copy, Debug, PartialEq, Eq, Structural)]
pub enum SessionMode {
    MasterSlave,
    Peer,
    Both,
}

impl Default for SessionMode {
    fn default() -> (r: Self)
        ensures
            r == SessionMode::Peer,
    {
        SessionMode::Peer
    }
}

/// The part this node plays inside its session.
#[derive(Clone, Copy, Debug, PartialEq, Eq, Structural)]
pub enum NodeRole {
    Master,
    Slave,
    Peer,
}

impl Default for NodeRole {
    fn default() -> (r: Self)
        ensures
            r == NodeRole::Peer,
    {
        NodeRole::Peer
    }
}

/// Where the processed local and peer streams are written.
#[derive(Clone, Copy, Debug, PartialEq, Eq, Structural)]
pub enum OutputRoutingMode {
    LocalOnly,
    Off,
    MixToPrimary,
    SplitLocalPeer,
}

impl Default for OutputRoutingMode {
    fn default() -> (r: Self)
        ensures
            r == OutputRoutingMode::LocalOnly,
    {
        OutputRoutingMode::LocalOnly
    }
}

/// Session mode and role of a node, carried in every packet header.
#[derive(Clone, Copy, Debug, PartialEq, Eq, Structural)]
pub struct NodeIdentity {
    pub role: NodeRole,
    pub session_mode: SessionMode,
}

/// The only identity a node with identity `id` accepts from its peer:
/// a master pairs with a slave and the other way round, a peer with a peer,
/// always inside the same session mode.
pub open spec fn spec_expected_peer(id: NodeIdentity) -> NodeIdentity {
    NodeIdentity {
        role: match id.role {
            NodeRole::Master => NodeRole::Slave,
            NodeRole::Slave => NodeRole::Master,
            NodeRole::Peer => NodeRole::Peer,
        },
        session_mode: id.session_mode,
    }
}

/// Pairing is mutual: `b` is the peer `a` expects exactly when `a` is the
/// peer `b` expects, and expecting the peer of one's peer gives oneself
/// back.
pub proof fn lemma_expected_peer_mutual(a: NodeIdentity, b: NodeIdentity)
    ensures
        spec_expected_peer(spec_expected_peer(a)) == a,
        (spec_expected_peer(a) == b) <==> (spec_expected_peer(b) == a),
        spec_expected_peer(a).session_mode == a.session_mode,
{
}

impl NodeIdentity {
    /// The identity this node expects to find in the packets of its peer.
    pub fn expected_peer(&self) -> (r: NodeIdentity)
        ensures
            r == spec_expected_peer(*self),
    {
        let role = match self.role {
            NodeRole::Master => NodeRole::Slave,
            NodeRole::Slave => NodeRole::Master,
            NodeRole::Peer => NodeRole::Peer,
        };
        NodeIdentity { role, session_mode: self.session_mode }
    }
}

/// An audio endpoint as reported by device enumeration.
#[derive(Clone, Debug)]
pub struct AudioDeviceInfo {
    pub id: String,
    pub name: String,
    pub is_default: bool,
}

/// Wall-clock time in microseconds since the Unix epoch, or zero when the
/// clock reads earlier than the epoch.
///
/// Trusted: calls `SystemTime::now` and `SystemTime::duration_since`; the
/// value depends on the clock, so nothing is promised of it.
#[verifier::external_body]
pub fn now_micros() -> u64 {
    match std::time::SystemTime::now().duration_since(std::time::UNIX_EPOCH) {
        Ok(duration) => duration.as_micros() as u64,
        Err(_) => 0,
    }
}

/// The mathematical content of an [`AudioFrame`].
pub struct FrameView {
    pub sequence: u64,
    pub capture_timestamp_us: u64,
    pub sample_rate: u32,
    pub samples: Seq<u32>,
}

/// A sequence of `n` silent samples (the bit pattern of `+0.0`).
pub open spec fn silence(n: nat) -> Seq<u32> {
    Seq::new(n, |i: int| 0u32)
}

/// Samples cut or zero-padded to exactly one frame.
pub open spec fn normalized_samples(s: Seq<u32>) -> Seq<u32> {
    if s.len() >= SAMPLES_PER_FRAME {
        s.take(SAMPLES_PER_FRAME as int)
    } else {
        s + silence((SAMPLES_PER_FRAME - s.len()) as nat)
    }
}

/// The frame that `AudioFrame::new` builds from its arguments.
pub open spec fn spec_new_frame(
    sequence: u64,
    capture_timestamp_us: u64,
    sample_rate: u32,
    samples: Seq<u32>,
) -> FrameView {
    FrameView { sequence, capture_timestamp_us, sample_rate, samples: normalized_samples(samples) }
}

/// One frame of mono audio. Each sample is held as the IEEE-754 binary32
/// bit pattern of the `f32` value it stands for, so that the frame can be
/// moved, buffered and serialised exactly.
#[derive(Clone, Debug)]
pub struct AudioFrame {
    pub sequence: u64,
    pub capture_timestamp_us: u64,
    pub sample_rate: u32,
    pub samples: Vec<u32>,
}

impl View for AudioFrame {
    type V = FrameView;

    open spec fn view(&self) -> FrameView {
        FrameView {
            sequence: self.sequence,
            capture_timestamp_us: self.capture_timestamp_us,
            sample_rate: self.sample_rate,
            samples: self.samples@,
        }
    }
}

fn normalize_samples(samples: Vec<u32>) -> (r: Vec<u32>)
    ensures
        r@ == normalized_samples(samples@),
{
    let mut samples = samples;
    samples.truncate(SAMPLES_PER_FRAME);
    if samples.len() < SAMPLES_PER_FRAME {
        let old_len = samples.len();
        let ghost before = samples@;
        samples.resize(SAMPLES_PER_FRAME, 0u32);
        assert(samples@ =~= before + silence((SAMPLES_PER_FRAME - before.len()) as nat)) by {
            assert forall|i: int| 0 <= i < SAMPLES_PER_FRAME implies samples@[i] == (before
                + silence((SAMPLES_PER_FRAME - before.len()) as nat))[i] by {
                if i >= old_len {
                    assert(cloned::<u32>(0u32, samples@[i]));
                } else {
                    assert(samples@.subrange(0, old_len as int)[i] == before[i]);
                }
            }
        }
    }
    samples
}

impl AudioFrame {
    /// Builds a frame; the samples are cut or zero-padded to exactly
    /// `SAMPLES_PER_FRAME`.
    pub fn new(sequence: u64, capture_timestamp_us: u64, sample_rate: u32, samples: Vec<u32>) -> (r:
        Self)
        ensures
            r@ == spec_new_frame(sequence, capture_timestamp_us, sample_rate, samples@),
            r.samples@.len() == SAMPLES_PER_FRAME,
    {
        AudioFrame {
            sequence,
            capture_timestamp_us,
            sample_rate,
            samples: normalize_samples(samples),
        }
    }

    /// A silent frame stamped with the current time.
    pub fn zero(sequence: u64) -> (r: Self)
        ensures
            r.sequence == sequence,
            r.sample_rate == SAMPLE_RATE_HZ,
            r.samples@ == silence(SAMPLES_PER_FRAME as nat),
    {
        let samples: Vec<u32> = vec![0u32; SAMPLES_PER_FRAME];
        let r = AudioFrame::new(sequence, now_micros(), SAMPLE_RATE_HZ, samples);
        assert(r.samples@ =~= silence(SAMPLES_PER_FRAME as nat)) by {
            assert forall|i: int| 0 <= i < SAMPLES_PER_FRAME implies r.samples@[i] == 0u32 by {
                assert(cloned::<u32>(0u32, samples@[i]));
                assert(samples@.take(SAMPLES_PER_FRAME as int)[i] == samples@[i]);
            }
        }
        r
    }

    /// An exact copy of the frame.
    pub fn duplicate(&self) -> (r: Self)
        ensures
            r@ == self@,
    {
        let samples = self.samples.clone();
        assert(samples@ =~= self.samples@);
        AudioFrame {
            sequence: self.sequence,
            capture_timestamp_us: self.capture_timestamp_us,
            sample_rate: self.sample_rate,
            samples,
        }
    }

    /// A copy of the frame carrying another sequence number.
    pub fn with_sequence(&self, sequence: u64) -> (r: Self)
        ensures
            r@ == (FrameView { sequence, ..self@ }),
    {
        let mut cloned = self.duplicate();
        cloned.sequence = sequence;
        cloned
    }

    /// A copy of the frame carrying another capture time.
    pub fn with_timestamp(&self, capture_timestamp_us: u64) -> (r: Self)
        ensures
            r@ == (FrameView { capture_timestamp_us, ..self@ }),
    {
        let mut cloned = self.duplicate();
        cloned.capture_timestamp_us = capture_timestamp_us;
        cloned
    }
}

} // verus!
