use crate::model::{AudioFrame, FrameView, NodeIdentity, NodeRole, SessionMode, spec_new_frame};
use vstd::bytes::*;
use vstd::prelude::*;
use vstd::slice::slice_subrange;

verus! {

/// Bytes of the fixed packet header that precedes the samples.
pub const HEADER_BYTES: usize = 24;

/// Wire code of a node role.
pub open spec fn spec_node_role_code(role: NodeRole) -> u8 {
    match role {
        NodeRole::Master => 1,
        NodeRole::Slave => 2,
        NodeRole::Peer => 3,
    }
}

/// The role a wire code stands for, if any.
pub open spec fn spec_node_role_from_code(code: u8) -> Option<NodeRole> {
    if code == 1 {
        Some(NodeRole::Master)
    } else if code == 2 {
        Some(NodeRole::Slave)
    } else if code == 3 {
        Some(NodeRole::Peer)
    } else {
        None
    }
}

/// Wire code of a session mode.
pub open spec fn spec_session_mode_code(mode: SessionMode) -> u8 {
    match mode {
        SessionMode::MasterSlave => 1,
        SessionMode::Peer => 2,
        SessionMode::Both => 3,
    }
}

/// The session mode a wire code stands for, if any.
pub open spec fn spec_session_mode_from_code(code: u8) -> Option<SessionMode> {
    if code == 1 {
        Some(SessionMode::MasterSlave)
    } else if code == 2 {
        Some(SessionMode::Peer)
    } else if code == 3 {
        Some(SessionMode::Both)
    } else {
        None
    }
}

/// The identity byte: session-mode code in the high nibble, role code in
/// the low nibble.
pub open spec fn spec_encode_identity(identity: NodeIdentity) -> u8 {
    (spec_session_mode_code(identity.session_mode) * 16 + spec_node_role_code(identity.role)) as u8
}

/// The identity an identity byte stands for, if both nibbles are known codes.
pub open spec fn spec_decode_identity(encoded: u8) -> Option<NodeIdentity> {
    match (spec_session_mode_from_code(encoded / 16), spec_node_role_from_code(encoded % 16)) {
        (Some(session_mode), Some(role)) => Some(NodeIdentity { role, session_mode }),
        _ => None,
    }
}

pub fn node_role_code(role: NodeRole) -> (r: u8)
    ensures
        r == spec_node_role_code(role),
{
    match role {
        NodeRole::Master => 1,
        NodeRole::Slave => 2,
        NodeRole::Peer => 3,
    }
}

pub fn node_role_from_code(code: u8) -> (r: Option<NodeRole>)
    ensures
        r == spec_node_role_from_code(code),
{
    match code {
        1 => Some(NodeRole::Master),
        2 => Some(NodeRole::Slave),
        3 => Some(NodeRole::Peer),
        _ => None,
    }
}

pub fn session_mode_code(mode: SessionMode) -> (r: u8)
    ensures
        r == spec_session_mode_code(mode),
{
    match mode {
        SessionMode::MasterSlave => 1,
        SessionMode::Peer => 2,
        SessionMode::Both => 3,
    }
}

pub fn session_mode_from_code(code: u8) -> (r: Option<SessionMode>)
    ensures
        r == spec_session_mode_from_code(code),
{
    match code {
        1 => Some(SessionMode::MasterSlave),
        2 => Some(SessionMode::Peer),
        3 => Some(SessionMode::Both),
        _ => None,
    }
}

/// Packs a node identity into its header byte.
pub fn encode_identity(identity: NodeIdentity) -> (r: u8)
    ensures
        r == spec_encode_identity(identity),
{
    let mode = session_mode_code(identity.session_mode);
    let role = node_role_code(identity.role);
    assert(((mode & 0x0F) << 4) | (role & 0x0F) == mode * 16 + role) by (bit_vector)
        requires
            1 <= mode <= 3,
            1 <= role <= 3,
    ;
    ((mode & 0x0F) << 4) | (role & 0x0F)
}

/// Reads a node identity back from its header byte.
pub fn decode_identity(encoded: u8) -> (r: Option<NodeIdentity>)
    ensures
        r == spec_decode_identity(encoded),
{
    assert((encoded >> 4) & 0x0F == encoded / 16) by (bit_vector);
    assert(encoded & 0x0F == encoded % 16) by (bit_vector);
    let session_mode = match session_mode_from_code((encoded >> 4) & 0x0F) {
        Some(m) => m,
        None => return None,
    };
    let role = match node_role_from_code(encoded & 0x0F) {
        Some(r) => r,
        None => return None,
    };
    Some(NodeIdentity { session_mode, role })
}

/// Reading back an identity byte gives the identity that was packed, and
/// each identity has exactly one byte that reads back as it.
pub proof fn lemma_identity_round_trip(identity: NodeIdentity, encoded: u8)
    ensures
        spec_decode_identity(spec_encode_identity(identity)) == Some(identity),
        spec_decode_identity(encoded) == Some(identity) ==> spec_encode_identity(identity)
            == encoded,
{
}

/// Little-endian bytes of each sample, in order.
pub open spec fn samples_to_le_bytes(samples: Seq<u32>) -> Seq<u8>
    decreases samples.len(),
{
    if samples.len() == 0 {
        Seq::empty()
    } else {
        samples_to_le_bytes(samples.drop_last()) + spec_u32_to_le_bytes(samples.last())
    }
}

/// The `n` samples read as little-endian words from the start of `bytes`.
pub open spec fn samples_from_le_bytes(bytes: Seq<u8>, n: nat) -> Seq<u32> {
    Seq::new(n, |i: int| spec_u32_from_le_bytes(bytes.subrange(4 * i, 4 * i + 4)))
}

/// Header fields in wire order.
pub open spec fn spec_packet_header(frame: FrameView, is_speech: bool, identity: NodeIdentity) -> Seq<
    u8,
> {
    spec_u64_to_le_bytes(frame.sequence) + spec_u64_to_le_bytes(frame.capture_timestamp_us)
        + spec_u32_to_le_bytes(frame.sample_rate) + spec_u16_to_le_bytes(
        (frame.samples.len() % 0x10000) as u16,
    ) + seq![if is_speech { 1u8 } else { 0u8 }, spec_encode_identity(identity)]
}

/// A frame on the wire: sequence, capture time and sample rate, the sample
/// count (kept to 16 bits), a speech flag, the sender's identity byte, then
/// every sample as four little-endian bytes.
pub open spec fn spec_encode_packet(frame: FrameView, is_speech: bool, identity: NodeIdentity) -> Seq<
    u8,
> {
    spec_packet_header(frame, is_speech, identity) + samples_to_le_bytes(frame.samples)
}

/// What a received datagram decodes to: `None` for a datagram shorter than
/// the header, with an unknown identity byte, or with fewer sample bytes
/// than the header announces. The speech flag is not read back.
pub open spec fn spec_decode_packet(payload: Seq<u8>) -> Option<(FrameView, NodeIdentity)> {
    if payload.len() < HEADER_BYTES {
        None
    } else {
        let n = spec_u16_from_le_bytes(payload.subrange(20, 22)) as nat;
        match spec_decode_identity(payload[23]) {
            None => None,
            Some(identity) => if payload.len() - HEADER_BYTES < n * 4 {
                None
            } else {
                Some(
                    (
                        spec_new_frame(
                            spec_u64_from_le_bytes(payload.subrange(0, 8)),
                            spec_u64_from_le_bytes(payload.subrange(8, 16)),
                            spec_u32_from_le_bytes(payload.subrange(16, 20)),
                            samples_from_le_bytes(payload.skip(HEADER_BYTES as int), n),
                        ),
                        identity,
                    ),
                )
            },
        }
    }
}

proof fn lemma_samples_to_le_bytes_len(samples: Seq<u32>)
    ensures
        samples_to_le_bytes(samples).len() == 4 * samples.len(),
    decreases samples.len(),
{
    lemma_auto_spec_u32_to_from_le_bytes();
    if samples.len() > 0 {
        lemma_samples_to_le_bytes_len(samples.drop_last());
    }
}

proof fn lemma_samples_to_le_bytes_word(samples: Seq<u32>, i: int)
    requires
        0 <= i < samples.len(),
    ensures
        samples_to_le_bytes(samples).subrange(4 * i, 4 * i + 4) == spec_u32_to_le_bytes(samples[i]),
    decreases samples.len(),
{
    lemma_auto_spec_u32_to_from_le_bytes();
    lemma_samples_to_le_bytes_len(samples.drop_last());
    let prefix = samples_to_le_bytes(samples.drop_last());
    let word = spec_u32_to_le_bytes(samples.last());
    if i == samples.len() - 1 {
        assert((prefix + word).subrange(4 * i, 4 * i + 4) =~= word);
    } else {
        lemma_samples_to_le_bytes_word(samples.drop_last(), i);
        assert((prefix + word).subrange(4 * i, 4 * i + 4) =~= prefix.subrange(4 * i, 4 * i + 4));
    }
}

/// Decoding the bytes of a frame gives the frame back, cut or padded to one
/// frame's length (as every frame built by `AudioFrame::new` already is),
/// together with the sender's identity.
pub proof fn lemma_packet_round_trip(frame: FrameView, is_speech: bool, identity: NodeIdentity)
    requires
        frame.samples.len() < 0x10000,
    ensures
        spec_decode_packet(spec_encode_packet(frame, is_speech, identity)) == Some(
            (
                spec_new_frame(
                    frame.sequence,
                    frame.capture_timestamp_us,
                    frame.sample_rate,
                    frame.samples,
                ),
                identity,
            ),
        ),
{
    lemma_auto_spec_u16_to_from_le_bytes();
    lemma_auto_spec_u32_to_from_le_bytes();
    lemma_auto_spec_u64_to_from_le_bytes();
    lemma_identity_round_trip(identity, 0);
    lemma_samples_to_le_bytes_len(frame.samples);
    let header = spec_packet_header(frame, is_speech, identity);
    let body = samples_to_le_bytes(frame.samples);
    let p = header + body;
    let n = frame.samples.len();
    assert(header.len() == HEADER_BYTES);
    assert(p.subrange(0, 8) =~= spec_u64_to_le_bytes(frame.sequence));
    assert(p.subrange(8, 16) =~= spec_u64_to_le_bytes(frame.capture_timestamp_us));
    assert(p.subrange(16, 20) =~= spec_u32_to_le_bytes(frame.sample_rate));
    assert(p.subrange(20, 22) =~= spec_u16_to_le_bytes((n % 0x10000) as u16));
    assert(p[23] == spec_encode_identity(identity));
    assert(p.skip(HEADER_BYTES as int) =~= body);
    assert(spec_u16_from_le_bytes(p.subrange(20, 22)) == n);
    assert(samples_from_le_bytes(body, n) =~= frame.samples) by {
        assert forall|i: int| 0 <= i < n implies samples_from_le_bytes(body, n)[i]
            == frame.samples[i] by {
            lemma_samples_to_le_bytes_word(frame.samples, i);
            assert(body.subrange(4 * i, 4 * i + 4) == spec_u32_to_le_bytes(frame.samples[i]));
            assert(spec_u32_from_le_bytes(spec_u32_to_le_bytes(frame.samples[i]))
                == frame.samples[i]);
        }
    }
}

/// Serialises a frame with the sender's speech flag and identity.
pub fn encode_packet(frame: &AudioFrame, is_speech: bool, identity: NodeIdentity) -> (r: Vec<u8>)
    ensures
        r@ == spec_encode_packet(frame@, is_speech, identity),
{
    let mut payload: Vec<u8> = Vec::new();
    let mut part = u64_to_le_bytes(frame.sequence);
    payload.append(&mut part);
    let mut part = u64_to_le_bytes(frame.capture_timestamp_us);
    payload.append(&mut part);
    let mut part = u32_to_le_bytes(frame.sample_rate);
    payload.append(&mut part);
    let count = frame.samples.len();
    let count16: u16 = (count % 0x10000) as u16;
    let mut part = u16_to_le_bytes(count16);
    payload.append(&mut part);
    payload.push(if is_speech { 1u8 } else { 0u8 });
    payload.push(encode_identity(identity));
    assert(payload@ =~= spec_packet_header(frame@, is_speech, identity));
    let ghost header = payload@;
    let mut i: usize = 0;
    while i < count
        invariant
            i <= count,
            count == frame.samples@.len(),
            payload@ == header + samples_to_le_bytes(frame.samples@.take(i as int)),
        decreases count - i,
    {
        let mut part = u32_to_le_bytes(frame.samples[i]);
        payload.append(&mut part);
        proof {
            let t = frame.samples@.take(i + 1);
            assert(t.drop_last() =~= frame.samples@.take(i as int));
            assert(t.last() == frame.samples@[i as int]);
        }
        i = i + 1;
    }
    assert(frame.samples@.take(count as int) =~= frame.samples@);
    payload
}

/// Parses a received datagram into a frame and the sender's identity.
pub fn decode_packet(payload: &[u8]) -> (r: Option<(AudioFrame, NodeIdentity)>)
    ensures
        match r {
            Some((frame, identity)) => spec_decode_packet(payload@) == Some((frame@, identity)),
            None => spec_decode_packet(payload@) is None,
        },
{
    if payload.len() < HEADER_BYTES {
        return None;
    }
    let sequence = u64_from_le_bytes(slice_subrange(payload, 0, 8));
    let capture_timestamp_us = u64_from_le_bytes(slice_subrange(payload, 8, 16));
    let sample_rate = u32_from_le_bytes(slice_subrange(payload, 16, 20));
    let frame_samples = u16_from_le_bytes(slice_subrange(payload, 20, 22)) as usize;
    let identity = match decode_identity(payload[23]) {
        Some(id) => id,
        None => return None,
    };
    let available = payload.len() - HEADER_BYTES;
    if available < frame_samples * 4 {
        return None;
    }
    let total = payload.len();
    let ghost body = payload@.skip(HEADER_BYTES as int);
    let mut samples: Vec<u32> = Vec::new();
    let mut i: usize = 0;
    while i < frame_samples
        invariant
            i <= frame_samples,
            available + HEADER_BYTES == payload@.len(),
            total == payload@.len(),
            frame_samples * 4 <= available,
            body == payload@.skip(HEADER_BYTES as int),
            samples@ == samples_from_le_bytes(body, i as nat),
        decreases frame_samples - i,
    {
        let start = HEADER_BYTES + 4 * i;
        let word = u32_from_le_bytes(slice_subrange(payload, start, start + 4));
        assert(payload@.subrange(start as int, start + 4) =~= body.subrange(
            4 * i as int,
            4 * i + 4,
        ));
        samples.push(word);
        assert(samples@ =~= samples_from_le_bytes(body, (i + 1) as nat));
        i = i + 1;
    }
    let frame = AudioFrame::new(sequence, capture_timestamp_us, sample_rate, samples);
    Some((frame, identity))
}

} // verus!
