use crate::model::{
    spec_expected_peer, AudioBackend, NodeIdentity, NodeRole, OutputBackend, OutputRoutingMode,
    SessionMode,
    TransportBackend, CHANNELS, FRAME_MS, SAMPLE_RATE_HZ,
};
use crate::text::{eq_ignore_ascii_case, decimal, spec_ascii_lowercase, spec_decimal, spec_trim, trim};
use vstd::prelude::*;

verus! {

// Several settings are real numbers. They are held here as the IEEE-754
// binary32 bit pattern of the `f32` value (what `f32::to_bits` returns), so
// that they travel through the library unchanged; the rules below read them
// through the binary32 layout: bit 31 is the sign, bits 30..23 the biased
// exponent and bits 22..0 the fraction.

/// The binary32 value encoded by `bits` is below zero (`x < 0.0`): the sign
/// bit is set and the magnitude is neither zero nor a NaN.
pub open spec fn binary32_below_zero(bits: u32) -> bool {
    0x8000_0001 <= bits <= 0xFF80_0000
}

/// The binary32 value encoded by `bits` lies in `[0, 1)` (`0.0 <= x < 1.0`):
/// `+0.0`, `-0.0`, or a positive value whose encoding is below that of `1.0`.
pub open spec fn binary32_in_unit_interval(bits: u32) -> bool {
    bits < 0x3F80_0000 || bits == 0x8000_0000
}

pub fn f32_bits_below_zero(bits: u32) -> (r: bool)
    ensures
        r == binary32_below_zero(bits),
{
    0x8000_0001 <= bits && bits <= 0xFF80_0000
}

pub fn f32_bits_in_unit_interval(bits: u32) -> (r: bool)
    ensures
        r == binary32_in_unit_interval(bits),
{
    bits < 0x3F80_0000 || bits == 0x8000_0000
}

/// `[node]`: name, addresses and pairing of this node.
#[derive(Clone, Debug)]
pub struct NodeSection {
    pub name: String,
    pub listen_addr: String,
    pub peer_addr: String,
    pub transport_backend: TransportBackend,
    pub session_mode: SessionMode,
    pub role: NodeRole,
}

impl Default for NodeSection {
    fn default() -> (r: Self)
        ensures
            r.name@ == "node-a"@,
            r.listen_addr@ == "0.0.0.0:38001"@,
            r.peer_addr@ == "127.0.0.1:38002"@,
            r.transport_backend == TransportBackend::Udp,
            r.session_mode == SessionMode::Peer,
            r.role == NodeRole::Peer,
    {
        NodeSection {
            name: "node-a".to_owned(),
            listen_addr: "0.0.0.0:38001".to_owned(),
            peer_addr: "127.0.0.1:38002".to_owned(),
            transport_backend: TransportBackend::Udp,
            session_mode: SessionMode::Peer,
            role: NodeRole::Peer,
        }
    }
}

/// `[audio]`: capture backend and stream format.
#[derive(Clone, Debug)]
pub struct AudioConfig {
    pub backend: AudioBackend,
    pub input_device: String,
    pub sample_rate: u32,
    pub channels: u16,
    pub frame_ms: u16,
}

impl Default for AudioConfig {
    fn default() -> (r: Self)
        ensures
            r.backend == AudioBackend::Wasapi,
            r.input_device@ == "Microphone"@,
            r.sample_rate == SAMPLE_RATE_HZ,
            r.channels == CHANNELS,
            r.frame_ms == FRAME_MS,
    {
        AudioConfig {
            backend: AudioBackend::Wasapi,
            input_device: "Microphone".to_owned(),
            sample_rate: SAMPLE_RATE_HZ,
            channels: 1,
            frame_ms: 10,
        }
    }
}

/// `[output]`: where processed audio goes.
#[derive(Clone, Debug)]
pub struct OutputConfig {
    pub backend: OutputBackend,
    pub target_device: String,
    pub primary_target_device: String,
    pub secondary_target_device: String,
    pub routing: OutputRoutingMode,
    pub monitor_processed_output: bool,
    pub wav_path: String,
}

impl Default for OutputConfig {
    fn default() -> (r: Self)
        ensures
            r.backend == OutputBackend::VirtualStub,
            r.target_device@ == "Processed Mic"@,
            r.primary_target_device@ == "Processed Mic"@,
            r.secondary_target_device@ == Seq::<char>::empty(),
            r.routing == OutputRoutingMode::LocalOnly,
            r.monitor_processed_output,
            r.wav_path@ == "artifacts/output.wav"@,
    {
        OutputConfig {
            backend: OutputBackend::VirtualStub,
            target_device: "Processed Mic".to_owned(),
            primary_target_device: "Processed Mic".to_owned(),
            secondary_target_device: String::new(),
            routing: OutputRoutingMode::LocalOnly,
            monitor_processed_output: true,
            wav_path: "artifacts/output.wav".to_owned(),
        }
    }
}

/// `[sync]`: alignment search and jitter buffering.
#[derive(Clone, Copy, Debug)]
pub struct SyncConfig {
    pub jitter_buffer_frames: u16,
    pub coarse_search_ms: u16,
    pub drift_compensation: bool,
}

impl Default for SyncConfig {
    fn default() -> (r: Self)
        ensures
            r.jitter_buffer_frames == 3,
            r.coarse_search_ms == 30,
            r.drift_compensation,
    {
        SyncConfig { jitter_buffer_frames: 3, coarse_search_ms: 30, drift_compensation: true }
    }
}

/// `[cancel]`: the adaptive canceller. Real-valued settings are binary32
/// bit patterns.
#[derive(Clone, Copy, Debug)]
pub struct CancelConfig {
    pub filter_length: usize,
    pub step_size: u32,
    pub leakage: u32,
    pub update_threshold: u32,
    pub anti_phase_enabled: bool,
    pub anti_phase_max_gain: u32,
    pub anti_phase_smoothing: u32,
}

impl Default for CancelConfig {
    /// 1536 taps, step 0.04, leakage 0.0001, update threshold 0.65, direct
    /// anti-phase path on with gain up to 1.45 and smoothing 0.72.
    fn default() -> (r: Self)
        ensures
            r.filter_length == 1536,
            r.step_size == 0x3D23_D70A,
            r.leakage == 0x38D1_B717,
            r.update_threshold == 0x3F26_6666,
            r.anti_phase_enabled,
            r.anti_phase_max_gain == 0x3FB9_999A,
            r.anti_phase_smoothing == 0x3F38_51EC,
    {
        CancelConfig {
            filter_length: 1536,
            step_size: 0x3D23_D70A,
            leakage: 0x38D1_B717,
            update_threshold: 0x3F26_6666,
            anti_phase_enabled: true,
            anti_phase_max_gain: 0x3FB9_999A,
            anti_phase_smoothing: 0x3F38_51EC,
        }
    }
}

/// `[vad]`: voice activity detection. Thresholds and smoothing are binary32
/// bit patterns.
#[derive(Clone, Copy, Debug)]
pub struct VadConfig {
    pub enabled: bool,
    pub local_threshold: u32,
    pub peer_threshold: u32,
    pub smoothing: u32,
}

impl Default for VadConfig {
    /// Enabled, thresholds 0.6, smoothing 0.85.
    fn default() -> (r: Self)
        ensures
            r.enabled,
            r.local_threshold == 0x3F19_999A,
            r.peer_threshold == 0x3F19_999A,
            r.smoothing == 0x3F59_999A,
    {
        VadConfig {
            enabled: true,
            local_threshold: 0x3F19_999A,
            peer_threshold: 0x3F19_999A,
            smoothing: 0x3F59_999A,
        }
    }
}

/// `[residual]`: the residual suppressor. `strength` is a binary32 bit
/// pattern.
#[derive(Clone, Copy, Debug)]
pub struct ResidualConfig {
    pub enabled: bool,
    pub strength: u32,
}

impl Default for ResidualConfig {
    /// Enabled with strength 0.2.
    fn default() -> (r: Self)
        ensures
            r.enabled,
            r.strength == 0x3E4C_CCCD,
    {
        ResidualConfig { enabled: true, strength: 0x3E4C_CCCD }
    }
}

/// `[debug]`: dumps and the offline mock scene. `mock_peer_gain` is a
/// binary32 bit pattern.
#[derive(Clone, Debug)]
pub struct DebugConfig {
    pub dump_wav: bool,
    pub dump_metrics: bool,
    pub dump_dir: String,
    pub log_level: String,
    pub mock_peer_delay_ms: u16,
    pub mock_peer_gain: u32,
}

impl Default for DebugConfig {
    /// Both dumps on into `artifacts`, level `info`, mock peer 20 ms late at
    /// gain 0.35.
    fn default() -> (r: Self)
        ensures
            r.dump_wav,
            r.dump_metrics,
            r.dump_dir@ == "artifacts"@,
            r.log_level@ == "info"@,
            r.mock_peer_delay_ms == 20,
            r.mock_peer_gain == 0x3EB3_3333,
    {
        DebugConfig {
            dump_wav: true,
            dump_metrics: true,
            dump_dir: "artifacts".to_owned(),
            log_level: "info".to_owned(),
            mock_peer_delay_ms: 20,
            mock_peer_gain: 0x3EB3_3333,
        }
    }
}

/// `[gui]`: operator window.
#[derive(Clone, Copy, Debug)]
pub struct GuiConfig {
    pub auto_start: bool,
    pub refresh_hz: u16,
}

impl Default for GuiConfig {
    fn default() -> (r: Self)
        ensures
            !r.auto_start,
            r.refresh_hz == 30,
    {
        GuiConfig { auto_start: false, refresh_hz: 30 }
    }
}

/// The whole configuration of a node.
#[derive(Clone, Debug)]
pub struct NodeConfig {
    pub node: NodeSection,
    pub audio: AudioConfig,
    pub output: OutputConfig,
    pub sync: SyncConfig,
    pub cancel: CancelConfig,
    pub vad: VadConfig,
    pub residual: ResidualConfig,
    pub debug: DebugConfig,
    pub gui: GuiConfig,
}

impl Default for NodeConfig {
    /// Every section at its own default.
    fn default() -> (r: Self)
        ensures
            r.node.name@ == "node-a"@,
            r.node.listen_addr@ == "0.0.0.0:38001"@,
            r.node.peer_addr@ == "127.0.0.1:38002"@,
            r.node.transport_backend == TransportBackend::Udp,
            r.node.session_mode == SessionMode::Peer,
            r.node.role == NodeRole::Peer,
            r.audio.backend == AudioBackend::Wasapi,
            r.audio.input_device@ == "Microphone"@,
            r.audio.sample_rate == SAMPLE_RATE_HZ,
            r.audio.channels == CHANNELS,
            r.audio.frame_ms == FRAME_MS,
            r.output.backend == OutputBackend::VirtualStub,
            r.output.target_device@ == "Processed Mic"@,
            r.output.primary_target_device@ == "Processed Mic"@,
            r.output.secondary_target_device@ == Seq::<char>::empty(),
            r.output.routing == OutputRoutingMode::LocalOnly,
            r.output.monitor_processed_output,
            r.output.wav_path@ == "artifacts/output.wav"@,
            r.sync.jitter_buffer_frames == 3,
            r.sync.coarse_search_ms == 30,
            r.sync.drift_compensation,
            r.cancel.filter_length == 1536,
            r.cancel.step_size == 0x3D23_D70A,
            r.cancel.leakage == 0x38D1_B717,
            r.cancel.update_threshold == 0x3F26_6666,
            r.cancel.anti_phase_enabled,
            r.cancel.anti_phase_max_gain == 0x3FB9_999A,
            r.cancel.anti_phase_smoothing == 0x3F38_51EC,
            r.vad.enabled,
            r.vad.local_threshold == 0x3F19_999A,
            r.vad.peer_threshold == 0x3F19_999A,
            r.vad.smoothing == 0x3F59_999A,
            r.residual.enabled,
            r.residual.strength == 0x3E4C_CCCD,
            r.debug.dump_wav,
            r.debug.dump_metrics,
            r.debug.dump_dir@ == "artifacts"@,
            r.debug.log_level@ == "info"@,
            r.debug.mock_peer_delay_ms == 20,
            r.debug.mock_peer_gain == 0x3EB3_3333,
            !r.gui.auto_start,
            r.gui.refresh_hz == 30,
    {
        NodeConfig {
            node: NodeSection::default(),
            audio: AudioConfig::default(),
            output: OutputConfig::default(),
            sync: SyncConfig::default(),
            cancel: CancelConfig::default(),
            vad: VadConfig::default(),
            residual: ResidualConfig::default(),
            debug: DebugConfig::default(),
            gui: GuiConfig::default(),
        }
    }
}

impl NodeConfig {
    /// This node's session mode and role.
    pub fn identity(&self) -> (r: NodeIdentity)
        ensures
            r == (NodeIdentity { role: self.node.role, session_mode: self.node.session_mode }),
    {
        NodeIdentity { role: self.node.role, session_mode: self.node.session_mode }
    }
}

/// Why a configuration is refused.
#[derive(Clone, Debug)]
pub enum ConfigError {
    ListenAddrInvalid(String),
    ListenPortZero,
    PeerAddrInvalid(String),
    PeerPortZero,
    SampleRate(u32),
    Channels(u16),
    FrameMs(u16),
    FilterLengthZero,
    MasterSlaveRole,
    PeerOrBothRole,
    MasterRouting,
    SlaveRouting,
    PeerRouting,
    BothRouting,
    SplitNeedsVirtualStub,
    SplitNeedsDistinctDevices,
    PrimaryDeviceEmpty,
    AntiPhaseMaxGainNegative,
    AntiPhaseSmoothingRange,
}

/// The text of each refusal.
pub open spec fn spec_config_error_message(e: ConfigError) -> Seq<char> {
    match e {
        ConfigError::ListenAddrInvalid(a) => "node.listen_addr must be a valid IP:port for udp transport, got `"@
            + a@ + "`"@,
        ConfigError::ListenPortZero => "node.listen_addr must use a non-zero port"@,
        ConfigError::PeerAddrInvalid(a) => "node.peer_addr must be a valid IP:port for udp transport, got `"@
            + a@ + "`"@,
        ConfigError::PeerPortZero => "node.peer_addr must use a non-zero port"@,
        ConfigError::SampleRate(v) => "sample_rate must stay at 48000, got "@ + spec_decimal(
            v as nat,
        ),
        ConfigError::Channels(v) => "channels must stay at 1, got "@ + spec_decimal(v as nat),
        ConfigError::FrameMs(v) => "frame_ms must stay at 10, got "@ + spec_decimal(v as nat),
        ConfigError::FilterLengthZero => "cancel.filter_length must be > 0"@,
        ConfigError::MasterSlaveRole => "master_slave mode only allows role=master or role=slave"@,
        ConfigError::PeerOrBothRole => "peer/both mode only allows role=peer"@,
        ConfigError::MasterRouting => "master mode only allows output.routing = mix_to_primary or split_local_peer"@,
        ConfigError::SlaveRouting => "slave mode only allows output.routing = local_only or off"@,
        ConfigError::PeerRouting => "peer mode only allows output.routing = local_only"@,
        ConfigError::BothRouting => "both mode only allows output.routing = mix_to_primary or split_local_peer"@,
        ConfigError::SplitNeedsVirtualStub => "output.routing = split_local_peer requires output.backend = virtual_stub"@,
        ConfigError::SplitNeedsDistinctDevices => "split_local_peer requires two distinct output devices; use mix_to_primary for a single device mix"@,
        ConfigError::PrimaryDeviceEmpty => "output.primary_target_device must not be empty for live output routing"@,
        ConfigError::AntiPhaseMaxGainNegative => "cancel.anti_phase_max_gain must be >= 0"@,
        ConfigError::AntiPhaseSmoothingRange => "cancel.anti_phase_smoothing must be in [0, 1)"@,
    }
}

impl ConfigError {
    /// The operator-facing description of the refusal.
    pub fn message(&self) -> (r: String)
        ensures
            r@ == spec_config_error_message(*self),
    {
        match self {
            ConfigError::ListenAddrInvalid(a) => {
                let mut s = "node.listen_addr must be a valid IP:port for udp transport, got `".to_owned();
                s.append(a.as_str());
                s.append("`");
                s
            },
            ConfigError::ListenPortZero => "node.listen_addr must use a non-zero port".to_owned(),
            ConfigError::PeerAddrInvalid(a) => {
                let mut s = "node.peer_addr must be a valid IP:port for udp transport, got `".to_owned();
                s.append(a.as_str());
                s.append("`");
                s
            },
            ConfigError::PeerPortZero => "node.peer_addr must use a non-zero port".to_owned(),
            ConfigError::SampleRate(v) => {
                let mut s = "sample_rate must stay at 48000, got ".to_owned();
                let d = decimal(*v as u128);
                s.append(d.as_str());
                s
            },
            ConfigError::Channels(v) => {
                let mut s = "channels must stay at 1, got ".to_owned();
                let d = decimal(*v as u128);
                s.append(d.as_str());
                s
            },
            ConfigError::FrameMs(v) => {
                let mut s = "frame_ms must stay at 10, got ".to_owned();
                let d = decimal(*v as u128);
                s.append(d.as_str());
                s
            },
            ConfigError::FilterLengthZero => "cancel.filter_length must be > 0".to_owned(),
            ConfigError::MasterSlaveRole => "master_slave mode only allows role=master or role=slave".to_owned(),
            ConfigError::PeerOrBothRole => "peer/both mode only allows role=peer".to_owned(),
            ConfigError::MasterRouting => "master mode only allows output.routing = mix_to_primary or split_local_peer".to_owned(),
            ConfigError::SlaveRouting => "slave mode only allows output.routing = local_only or off".to_owned(),
            ConfigError::PeerRouting => "peer mode only allows output.routing = local_only".to_owned(),
            ConfigError::BothRouting => "both mode only allows output.routing = mix_to_primary or split_local_peer".to_owned(),
            ConfigError::SplitNeedsVirtualStub => "output.routing = split_local_peer requires output.backend = virtual_stub".to_owned(),
            ConfigError::SplitNeedsDistinctDevices => "split_local_peer requires two distinct output devices; use mix_to_primary for a single device mix".to_owned(),
            ConfigError::PrimaryDeviceEmpty => "output.primary_target_device must not be empty for live output routing".to_owned(),
            ConfigError::AntiPhaseMaxGainNegative => "cancel.anti_phase_max_gain must be >= 0".to_owned(),
            ConfigError::AntiPhaseSmoothingRange => "cancel.anti_phase_smoothing must be in [0, 1)".to_owned(),
        }
    }
}

/// Role check of the pairing rules: master/slave sessions take a master or a
/// slave, peer and both sessions take peers only.
pub open spec fn spec_pairing_check(mode: SessionMode, role: NodeRole) -> Result<(), ConfigError> {
    match (mode, role) {
        (SessionMode::MasterSlave, NodeRole::Peer) => Err(ConfigError::MasterSlaveRole),
        (SessionMode::MasterSlave, _) => Ok(()),
        (_, NodeRole::Peer) => Ok(()),
        _ => Err(ConfigError::PeerOrBothRole),
    }
}

/// Routing allowed per pairing: a master mixes or splits, a slave plays
/// locally or not at all, a peer plays locally, a both-mode peer mixes or
/// splits. Pairings the role check refuses are not restricted here.
pub open spec fn spec_routing_table_check(
    mode: SessionMode,
    role: NodeRole,
    routing: OutputRoutingMode,
) -> Result<(), ConfigError> {
    match (mode, role) {
        (SessionMode::MasterSlave, NodeRole::Master) => match routing {
            OutputRoutingMode::MixToPrimary | OutputRoutingMode::SplitLocalPeer => Ok(()),
            _ => Err(ConfigError::MasterRouting),
        },
        (SessionMode::MasterSlave, NodeRole::Slave) => match routing {
            OutputRoutingMode::LocalOnly | OutputRoutingMode::Off => Ok(()),
            _ => Err(ConfigError::SlaveRouting),
        },
        (SessionMode::Peer, NodeRole::Peer) => match routing {
            OutputRoutingMode::LocalOnly => Ok(()),
            _ => Err(ConfigError::PeerRouting),
        },
        (SessionMode::Both, NodeRole::Peer) => match routing {
            OutputRoutingMode::MixToPrimary | OutputRoutingMode::SplitLocalPeer => Ok(()),
            _ => Err(ConfigError::BothRouting),
        },
        _ => Ok(()),
    }
}

/// The output-routing rules: the routing table, then the device demands of
/// split and live routings.
pub open spec fn spec_routing_check(
    mode: SessionMode,
    role: NodeRole,
    output: OutputConfig,
) -> Result<(), ConfigError> {
    if spec_routing_table_check(mode, role, output.routing) is Err {
        spec_routing_table_check(mode, role, output.routing)
    } else if output.routing == OutputRoutingMode::SplitLocalPeer && output.backend
        != OutputBackend::VirtualStub {
        Err(ConfigError::SplitNeedsVirtualStub)
    } else if output.routing == OutputRoutingMode::SplitLocalPeer && spec_ascii_lowercase(
        spec_trim(output.primary_target_device@),
    ) == spec_ascii_lowercase(spec_trim(output.secondary_target_device@)) {
        Err(ConfigError::SplitNeedsDistinctDevices)
    } else if (output.routing == OutputRoutingMode::MixToPrimary || output.routing
        == OutputRoutingMode::LocalOnly) && spec_trim(output.primary_target_device@).len() == 0
        && output.backend == OutputBackend::VirtualStub {
        Err(ConfigError::PrimaryDeviceEmpty)
    } else {
        Ok(())
    }
}

/// The whole rule set, checked in order; the first rule broken decides the
/// error. `listen_port` and `peer_port` are the ports of `listen_addr` and
/// `peer_addr` read as socket addresses (`None` when the text is not one);
/// they matter only for UDP transport.
pub open spec fn spec_validate_config(
    config: NodeConfig,
    listen_port: Option<u16>,
    peer_port: Option<u16>,
) -> Result<(), ConfigError> {
    let udp = config.node.transport_backend == TransportBackend::Udp;
    if udp && listen_port is None {
        Err(ConfigError::ListenAddrInvalid(config.node.listen_addr))
    } else if udp && listen_port == Some(0u16) {
        Err(ConfigError::ListenPortZero)
    } else if udp && peer_port is None {
        Err(ConfigError::PeerAddrInvalid(config.node.peer_addr))
    } else if udp && peer_port == Some(0u16) {
        Err(ConfigError::PeerPortZero)
    } else if config.audio.sample_rate != SAMPLE_RATE_HZ {
        Err(ConfigError::SampleRate(config.audio.sample_rate))
    } else if config.audio.channels != CHANNELS {
        Err(ConfigError::Channels(config.audio.channels))
    } else if config.audio.frame_ms != FRAME_MS {
        Err(ConfigError::FrameMs(config.audio.frame_ms))
    } else if config.cancel.filter_length == 0 {
        Err(ConfigError::FilterLengthZero)
    } else if spec_pairing_check(config.node.session_mode, config.node.role) is Err {
        spec_pairing_check(config.node.session_mode, config.node.role)
    } else if spec_routing_check(config.node.session_mode, config.node.role, config.output) is Err {
        spec_routing_check(config.node.session_mode, config.node.role, config.output)
    } else if binary32_below_zero(config.cancel.anti_phase_max_gain) {
        Err(ConfigError::AntiPhaseMaxGainNegative)
    } else if !binary32_in_unit_interval(config.cancel.anti_phase_smoothing) {
        Err(ConfigError::AntiPhaseSmoothingRange)
    } else {
        Ok(())
    }
}

/// Checks that the role fits the session mode.
pub fn validate_pairing_mode(config: &NodeConfig) -> (r: Result<(), ConfigError>)
    ensures
        r == spec_pairing_check(config.node.session_mode, config.node.role),
{
    match (config.node.session_mode, config.node.role) {
        (SessionMode::MasterSlave, NodeRole::Master) => Ok(()),
        (SessionMode::MasterSlave, NodeRole::Slave) => Ok(()),
        (SessionMode::Peer, NodeRole::Peer) => Ok(()),
        (SessionMode::Both, NodeRole::Peer) => Ok(()),
        (SessionMode::MasterSlave, NodeRole::Peer) => Err(ConfigError::MasterSlaveRole),
        (SessionMode::Peer, NodeRole::Master) => Err(ConfigError::PeerOrBothRole),
        (SessionMode::Peer, NodeRole::Slave) => Err(ConfigError::PeerOrBothRole),
        (SessionMode::Both, NodeRole::Master) => Err(ConfigError::PeerOrBothRole),
        (SessionMode::Both, NodeRole::Slave) => Err(ConfigError::PeerOrBothRole),
    }
}

/// Checks the output routing against the pairing and the output devices.
pub fn validate_output_routing(config: &NodeConfig) -> (r: Result<(), ConfigError>)
    ensures
        r == spec_routing_check(config.node.session_mode, config.node.role, config.output),
{
    let routing = config.output.routing;
    match (config.node.session_mode, config.node.role) {
        (SessionMode::MasterSlave, NodeRole::Master) => {
            if !(routing == OutputRoutingMode::MixToPrimary || routing
                == OutputRoutingMode::SplitLocalPeer) {
                return Err(ConfigError::MasterRouting);
            }
        },
        (SessionMode::MasterSlave, NodeRole::Slave) => {
            if !(routing == OutputRoutingMode::LocalOnly || routing == OutputRoutingMode::Off) {
                return Err(ConfigError::SlaveRouting);
            }
        },
        (SessionMode::Peer, NodeRole::Peer) => {
            if routing != OutputRoutingMode::LocalOnly {
                return Err(ConfigError::PeerRouting);
            }
        },
        (SessionMode::Both, NodeRole::Peer) => {
            if !(routing == OutputRoutingMode::MixToPrimary || routing
                == OutputRoutingMode::SplitLocalPeer) {
                return Err(ConfigError::BothRouting);
            }
        },
        _ => {},
    }
    if routing == OutputRoutingMode::SplitLocalPeer {
        if config.output.backend != OutputBackend::VirtualStub {
            return Err(ConfigError::SplitNeedsVirtualStub);
        }
        if eq_ignore_ascii_case(
            trim(config.output.primary_target_device.as_str()),
            trim(config.output.secondary_target_device.as_str()),
        ) {
            return Err(ConfigError::SplitNeedsDistinctDevices);
        }
    }
    if (routing == OutputRoutingMode::MixToPrimary || routing == OutputRoutingMode::LocalOnly)
        && trim(config.output.primary_target_device.as_str()).is_empty()
        && config.output.backend == OutputBackend::VirtualStub {
        return Err(ConfigError::PrimaryDeviceEmpty);
    }
    Ok(())
}

/// Checks a configuration against every rule, in order, and reports the
/// first one it breaks. `listen_port` and `peer_port` are the ports of
/// `node.listen_addr` and `node.peer_addr` read as socket addresses, or
/// `None` where the text is not a socket address.
pub fn validate_config(config: &NodeConfig, listen_port: Option<u16>, peer_port: Option<u16>) -> (r:
    Result<(), ConfigError>)
    ensures
        r == spec_validate_config(*config, listen_port, peer_port),
{
    if config.node.transport_backend == TransportBackend::Udp {
        match listen_port {
            None => return Err(ConfigError::ListenAddrInvalid(config.node.listen_addr.clone())),
            Some(0) => return Err(ConfigError::ListenPortZero),
            Some(_) => {},
        }
        match peer_port {
            None => return Err(ConfigError::PeerAddrInvalid(config.node.peer_addr.clone())),
            Some(0) => return Err(ConfigError::PeerPortZero),
            Some(_) => {},
        }
    }
    if config.audio.sample_rate != SAMPLE_RATE_HZ {
        return Err(ConfigError::SampleRate(config.audio.sample_rate));
    }
    if config.audio.channels as usize != CHANNELS {
        return Err(ConfigError::Channels(config.audio.channels));
    }
    if config.audio.frame_ms as usize != FRAME_MS {
        return Err(ConfigError::FrameMs(config.audio.frame_ms));
    }
    if config.cancel.filter_length == 0 {
        return Err(ConfigError::FilterLengthZero);
    }
    match validate_pairing_mode(config) {
        Err(e) => return Err(e),
        Ok(()) => {},
    }
    match validate_output_routing(config) {
        Err(e) => return Err(e),
        Ok(()) => {},
    }
    if f32_bits_below_zero(config.cancel.anti_phase_max_gain) {
        return Err(ConfigError::AntiPhaseMaxGainNegative);
    }
    if !f32_bits_in_unit_interval(config.cancel.anti_phase_smoothing) {
        return Err(ConfigError::AntiPhaseSmoothingRange);
    }
    Ok(())
}

/// A node whose role fits its session mode expects a peer whose role
/// fits that mode too: a master a slave, a slave a master, a peer a peer.
pub proof fn lemma_expected_peer_fits_mode(id: NodeIdentity)
    requires
        spec_pairing_check(id.session_mode, id.role) is Ok,
    ensures
        spec_pairing_check(
            spec_expected_peer(id).session_mode,
            spec_expected_peer(id).role,
        ) is Ok,
{
}

/// The roles each session mode pairs with: master or slave in
/// master/slave mode, peer in peer mode and in both mode.
pub open spec fn role_fits_mode(mode: SessionMode, role: NodeRole) -> bool {
    ||| mode == SessionMode::MasterSlave && role == NodeRole::Master
    ||| mode == SessionMode::MasterSlave && role == NodeRole::Slave
    ||| mode == SessionMode::Peer && role == NodeRole::Peer
    ||| mode == SessionMode::Both && role == NodeRole::Peer
}

/// The output routings each pairing may use: a master mixes or splits, a
/// slave plays locally or not at all, a peer plays locally, and a peer in
/// both mode mixes or splits.
pub open spec fn routing_allowed(mode: SessionMode, role: NodeRole, routing: OutputRoutingMode) -> bool {
    ||| mode == SessionMode::MasterSlave && role == NodeRole::Master && (routing
        == OutputRoutingMode::MixToPrimary || routing == OutputRoutingMode::SplitLocalPeer)
    ||| mode == SessionMode::MasterSlave && role == NodeRole::Slave && (routing
        == OutputRoutingMode::LocalOnly || routing == OutputRoutingMode::Off)
    ||| mode == SessionMode::Peer && role == NodeRole::Peer && routing == OutputRoutingMode::LocalOnly
    ||| mode == SessionMode::Both && role == NodeRole::Peer && (routing
        == OutputRoutingMode::MixToPrimary || routing == OutputRoutingMode::SplitLocalPeer)
}

/// A config meets every rule other than the pairing and routing ones: its
/// UDP ports (when it uses UDP) parse and are not zero, the audio format
/// is the fixed one, the filter is not empty, the anti-phase gain is not
/// negative and its smoothing lies in [0, 1]; a split routing renders to
/// the virtual stub on two different devices, and a mixing or local
/// routing on the virtual stub names its primary device.
pub open spec fn meets_other_rules(config: NodeConfig, listen_port: Option<u16>, peer_port: Option<u16>) -> bool {
    let output = config.output;
    &&& config.node.transport_backend == TransportBackend::Udp ==> {
        &&& listen_port matches Some(p) && p != 0
        &&& peer_port matches Some(q) && q != 0
    }
    &&& config.audio.sample_rate == SAMPLE_RATE_HZ
    &&& config.audio.channels == CHANNELS
    &&& config.audio.frame_ms == FRAME_MS
    &&& config.cancel.filter_length > 0
    &&& !binary32_below_zero(config.cancel.anti_phase_max_gain)
    &&& binary32_in_unit_interval(config.cancel.anti_phase_smoothing)
    &&& output.routing == OutputRoutingMode::SplitLocalPeer ==> {
        &&& output.backend == OutputBackend::VirtualStub
        &&& spec_ascii_lowercase(spec_trim(output.primary_target_device@)) != spec_ascii_lowercase(
            spec_trim(output.secondary_target_device@),
        )
    }
    &&& (output.routing == OutputRoutingMode::MixToPrimary || output.routing
        == OutputRoutingMode::LocalOnly) && output.backend == OutputBackend::VirtualStub ==> spec_trim(
        output.primary_target_device@,
    ).len() > 0
}

/// A config is accepted exactly when its role fits its session mode and
/// its routing is one that pairing may use, given that it meets every
/// other rule; a role that does not fit the mode, or a routing the pairing
/// may not use, is refused.
pub proof fn lemma_pairing_and_routing_decide(
    config: NodeConfig,
    listen_port: Option<u16>,
    peer_port: Option<u16>,
)
    requires
        meets_other_rules(config, listen_port, peer_port),
    ensures
        spec_validate_config(config, listen_port, peer_port) is Ok <==> role_fits_mode(
            config.node.session_mode,
            config.node.role,
        ) && routing_allowed(config.node.session_mode, config.node.role, config.output.routing),
{
}

/// A refused pairing is refused whatever else the config holds: a config
/// whose role does not fit its session mode, or whose routing that
/// pairing may not use, is never accepted.
pub proof fn lemma_unfit_pairing_refused(
    config: NodeConfig,
    listen_port: Option<u16>,
    peer_port: Option<u16>,
)
    requires
        !role_fits_mode(config.node.session_mode, config.node.role) || !routing_allowed(
            config.node.session_mode,
            config.node.role,
            config.output.routing,
        ),
    ensures
        spec_validate_config(config, listen_port, peer_port) is Err,
{
}

/// Which error a refused pairing or routing gives, once the addresses,
/// the audio format and the filter length pass: a peer role in
/// master/slave mode, and a master or slave role in peer or both mode, are
/// refused for the role; a routing the pairing may not use is refused with
/// that pairing's own routing error.
pub proof fn lemma_pairing_and_routing_errors(
    config: NodeConfig,
    listen_port: Option<u16>,
    peer_port: Option<u16>,
)
    requires
        config.node.transport_backend == TransportBackend::Udp ==> {
            &&& listen_port matches Some(p) && p != 0
            &&& peer_port matches Some(q) && q != 0
        },
        config.audio.sample_rate == SAMPLE_RATE_HZ,
        config.audio.channels == CHANNELS,
        config.audio.frame_ms == FRAME_MS,
        config.cancel.filter_length > 0,
    ensures
        ({
            let mode = config.node.session_mode;
            let role = config.node.role;
            let r = spec_validate_config(config, listen_port, peer_port);
            &&& mode == SessionMode::MasterSlave && role == NodeRole::Peer ==> r
                == Err::<(), ConfigError>(ConfigError::MasterSlaveRole)
            &&& mode != SessionMode::MasterSlave && role != NodeRole::Peer ==> r
                == Err::<(), ConfigError>(ConfigError::PeerOrBothRole)
            &&& role_fits_mode(mode, role) && !routing_allowed(mode, role, config.output.routing)
                ==> r == Err::<(), ConfigError>(
                if role == NodeRole::Master {
                    ConfigError::MasterRouting
                } else if role == NodeRole::Slave {
                    ConfigError::SlaveRouting
                } else if mode == SessionMode::Peer {
                    ConfigError::PeerRouting
                } else {
                    ConfigError::BothRouting
                },
            )
        }),
{
}

} // verus!
