use crate::catalog::{path_join, spec_path_join};
use crate::config::{DebugConfig, NodeConfig, OutputConfig};
use crate::model::{AudioBackend, AudioDeviceInfo, AudioFrame, OutputBackend, OutputRoutingMode, SessionMode, TransportBackend};
use crate::order::views;
use vstd::prelude::*;

verus! {

/// Why audio devices cannot be listed.
#[derive(Clone, Copy, Debug, PartialEq, Eq, Structural)]
pub enum DeviceProbeError {
    CaptureUnsupported,
    RenderUnsupported,
}

impl DeviceProbeError {
    /// The error's text.
    pub fn message(self) -> (r: &'static str)
        ensures
            r@ == match self {
                DeviceProbeError::CaptureUnsupported =>
                    "capture device enumeration is only available on Windows"@,
                DeviceProbeError::RenderUnsupported =>
                    "render device enumeration is only available on Windows"@,
            },
    {
        match self {
            DeviceProbeError::CaptureUnsupported =>
                "capture device enumeration is only available on Windows",
            DeviceProbeError::RenderUnsupported =>
                "render device enumeration is only available on Windows",
        }
    }
}

/// Lists capture endpoints. Endpoint enumeration goes through the Windows
/// audio stack, which this build does not have, so the answer is always
/// the capture error.
pub fn list_capture_devices() -> (r: Result<Vec<AudioDeviceInfo>, DeviceProbeError>)
    ensures
        r == Err::<Vec<AudioDeviceInfo>, DeviceProbeError>(DeviceProbeError::CaptureUnsupported),
{
    Err(DeviceProbeError::CaptureUnsupported)
}

/// Lists render endpoints. Endpoint enumeration goes through the Windows
/// audio stack, which this build does not have, so the answer is always
/// the render error.
pub fn list_render_devices() -> (r: Result<Vec<AudioDeviceInfo>, DeviceProbeError>)
    ensures
        r == Err::<Vec<AudioDeviceInfo>, DeviceProbeError>(DeviceProbeError::RenderUnsupported),
{
    Err(DeviceProbeError::RenderUnsupported)
}

/// How samples are laid out in a device buffer.
#[derive(Clone, Copy, Debug, PartialEq, Eq, Structural)]
pub enum SampleFormat {
    Float32,
    Pcm16,
    Pcm24,
    Pcm32,
}

/// The sub-format GUID of an extensible wave format, by kind.
#[derive(Clone, Copy, Debug, PartialEq, Eq, Structural)]
pub enum SubFormat {
    IeeeFloat,
    Pcm,
    Other,
}

/// Why a device format is refused.
#[derive(Clone, Copy, Debug, PartialEq, Eq, Structural)]
pub enum FormatError {
    UnsupportedPcmBitDepth(u16),
    UnsupportedSubFormat,
    UnsupportedFormatTag(u16),
}

/// The PCM layout for a bit depth: 16, 24 or 32 bits.
pub open spec fn spec_pcm_format(bits_per_sample: u16) -> Result<SampleFormat, FormatError> {
    if bits_per_sample == 16 {
        Ok(SampleFormat::Pcm16)
    } else if bits_per_sample == 24 {
        Ok(SampleFormat::Pcm24)
    } else if bits_per_sample == 32 {
        Ok(SampleFormat::Pcm32)
    } else {
        Err(FormatError::UnsupportedPcmBitDepth(bits_per_sample))
    }
}

/// The PCM layout of a render buffer for a bit depth.
pub fn pcm_format_from_bits(bits_per_sample: u16) -> (r: Result<SampleFormat, FormatError>)
    ensures
        r == spec_pcm_format(bits_per_sample),
{
    match bits_per_sample {
        16 => Ok(SampleFormat::Pcm16),
        24 => Ok(SampleFormat::Pcm24),
        32 => Ok(SampleFormat::Pcm32),
        other => Err(FormatError::UnsupportedPcmBitDepth(other)),
    }
}

/// The PCM layout of a capture buffer for a bit depth.
pub fn pcm_capture_format_from_bits(bits_per_sample: u16) -> (r: Result<SampleFormat, FormatError>)
    ensures
        r == spec_pcm_format(bits_per_sample),
{
    pcm_format_from_bits(bits_per_sample)
}

/// The wave format tag of PCM samples.
pub const WAVE_FORMAT_PCM: u16 = 1;

/// The wave format tag of IEEE float samples.
pub const WAVE_FORMAT_IEEE_FLOAT: u16 = 3;

/// The wave format tag of the extensible format, whose sub-format GUID
/// says what the samples are.
pub const WAVE_FORMAT_EXTENSIBLE: u16 = 0xFFFE;

/// The sample layout a wave format describes: float for the float tag,
/// PCM of the given depth for the PCM tag, and for the extensible tag
/// whatever its sub-format says; other tags and sub-formats are refused.
pub open spec fn spec_sample_format(format_tag: u16, bits_per_sample: u16, sub_format: SubFormat) -> Result<
    SampleFormat,
    FormatError,
> {
    if format_tag == WAVE_FORMAT_IEEE_FLOAT {
        Ok(SampleFormat::Float32)
    } else if format_tag == WAVE_FORMAT_PCM {
        spec_pcm_format(bits_per_sample)
    } else if format_tag == WAVE_FORMAT_EXTENSIBLE {
        match sub_format {
            SubFormat::IeeeFloat => Ok(SampleFormat::Float32),
            SubFormat::Pcm => spec_pcm_format(bits_per_sample),
            SubFormat::Other => Err(FormatError::UnsupportedSubFormat),
        }
    } else {
        Err(FormatError::UnsupportedFormatTag(format_tag))
    }
}

/// The format holds IEEE float samples: the float tag, or the extensible
/// tag with the IEEE-float sub-format.
pub open spec fn holds_float_samples(format_tag: u16, sub_format: SubFormat) -> bool {
    format_tag == WAVE_FORMAT_IEEE_FLOAT || (format_tag == WAVE_FORMAT_EXTENSIBLE && sub_format
        == SubFormat::IeeeFloat)
}

/// The format holds integer PCM samples: the PCM tag, or the extensible
/// tag with the PCM sub-format.
pub open spec fn holds_pcm_samples(format_tag: u16, sub_format: SubFormat) -> bool {
    format_tag == WAVE_FORMAT_PCM || (format_tag == WAVE_FORMAT_EXTENSIBLE && sub_format
        == SubFormat::Pcm)
}

/// Float samples are always read as 32-bit floats, whatever the bit depth
/// says; a PCM layout comes only from a PCM format, with the layout's width
/// equal to the bit depth (16, 24 or 32; any other depth is refused); and
/// a format that holds neither is refused.
pub proof fn lemma_sample_layout_follows_sample_kind(
    format_tag: u16,
    bits_per_sample: u16,
    sub_format: SubFormat,
)
    ensures
        holds_float_samples(format_tag, sub_format) ==> spec_sample_format(
            format_tag,
            bits_per_sample,
            sub_format,
        ) == Ok::<SampleFormat, FormatError>(SampleFormat::Float32),
        holds_pcm_samples(format_tag, sub_format) ==> match spec_sample_format(
            format_tag,
            bits_per_sample,
            sub_format,
        ) {
            Ok(f) => (bits_per_sample == 16 && f == SampleFormat::Pcm16) || (bits_per_sample == 24
                && f == SampleFormat::Pcm24) || (bits_per_sample == 32 && f == SampleFormat::Pcm32),
            Err(_) => bits_per_sample != 16 && bits_per_sample != 24 && bits_per_sample != 32,
        },
        !holds_float_samples(format_tag, sub_format) && !holds_pcm_samples(format_tag, sub_format)
            ==> spec_sample_format(format_tag, bits_per_sample, sub_format) is Err,
{
}

/// A device's mix format as the pipeline uses it.
#[derive(Clone, Copy, Debug, PartialEq, Eq, Structural)]
pub struct FormatSpec {
    pub channels: u16,
    pub sample_rate: u32,
    pub block_align: u16,
    pub sample_format: SampleFormat,
}

/// Reads a device's mix format: channels, rate and block alignment of at
/// least 1, and the sample layout (see `spec_sample_format`).
pub fn describe_format(
    channels: u16,
    sample_rate: u32,
    block_align: u16,
    format_tag: u16,
    bits_per_sample: u16,
    sub_format: SubFormat,
) -> (r: Result<FormatSpec, FormatError>)
    ensures
        match spec_sample_format(format_tag, bits_per_sample, sub_format) {
            Ok(f) => r == Ok::<FormatSpec, FormatError>(
                FormatSpec {
                    channels: if channels == 0 { 1 } else { channels },
                    sample_rate: if sample_rate == 0 { 1 } else { sample_rate },
                    block_align: if block_align == 0 { 1 } else { block_align },
                    sample_format: f,
                },
            ),
            Err(e) => r == Err::<FormatSpec, FormatError>(e),
        },
{
    let sample_format = if format_tag == WAVE_FORMAT_IEEE_FLOAT {
        SampleFormat::Float32
    } else if format_tag == WAVE_FORMAT_PCM {
        match pcm_format_from_bits(bits_per_sample) {
            Ok(f) => f,
            Err(e) => return Err(e),
        }
    } else if format_tag == WAVE_FORMAT_EXTENSIBLE {
        match sub_format {
            SubFormat::IeeeFloat => SampleFormat::Float32,
            SubFormat::Pcm => match pcm_format_from_bits(bits_per_sample) {
                Ok(f) => f,
                Err(e) => return Err(e),
            },
            SubFormat::Other => return Err(FormatError::UnsupportedSubFormat),
        }
    } else {
        return Err(FormatError::UnsupportedFormatTag(format_tag));
    };
    Ok(
        FormatSpec {
            channels: if channels == 0 {
                1
            } else {
                channels
            },
            sample_rate: if sample_rate == 0 {
                1
            } else {
                sample_rate
            },
            block_align: if block_align == 0 {
                1
            } else {
                block_align
            },
            sample_format,
        },
    )
}

/// Bytes per sample of one channel: the block alignment shared out over
/// the channels, at least 1.
pub fn bytes_per_sample(format: FormatSpec) -> (r: usize)
    ensures
        r == if format.block_align as int / (if format.channels == 0 {
            1
        } else {
            format.channels as int
        }) == 0 {
            1
        } else {
            format.block_align as int / (if format.channels == 0 {
                1
            } else {
                format.channels as int
            })
        },
{
    let channels: usize = if format.channels == 0 {
        1
    } else {
        format.channels as usize
    };
    let per = format.block_align as usize / channels;
    if per == 0 {
        1
    } else {
        per
    }
}

/// Frames in a frame of `input_frames` resampled from `input_rate` to
/// `output_rate`: unchanged when the rates are equal or there is at most
/// one frame (nothing is resampled then); otherwise the proportional count,
/// at least 1.
pub open spec fn spec_resampled_frame_count(input_frames: u32, output_rate: u32, input_rate: u32) -> int {
    if output_rate == input_rate || input_frames <= 1 {
        input_frames as int
    } else if (input_frames as int * output_rate as int) / input_rate as int == 0 {
        1
    } else {
        (input_frames as int * output_rate as int) / input_rate as int
    }
}

/// Frames after resampling (see `spec_resampled_frame_count`); a zero
/// input rate is only allowed where nothing is resampled.
pub fn resampled_frame_count(input_frames: u32, output_rate: u32, input_rate: u32) -> (r: u64)
    requires
        output_rate == input_rate || input_frames <= 1 || input_rate > 0,
    ensures
        r == spec_resampled_frame_count(input_frames, output_rate, input_rate),
{
    if output_rate == input_rate || input_frames <= 1 {
        return input_frames as u64;
    }
    assert(input_frames as int * output_rate as int <= u64::MAX) by (nonlinear_arith)
        requires
            input_frames <= u32::MAX,
            output_rate <= u32::MAX,
    ;
    let product: u64 = input_frames as u64 * output_rate as u64;
    let count = product / input_rate as u64;
    if count == 0 {
        1
    } else {
        count
    }
}

/// A sink that discards every frame.
pub struct NullOutputSink;

impl NullOutputSink {
    /// Discards a frame.
    pub fn write_frame(&mut self, frame: &AudioFrame) {
    }
}

/// Stands in for a virtual microphone device where none can be opened:
/// it remembers the device name and discards frames.
pub struct VirtualMicStub {
    pub device_name: String,
}

impl VirtualMicStub {
    /// A stub for the named device.
    pub fn new(device_name: String) -> (r: Self)
        ensures
            r.device_name@ == device_name@,
    {
        VirtualMicStub { device_name }
    }

    /// Discards a frame.
    pub fn write_frame(&mut self, frame: &AudioFrame)
        ensures
            final(self).device_name@ == old(self).device_name@,
    {
    }
}

/// What an output backend writes to.
pub enum OutputSinkKind {
    Null,
    WavFile { path: String },
    VirtualDevice { device_name: String },
}

/// The sink an output section asks for: nothing for the null backend, a
/// WAV file at its path, or the virtual device named as primary target.
pub fn output_sink_kind(config: &OutputConfig) -> (r: OutputSinkKind)
    ensures
        match config.backend {
            OutputBackend::Null => r is Null,
            OutputBackend::WavDump => r matches OutputSinkKind::WavFile { path } && path@
                == config.wav_path@,
            OutputBackend::VirtualStub => r matches OutputSinkKind::VirtualDevice {
                device_name,
            } && device_name@ == config.primary_target_device@,
        },
{
    match config.backend {
        OutputBackend::Null => OutputSinkKind::Null,
        OutputBackend::WavDump => OutputSinkKind::WavFile { path: config.wav_path.clone() },
        OutputBackend::VirtualStub => OutputSinkKind::VirtualDevice {
            device_name: config.primary_target_device.clone(),
        },
    }
}

/// The sinks an output section opens: a primary one unless routing is
/// off, and for split routing a secondary one like it but aimed at the
/// secondary target device.
pub struct OutputSinkPlan {
    pub primary: Option<OutputSinkKind>,
    pub secondary: Option<OutputSinkKind>,
}

/// Plans the output sinks (see `OutputSinkPlan`).
pub fn output_sink_plan(config: &OutputConfig) -> (r: OutputSinkPlan)
    ensures
        (config.routing == OutputRoutingMode::Off) <==> r.primary is None,
        config.routing != OutputRoutingMode::Off ==> match config.backend {
            OutputBackend::Null => r.primary matches Some(OutputSinkKind::Null),
            OutputBackend::WavDump => r.primary matches Some(OutputSinkKind::WavFile { path })
                && path@ == config.wav_path@,
            OutputBackend::VirtualStub => r.primary matches Some(
                OutputSinkKind::VirtualDevice { device_name },
            ) && device_name@ == config.primary_target_device@,
        },
        (config.routing == OutputRoutingMode::SplitLocalPeer) <==> r.secondary is Some,
        config.routing == OutputRoutingMode::SplitLocalPeer ==> match config.backend {
            OutputBackend::Null => r.secondary matches Some(OutputSinkKind::Null),
            OutputBackend::WavDump => r.secondary matches Some(OutputSinkKind::WavFile { path })
                && path@ == config.wav_path@,
            OutputBackend::VirtualStub => r.secondary matches Some(
                OutputSinkKind::VirtualDevice { device_name },
            ) && device_name@ == config.secondary_target_device@,
        },
{
    let primary = match config.routing {
        OutputRoutingMode::Off => None,
        _ => Some(output_sink_kind(config)),
    };
    let secondary = match config.routing {
        OutputRoutingMode::SplitLocalPeer => {
            let secondary_kind = match config.backend {
                OutputBackend::Null => OutputSinkKind::Null,
                OutputBackend::WavDump => OutputSinkKind::WavFile {
                    path: config.wav_path.clone(),
                },
                OutputBackend::VirtualStub => OutputSinkKind::VirtualDevice {
                    device_name: config.secondary_target_device.clone(),
                },
            };
            Some(secondary_kind)
        },
        _ => None,
    };
    OutputSinkPlan { primary, secondary }
}

/// Which frames go to which sink for one processed frame.
#[derive(Clone, Copy, Debug, PartialEq, Eq, Structural)]
pub enum RouteAction {
    WriteNothing,
    LocalToPrimary,
    MixToPrimary,
    Split { peer_to_secondary: bool },
}

/// Why a frame cannot be routed.
#[derive(Clone, Copy, Debug, PartialEq, Eq, Structural)]
pub enum RoutingError {
    MissingSecondarySink,
}

impl RoutingError {
    /// The error's text.
    pub fn message(self) -> (r: &'static str)
        ensures
            r@ == "split_local_peer routing requires a secondary output sink"@,
    {
        "split_local_peer routing requires a secondary output sink"
    }
}

/// Routes a processed frame: off writes nothing; local-only sends the
/// local frame to the primary sink; mix sends the mix of both; split sends
/// the local frame to the primary sink and the peer frame to the secondary
/// one, which master-slave and dual sessions must have.
pub fn route_frames(routing: OutputRoutingMode, has_secondary: bool, session_mode: SessionMode) -> (r:
    Result<RouteAction, RoutingError>)
    ensures
        r == match routing {
            OutputRoutingMode::Off => Ok::<RouteAction, RoutingError>(RouteAction::WriteNothing),
            OutputRoutingMode::LocalOnly => Ok(RouteAction::LocalToPrimary),
            OutputRoutingMode::MixToPrimary => Ok(RouteAction::MixToPrimary),
            OutputRoutingMode::SplitLocalPeer => if has_secondary {
                Ok(RouteAction::Split { peer_to_secondary: true })
            } else if session_mode == SessionMode::Peer {
                Ok(RouteAction::Split { peer_to_secondary: false })
            } else {
                Err(RoutingError::MissingSecondarySink)
            },
        },
{
    match routing {
        OutputRoutingMode::Off => Ok(RouteAction::WriteNothing),
        OutputRoutingMode::LocalOnly => Ok(RouteAction::LocalToPrimary),
        OutputRoutingMode::MixToPrimary => Ok(RouteAction::MixToPrimary),
        OutputRoutingMode::SplitLocalPeer => {
            if has_secondary {
                Ok(RouteAction::Split { peer_to_secondary: true })
            } else {
                match session_mode {
                    SessionMode::Peer => Ok(RouteAction::Split { peer_to_secondary: false }),
                    _ => Err(RoutingError::MissingSecondarySink),
                }
            }
        },
    }
}

/// Whether the local output is the raw capture rather than the processed
/// frame: when a live device is fed and processed monitoring is off.
pub fn local_output_is_raw_capture(config: &OutputConfig) -> (r: bool)
    ensures
        r == (config.backend == OutputBackend::VirtualStub && !config.monitor_processed_output),
{
    match config.backend {
        OutputBackend::VirtualStub => !config.monitor_processed_output,
        _ => false,
    }
}

/// Whether capture and transport both come from one simulated scene: mock
/// audio together with the mock transport.
pub fn uses_integrated_mock_scene(config: &NodeConfig) -> (r: bool)
    ensures
        r == (config.audio.backend == AudioBackend::Mock && config.node.transport_backend
            == TransportBackend::Mock),
{
    match (config.audio.backend, config.node.transport_backend) {
        (AudioBackend::Mock, TransportBackend::Mock) => true,
        _ => false,
    }
}

/// `<stem>.wav` under the base directory.
pub fn default_debug_wav_path(base_dir: &str, stem: &str) -> (r: String)
    ensures
        r@ == spec_path_join(base_dir@, stem@ + ".wav"@),
{
    let mut file_name = stem.to_owned();
    file_name.append(".wav");
    path_join(base_dir, file_name.as_str())
}

/// The stems of the debug WAV dumps, in recording order.
pub open spec fn spec_debug_wav_stems() -> Seq<Seq<char>> {
    seq!["capture_raw"@, "local_raw"@, "peer_raw"@, "peer_aligned"@, "output"@]
}

/// The header row of the metrics dump.
pub const METRICS_HEADER: &'static str = "sequence\tcoarse_delay_ms\tdrift_ppm\tcoherence\tlocal_vad\tpeer_vad\tfrozen\tloss_rate\tinput_rms\toutput_rms\testimated_crosstalk_rms\tclip_events\tprocessing_time_us";

/// The files a debug recorder opens: the dump directory is created when
/// anything is dumped; with WAV dumps, one file per stem under it; with
/// metrics, `metrics.tsv` under it.
pub struct DebugDumpPlan {
    pub create_dump_dir: bool,
    pub wav_paths: Vec<String>,
    pub metrics_path: Option<String>,
}

/// Plans the debug dumps of a config (see `DebugDumpPlan`).
pub fn debug_dump_plan(debug: &DebugConfig) -> (r: DebugDumpPlan)
    ensures
        r.create_dump_dir == (debug.dump_wav || debug.dump_metrics),
        views(r.wav_paths@) == if debug.dump_wav {
            spec_debug_wav_stems().map_values(
                |stem: Seq<char>| spec_path_join(debug.dump_dir@, stem + ".wav"@),
            )
        } else {
            Seq::empty()
        },
        match r.metrics_path {
            Some(p) => debug.dump_metrics && p@ == spec_path_join(
                debug.dump_dir@,
                "metrics.tsv"@,
            ),
            None => !debug.dump_metrics,
        },
{
    let mut wav_paths: Vec<String> = Vec::new();
    if debug.dump_wav {
        let dir = debug.dump_dir.as_str();
        wav_paths.push(default_debug_wav_path(dir, "capture_raw"));
        wav_paths.push(default_debug_wav_path(dir, "local_raw"));
        wav_paths.push(default_debug_wav_path(dir, "peer_raw"));
        wav_paths.push(default_debug_wav_path(dir, "peer_aligned"));
        wav_paths.push(default_debug_wav_path(dir, "output"));
        assert(views(wav_paths@) =~= spec_debug_wav_stems().map_values(
            |stem: Seq<char>| spec_path_join(debug.dump_dir@, stem + ".wav"@),
        ));
    } else {
        assert(views(wav_paths@) =~= Seq::<Seq<char>>::empty());
    }
    let metrics_path = if debug.dump_metrics {
        Some(path_join(debug.dump_dir.as_str(), "metrics.tsv"))
    } else {
        None
    };
    DebugDumpPlan {
        create_dump_dir: debug.dump_wav || debug.dump_metrics,
        wav_paths,
        metrics_path,
    }
}

} // verus!
