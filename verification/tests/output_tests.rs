use ek_dual_mic::config::{DebugConfig, NodeConfig, OutputConfig};
use ek_dual_mic::model::{AudioBackend, AudioFrame, OutputBackend, OutputRoutingMode, SessionMode, TransportBackend};
use ek_dual_mic::output::{
    bytes_per_sample, debug_dump_plan, default_debug_wav_path, describe_format,
    list_capture_devices, list_render_devices, local_output_is_raw_capture, output_sink_kind,
    output_sink_plan, pcm_capture_format_from_bits, pcm_format_from_bits, resampled_frame_count,
    route_frames, uses_integrated_mock_scene, DeviceProbeError, FormatError, FormatSpec,
    NullOutputSink, OutputSinkKind, RouteAction, RoutingError, SampleFormat, SubFormat,
    VirtualMicStub, METRICS_HEADER, WAVE_FORMAT_EXTENSIBLE, WAVE_FORMAT_IEEE_FLOAT,
    WAVE_FORMAT_PCM,
};

#[test]
fn device_listing_is_unavailable_off_windows() {
    let capture = list_capture_devices().err().expect("capture listing fails");
    assert_eq!(capture, DeviceProbeError::CaptureUnsupported);
    assert_eq!(capture.message(), "capture device enumeration is only available on Windows");
    let render = list_render_devices().err().expect("render listing fails");
    assert_eq!(render.message(), "render device enumeration is only available on Windows");
}

#[test]
fn pcm_formats_follow_bit_depth() {
    assert_eq!(pcm_format_from_bits(16), Ok(SampleFormat::Pcm16));
    assert_eq!(pcm_format_from_bits(24), Ok(SampleFormat::Pcm24));
    assert_eq!(pcm_capture_format_from_bits(32), Ok(SampleFormat::Pcm32));
    assert_eq!(pcm_capture_format_from_bits(8), Err(FormatError::UnsupportedPcmBitDepth(8)));
}

#[test]
fn describe_format_reads_tags_and_sub_formats() {
    assert_eq!(
        describe_format(2, 44_100, 8, WAVE_FORMAT_IEEE_FLOAT, 32, SubFormat::Other),
        Ok(FormatSpec { channels: 2, sample_rate: 44_100, block_align: 8, sample_format: SampleFormat::Float32 })
    );
    assert_eq!(
        describe_format(0, 0, 0, WAVE_FORMAT_PCM, 16, SubFormat::Other),
        Ok(FormatSpec { channels: 1, sample_rate: 1, block_align: 1, sample_format: SampleFormat::Pcm16 })
    );
    assert_eq!(
        describe_format(2, 48_000, 6, WAVE_FORMAT_EXTENSIBLE, 24, SubFormat::Pcm).map(|f| f.sample_format),
        Ok(SampleFormat::Pcm24)
    );
    assert_eq!(
        describe_format(2, 48_000, 6, WAVE_FORMAT_EXTENSIBLE, 24, SubFormat::Other),
        Err(FormatError::UnsupportedSubFormat)
    );
    assert_eq!(
        describe_format(2, 48_000, 6, 7, 24, SubFormat::Pcm),
        Err(FormatError::UnsupportedFormatTag(7))
    );
}

#[test]
fn sample_layout_arithmetic() {
    let spec = FormatSpec { channels: 2, sample_rate: 48_000, block_align: 8, sample_format: SampleFormat::Float32 };
    assert_eq!(bytes_per_sample(spec), 4);
    let odd = FormatSpec { channels: 4, sample_rate: 48_000, block_align: 2, sample_format: SampleFormat::Pcm16 };
    assert_eq!(bytes_per_sample(odd), 1);
    assert_eq!(resampled_frame_count(480, 44_100, 48_000), 441);
    assert_eq!(resampled_frame_count(1, 8_000, 48_000), 1);
    assert_eq!(resampled_frame_count(480, 48_000, 48_000), 480);
    assert_eq!(resampled_frame_count(0, 44_100, 48_000), 0);
    assert_eq!(resampled_frame_count(1, 96_000, 0), 1);
    assert_eq!(resampled_frame_count(2, 8_000, 48_000), 1);
    assert_eq!(resampled_frame_count(480, 96_000, 48_000), 960);
}

#[test]
fn sinks_and_routing_plan() {
    let mut null = NullOutputSink;
    null.write_frame(&AudioFrame::zero(1));
    let mut stub = VirtualMicStub::new("Processed Mic".to_owned());
    stub.write_frame(&AudioFrame::zero(2));
    assert_eq!(stub.device_name, "Processed Mic");

    let mut output = OutputConfig::default();
    output.routing = OutputRoutingMode::SplitLocalPeer;
    output.secondary_target_device = "Peer Mic".to_owned();
    let plan = output_sink_plan(&output);
    assert!(matches!(plan.primary, Some(OutputSinkKind::VirtualDevice { ref device_name }) if device_name == "Processed Mic"));
    assert!(matches!(plan.secondary, Some(OutputSinkKind::VirtualDevice { ref device_name }) if device_name == "Peer Mic"));
    output.routing = OutputRoutingMode::Off;
    let plan = output_sink_plan(&output);
    assert!(plan.primary.is_none() && plan.secondary.is_none());
    output.backend = OutputBackend::WavDump;
    output.wav_path = "out.wav".to_owned();
    assert!(matches!(output_sink_kind(&output), OutputSinkKind::WavFile { ref path } if path == "out.wav"));
    output.backend = OutputBackend::Null;
    assert!(matches!(output_sink_kind(&output), OutputSinkKind::Null));
}

#[test]
fn route_frames_by_routing_mode() {
    assert_eq!(route_frames(OutputRoutingMode::Off, false, SessionMode::Peer), Ok(RouteAction::WriteNothing));
    assert_eq!(route_frames(OutputRoutingMode::LocalOnly, false, SessionMode::Peer), Ok(RouteAction::LocalToPrimary));
    assert_eq!(route_frames(OutputRoutingMode::MixToPrimary, false, SessionMode::Both), Ok(RouteAction::MixToPrimary));
    assert_eq!(
        route_frames(OutputRoutingMode::SplitLocalPeer, true, SessionMode::MasterSlave),
        Ok(RouteAction::Split { peer_to_secondary: true })
    );
    assert_eq!(
        route_frames(OutputRoutingMode::SplitLocalPeer, false, SessionMode::Peer),
        Ok(RouteAction::Split { peer_to_secondary: false })
    );
    let error = route_frames(OutputRoutingMode::SplitLocalPeer, false, SessionMode::Both)
        .expect_err("split needs a secondary sink");
    assert_eq!(error, RoutingError::MissingSecondarySink);
    assert_eq!(error.message(), "split_local_peer routing requires a secondary output sink");
}

#[test]
fn runtime_wiring_decisions() {
    let mut config = NodeConfig::default();
    assert!(!uses_integrated_mock_scene(&config));
    config.audio.backend = AudioBackend::Mock;
    config.node.transport_backend = TransportBackend::Mock;
    assert!(uses_integrated_mock_scene(&config));
    config.output.monitor_processed_output = false;
    assert!(local_output_is_raw_capture(&config.output));
    config.output.monitor_processed_output = true;
    assert!(!local_output_is_raw_capture(&config.output));
}

#[test]
fn debug_dump_plan_names_each_file() {
    let mut debug = DebugConfig::default();
    debug.dump_dir = "/dumps".to_owned();
    debug.dump_wav = true;
    debug.dump_metrics = true;
    let plan = debug_dump_plan(&debug);
    assert!(plan.create_dump_dir);
    assert_eq!(
        plan.wav_paths,
        vec![
            "/dumps/capture_raw.wav",
            "/dumps/local_raw.wav",
            "/dumps/peer_raw.wav",
            "/dumps/peer_aligned.wav",
            "/dumps/output.wav"
        ]
    );
    assert_eq!(plan.metrics_path.as_deref(), Some("/dumps/metrics.tsv"));
    assert!(METRICS_HEADER.starts_with("sequence\tcoarse_delay_ms"));
    debug.dump_wav = false;
    debug.dump_metrics = false;
    let plan = debug_dump_plan(&debug);
    assert!(!plan.create_dump_dir && plan.wav_paths.is_empty() && plan.metrics_path.is_none());
    assert_eq!(default_debug_wav_path("/d", "x"), "/d/x.wav");
}
