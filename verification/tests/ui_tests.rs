use ek_dual_mic::config::NodeConfig;
use ek_dual_mic::import::{ConfigImportConflict, ConfigImportPreview, ConfigImportResult};
use ek_dual_mic::model::{AudioBackend, AudioDeviceInfo, OutputBackend, TransportBackend};
use ek_dual_mic::ui::{
    apply_runtime_text_fields, device_change_feedback, load_failure_feedback, load_feedback, presets_with_current, save_feedback,
    start_feedback, RuntimeTextFields, backend_label_audio, backend_label_output, backend_label_transport, capture_selection_enabled,
    config_mode_summary, config_mode_warning_kind, device_family_hint, format_device_label,
    import_preview_action, import_summary, join, live_monitor_same_device_warning, localized,
    normalized_device_field, normalized_socket_field, prepend_font_names,
    render_selection_enabled, selected_device_text, socket_host_with_port,
    transport_selection_enabled, windows_cjk_font_candidates, AddressForm, ConfigModeWarning,
    ImportPreviewAction, MainTab, MetricHistory, MetricsPanelSize, UiLanguage,
    METRIC_HISTORY_LIMIT,
};

fn strings(items: &[&str]) -> Vec<String> {
    items.iter().map(|s| s.to_string()).collect()
}

#[test]
fn device_family_hint_matches_headset_style_names() {
    assert_eq!(
        device_family_hint("Microphone (PRO X 2 LIGHTSPEED)").as_deref(),
        Some("pro x 2 lightspeed")
    );
    assert_eq!(
        device_family_hint("扬声器 (PRO X 2 LIGHTSPEED)").as_deref(),
        Some("pro x 2 lightspeed")
    );
}

#[test]
fn device_family_hint_ignores_blank_and_default_names() {
    assert_eq!(device_family_hint("   "), None);
    assert_eq!(device_family_hint(" Default "), None);
    assert_eq!(device_family_hint("USB Mic").as_deref(), Some("usb mic"));
    assert_eq!(device_family_hint("Mic ( )"), None);
    assert_eq!(device_family_hint("Mic (open").as_deref(), Some("mic (open"));
}

#[test]
fn record_snapshot_trims_metric_history() {
    let mut history: MetricHistory<u64> = MetricHistory::new();

    for sequence in 0..(METRIC_HISTORY_LIMIT as u64 + 32) {
        history.record_snapshot(sequence);
    }

    assert_eq!(history.len(), METRIC_HISTORY_LIMIT);
    assert_eq!(history.latest().copied(), Some(METRIC_HISTORY_LIMIT as u64 + 31));
    assert_eq!(history.oldest().copied(), Some(32));
    history.clear();
    assert_eq!(history.len(), 0);
    assert_eq!(history.latest(), None);
}

#[test]
fn metrics_panel_size_defaults_to_small_four_up_layout() {
    let size = MetricsPanelSize::default();
    let layout = size.layout();

    assert_eq!(layout.panel_columns, 4);
    assert_eq!(layout.stat_columns, 4);
    assert_eq!(size, MetricsPanelSize::Compact);
}

#[test]
fn metrics_layouts_shrink_columns_as_panels_grow() {
    let medium = MetricsPanelSize::Medium.layout();
    assert_eq!((medium.stat_columns, medium.panel_columns), (4, 2));
    assert_eq!(medium.chart_height, 132);
    let large = MetricsPanelSize::Large.layout();
    assert_eq!((large.stat_columns, large.panel_columns), (2, 1));
    assert_eq!(large.progress_bar_height, 22);
}

#[test]
fn ui_language_defaults_to_chinese_and_translates_core_labels() {
    let language = UiLanguage::default();

    assert_eq!(language, UiLanguage::Chinese);
    assert_eq!(localized(language, "Start", "启动"), "启动");
    assert_eq!(localized(UiLanguage::Chinese, "Language", "语言"), "语言");
    assert_eq!(MetricsPanelSize::Compact.label(UiLanguage::Chinese), "小");
}

#[test]
fn labels_follow_language() {
    assert_eq!(localized(UiLanguage::English, "Start", "启动"), "Start");
    assert_eq!(UiLanguage::English.label(), "English");
    assert_eq!(UiLanguage::Chinese.label(), "中文");
    assert_eq!(MainTab::default(), MainTab::Metrics);
    assert_eq!(MainTab::RecordingTest.label(UiLanguage::English), "Recording Test");
    assert_eq!(MainTab::Metrics.label(UiLanguage::Chinese), "指标");
    assert_eq!(MetricsPanelSize::Large.label(UiLanguage::English), "Large");
}

#[test]
fn device_labels_and_backend_names() {
    let device = AudioDeviceInfo { id: "id".to_owned(), name: "Mic".to_owned(), is_default: true };
    assert_eq!(format_device_label(&device), "Mic [default]");
    let other = AudioDeviceInfo { id: "id2".to_owned(), name: "Line".to_owned(), is_default: false };
    assert_eq!(format_device_label(&other), "Line");
    assert_eq!(backend_label_audio(AudioBackend::Wasapi), "wasapi");
    assert_eq!(backend_label_transport(TransportBackend::Mock), "mock");
    assert_eq!(backend_label_output(OutputBackend::WavDump), "wav_dump");
    assert_eq!(backend_label_output(OutputBackend::VirtualStub), "virtual_stub");
}

#[test]
fn socket_fields_keep_or_borrow_ports() {
    assert_eq!(socket_host_with_port("10.0.0.2", Some(38002), 38001), "10.0.0.2:38002");
    assert_eq!(socket_host_with_port("10.0.0.2", None, 38001), "10.0.0.2:38001");
    assert_eq!(normalized_socket_field("  ", AddressForm::Other, Some(1)), "");
    assert_eq!(
        normalized_socket_field(" 10.0.0.3 ", AddressForm::IpAddress, Some(38001)),
        "10.0.0.3:38001"
    );
    assert_eq!(normalized_socket_field("10.0.0.3", AddressForm::IpAddress, None), "10.0.0.3");
    assert_eq!(
        normalized_socket_field(" 10.0.0.3:5 ", AddressForm::SocketAddress, Some(38001)),
        "10.0.0.3:5"
    );
    assert_eq!(normalized_device_field("  Mic  "), "Mic");
}

#[test]
fn selection_flags_follow_loaded_backends() {
    assert!(!capture_selection_enabled(Some(AudioBackend::Mock)));
    assert!(capture_selection_enabled(None));
    assert!(!transport_selection_enabled(Some(TransportBackend::Mock)));
    assert!(transport_selection_enabled(Some(TransportBackend::Udp)));
    assert!(!render_selection_enabled(Some(OutputBackend::Null)));
    assert!(!render_selection_enabled(Some(OutputBackend::WavDump)));
    assert!(render_selection_enabled(Some(OutputBackend::VirtualStub)));
    assert_eq!(selected_device_text(UiLanguage::English, " "), "Select a device");
    assert_eq!(selected_device_text(UiLanguage::Chinese, "Mic"), "Mic");
}

#[test]
fn live_monitor_warning_needs_same_family_on_live_devices() {
    let live_in = Some(AudioBackend::Wasapi);
    let live_out = Some(OutputBackend::VirtualStub);
    assert!(live_monitor_same_device_warning(
        live_in,
        live_out,
        "Microphone (PRO X)",
        "Speakers (pro x)"
    ));
    assert!(!live_monitor_same_device_warning(
        live_in,
        live_out,
        "Microphone (PRO X)",
        "Speakers (Other)"
    ));
    assert!(!live_monitor_same_device_warning(
        Some(AudioBackend::Mock),
        live_out,
        "Microphone (PRO X)",
        "Speakers (PRO X)"
    ));
    assert!(!live_monitor_same_device_warning(live_in, live_out, "default", "default"));
}

#[test]
fn config_mode_summary_and_warning() {
    let mut config = NodeConfig::default();
    assert_eq!(
        config_mode_summary(&config),
        "node=node-a, listen=0.0.0.0:38001, peer=127.0.0.1:38002, audio=wasapi, transport=udp, output=virtual_stub"
    );
    assert_eq!(config_mode_warning_kind(&config), None);
    config.output.backend = OutputBackend::Null;
    assert_eq!(config_mode_warning_kind(&config), Some(ConfigModeWarning::NoLiveOutput));
    config.node.transport_backend = TransportBackend::Mock;
    assert_eq!(config_mode_warning_kind(&config), Some(ConfigModeWarning::MockTransport));
    config.audio.backend = AudioBackend::Mock;
    let warning = config_mode_warning_kind(&config).expect("mock audio warns");
    assert_eq!(warning, ConfigModeWarning::MockAudio);
    assert_eq!(
        warning.message(UiLanguage::English),
        "Current config uses mock audio input. Live microphone signal is ignored."
    );
}

#[test]
fn prepend_font_names_keeps_preferred_order_without_duplicates() {
    let mut family = strings(&["b", "x"]);
    prepend_font_names(&mut family, &strings(&["a", "b", "c"]));
    assert_eq!(family, strings(&["a", "c", "b", "x"]));
}

#[test]
fn cjk_font_candidates_list_regular_and_bold_files() {
    let regular = windows_cjk_font_candidates("/fonts", false);
    assert_eq!(regular.len(), 8);
    assert_eq!(regular[0], "/fonts/NotoSansSC-VF.ttf");
    let bold = windows_cjk_font_candidates("/fonts", true);
    assert_eq!(bold.len(), 6);
    assert_eq!(bold[0], "/fonts/msyhbd.ttc");
}

fn preview(discovered: &[&str], conflicts: usize) -> ConfigImportPreview {
    ConfigImportPreview {
        source_dir: "dir".to_owned(),
        discovered_files: strings(discovered),
        skipped_duplicates: Vec::new(),
        conflicts: (0..conflicts)
            .map(|_| ConfigImportConflict {
                source_name: "a.toml".to_owned(),
                existing_path: "configs/a.toml".to_owned(),
                suggested_path: "configs/a-1.toml".to_owned(),
            })
            .collect(),
        importable_paths: Vec::new(),
    }
}

#[test]
fn import_preview_action_depends_on_findings() {
    assert_eq!(import_preview_action(&preview(&[], 0)), ImportPreviewAction::NothingFound);
    assert_eq!(
        import_preview_action(&preview(&["a.toml"], 0)),
        ImportPreviewAction::ImportWithoutRename
    );
    assert_eq!(
        import_preview_action(&preview(&["a.toml"], 1)),
        ImportPreviewAction::ConfirmConflicts
    );
}

#[test]
fn import_summary_lists_each_outcome() {
    let result = ConfigImportResult {
        imported_paths: strings(&["configs/a.toml", "configs/b-1.toml"]),
        skipped_duplicates: strings(&["c.toml"]),
        skipped_conflicts: Vec::new(),
        renamed_imports: vec![("configs/b.toml".to_owned(), "configs/b-1.toml".to_owned())],
    };
    assert_eq!(
        import_summary(&result, UiLanguage::English),
        "Imported configs/a.toml, configs/b-1.toml | Skipped duplicates c.toml | Renamed conflicts configs/b.toml -> configs/b-1.toml"
    );
    let empty = ConfigImportResult {
        imported_paths: Vec::new(),
        skipped_duplicates: Vec::new(),
        skipped_conflicts: Vec::new(),
        renamed_imports: Vec::new(),
    };
    assert_eq!(import_summary(&empty, UiLanguage::Chinese), "没有导入新的配置文件");
    assert_eq!(join(&strings(&["x", "y", "z"]), "-"), "x-y-z");
    assert_eq!(join(&Vec::new(), "-"), "");
}

#[test]
fn apply_runtime_text_fields_normalizes_and_reports_changes() {
    let mut config = NodeConfig::default();
    let fields = RuntimeTextFields {
        listen_addr: " 0.0.0.0:38001 ".to_owned(),
        listen_form: AddressForm::SocketAddress,
        peer_addr: "192.168.1.22".to_owned(),
        peer_form: AddressForm::IpAddress,
        input_device: "  USB Mic ".to_owned(),
        target_device: "Processed Mic".to_owned(),
        monitor_processed_output: true,
    };
    let changed = apply_runtime_text_fields(&mut config, &fields, Some(38001), Some(38002));
    assert!(changed);
    assert_eq!(config.node.listen_addr, "0.0.0.0:38001");
    assert_eq!(config.node.peer_addr, "192.168.1.22:38002");
    assert_eq!(config.audio.input_device, "USB Mic");
    let again = apply_runtime_text_fields(&mut config, &fields, Some(38001), Some(38002));
    assert!(!again);
}

#[test]
fn feedback_messages_follow_outcome() {
    assert_eq!(save_feedback(UiLanguage::English, true, true), "Runtime fields saved; runtime reload requested");
    assert_eq!(save_feedback(UiLanguage::English, false, false), "Runtime fields already matched the config");
    assert_eq!(save_feedback(UiLanguage::Chinese, true, false), "运行时字段已保存");
    assert_eq!(
        start_feedback(UiLanguage::English, false),
        "Runtime will use the devices and network fields already stored in this config"
    );
    assert_eq!(device_change_feedback(UiLanguage::English, true, false), None);
    assert_eq!(
        device_change_feedback(UiLanguage::English, false, true),
        Some("Device selection applied to config")
    );
}

#[test]
fn presets_list_current_config_first_when_missing() {
    let presets = strings(&["configs/master.toml", "configs/peer.toml"]);
    assert_eq!(
        presets_with_current(presets.clone(), "configs/node-a.toml"),
        strings(&["configs/node-a.toml", "configs/master.toml", "configs/peer.toml"])
    );
    assert_eq!(presets_with_current(presets.clone(), "configs/peer.toml"), presets);
    assert_eq!(presets_with_current(presets.clone(), ""), presets);
}

#[test]
fn load_feedback_texts_follow_reload_outcome() {
    let (feedback, status) = load_feedback(UiLanguage::English, "configs/peer.toml", None);
    assert_eq!(feedback, "Config loaded from configs/peer.toml");
    assert_eq!(status, "Config loaded: configs/peer.toml");
    let (feedback, status) = load_feedback(UiLanguage::English, "configs/peer.toml", Some(true));
    assert_eq!(feedback, "Config loaded from configs/peer.toml; runtime reload requested");
    assert_eq!(status, "Reload requested");
    let (feedback, status) = load_feedback(UiLanguage::Chinese, "configs/peer.toml", Some(false));
    assert_eq!(feedback, "已从以下路径加载配置： configs/peer.toml");
    assert_eq!(status, "重新加载请求失败");
}

#[test]
fn load_failure_feedback_repeats_details() {
    let (feedback, status) = load_failure_feedback(UiLanguage::English, "missing file");
    assert_eq!(feedback, "Config load failed: missing file");
    assert_eq!(status, feedback);
}
