use ek_dual_mic::catalog::{
    discover_config_presets, discover_config_presets_from, embedded_config_contents,
    embedded_config_preset_names, merge_embedded_presets, next_available_config_path,
    split_numeric_suffix, MASTER_PRESET, PEER_PRESET,
};
use ek_dual_mic::config::{validate_config, ConfigError, NodeConfig};
use ek_dual_mic::import::{
    existing_config_catalog, import_candidate, import_config_directory,
    preview_import_config_directory, storage_file_path, ConfigCatalog,
};
use ek_dual_mic::model::{NodeRole, OutputRoutingMode, SessionMode, TransportBackend};
use ek_dual_mic::workspace::{
    app_base_dir_from_search_roots, config_path_candidates, config_text, normalize_relative_paths,
    prepare_loaded_config,
    resolve_config_path, workspace_root_from_search_roots,
};

fn strings(items: &[&str]) -> Vec<String> {
    items.iter().map(|s| s.to_string()).collect()
}

fn expect_error(result: Result<(), ConfigError>) -> String {
    match result {
        Ok(()) => panic!("config should have been refused"),
        Err(error) => error.message(),
    }
}

#[test]
fn discover_config_presets_uses_embedded_list_without_workspace() {
    let presets = embedded_config_preset_names();
    assert!(presets.contains(&"configs/master.toml".to_owned()));
    assert!(presets.contains(&"configs/peer.toml".to_owned()));
}

#[test]
fn next_available_config_path_increments_numeric_suffix_without_nesting() {
    let existing = strings(&["configs/node-a.toml", "configs/node-a-1.toml"]);
    let candidate = next_available_config_path("configs/node-a.toml", &existing);
    assert_eq!(candidate, "configs/node-a-2.toml");

    let candidate = next_available_config_path("configs/node-a-1.toml", &existing);
    assert_eq!(candidate, "configs/node-a-2.toml");
}

#[test]
fn preview_import_config_directory_detects_duplicates_and_conflicts() {
    let base = MASTER_PRESET.to_owned();
    let different = "[node]\nname = \"incoming-master\"\nsession_mode = \"master_slave\"\nrole = \"master\"\n\n[output]\nrouting = \"mix_to_primary\"\n".to_owned();
    let catalog = existing_config_catalog(&vec![("master.toml".to_owned(), base.clone())]);
    let candidates = vec![
        import_candidate("copy.toml".to_owned(), base),
        import_candidate("master.toml".to_owned(), different),
    ];

    let preview = preview_import_config_directory("incoming".to_owned(), &catalog, candidates);

    assert_eq!(preview.skipped_duplicates, vec!["copy.toml"]);
    assert_eq!(preview.conflicts.len(), 1);
    assert_eq!(preview.conflicts[0].existing_path, "configs/master.toml");
    assert_eq!(preview.conflicts[0].suggested_path, "configs/master-1.toml");
}

#[test]
fn validate_config_rejects_invalid_udp_socket_addresses() {
    let mut config = NodeConfig::default();
    config.node.transport_backend = TransportBackend::Udp;
    config.node.listen_addr = "not-an-endpoint".to_owned();

    // "not-an-endpoint" does not parse as an IP:port, so it has no port.
    let message = expect_error(validate_config(&config, None, Some(38002)));
    assert!(
        message.contains("node.listen_addr must be a valid IP:port"),
        "unexpected error: {message}"
    );
}

#[test]
fn validate_config_accepts_explicit_udp_ip_addresses() {
    let mut config = NodeConfig::default();
    config.node.transport_backend = TransportBackend::Udp;
    config.node.listen_addr = "0.0.0.0:38001".to_owned();
    config.node.peer_addr = "192.168.1.22:38001".to_owned();

    assert!(validate_config(&config, Some(38001), Some(38001)).is_ok());
}

#[test]
fn validate_config_rejects_invalid_anti_phase_settings() {
    let mut config = NodeConfig::default();
    config.cancel.anti_phase_smoothing = 1.0f32.to_bits();

    let message = expect_error(validate_config(&config, Some(38001), Some(38002)));
    assert!(
        message.contains("cancel.anti_phase_smoothing must be in [0, 1)"),
        "unexpected error: {message}"
    );
}

#[test]
fn validate_config_rejects_invalid_role_for_session_mode() {
    let mut config = NodeConfig::default();
    config.node.session_mode = SessionMode::MasterSlave;
    config.node.role = NodeRole::Peer;

    let message = expect_error(validate_config(&config, Some(38001), Some(38002)));
    assert!(
        message.contains("master_slave mode only allows role=master or role=slave"),
        "unexpected error: {message}"
    );
}

#[test]
fn validate_config_rejects_invalid_routing_for_peer_mode() {
    let mut config = NodeConfig::default();
    config.node.session_mode = SessionMode::Peer;
    config.node.role = NodeRole::Peer;
    config.output.routing = OutputRoutingMode::MixToPrimary;

    let message = expect_error(validate_config(&config, Some(38001), Some(38002)));
    assert!(
        message.contains("peer mode only allows output.routing = local_only"),
        "unexpected error: {message}"
    );
}

#[test]
fn default_config_validates() {
    assert!(validate_config(&NodeConfig::default(), Some(38001), Some(38002)).is_ok());
}

#[test]
fn validate_config_reports_each_error_message() {
    let mut config = NodeConfig::default();
    assert_eq!(
        expect_error(validate_config(&config, Some(0), Some(38002))),
        "node.listen_addr must use a non-zero port"
    );
    assert_eq!(
        expect_error(validate_config(&config, Some(38001), None)),
        "node.peer_addr must be a valid IP:port for udp transport, got `127.0.0.1:38002`"
    );
    assert_eq!(
        expect_error(validate_config(&config, Some(38001), Some(0))),
        "node.peer_addr must use a non-zero port"
    );
    config.audio.sample_rate = 44_100;
    assert_eq!(
        expect_error(validate_config(&config, Some(38001), Some(38002))),
        "sample_rate must stay at 48000, got 44100"
    );
    config.audio.sample_rate = 48_000;
    config.audio.channels = 2;
    assert_eq!(
        expect_error(validate_config(&config, Some(38001), Some(38002))),
        "channels must stay at 1, got 2"
    );
    config.audio.channels = 1;
    config.audio.frame_ms = 20;
    assert_eq!(
        expect_error(validate_config(&config, Some(38001), Some(38002))),
        "frame_ms must stay at 10, got 20"
    );
    config.audio.frame_ms = 10;
    config.cancel.filter_length = 0;
    assert_eq!(
        expect_error(validate_config(&config, Some(38001), Some(38002))),
        "cancel.filter_length must be > 0"
    );
    config.cancel.filter_length = 1536;
    config.cancel.anti_phase_max_gain = (-0.5f32).to_bits();
    assert_eq!(
        expect_error(validate_config(&config, Some(38001), Some(38002))),
        "cancel.anti_phase_max_gain must be >= 0"
    );
}

#[test]
fn validate_config_skips_address_checks_for_mock_transport() {
    let mut config = NodeConfig::default();
    config.node.transport_backend = TransportBackend::Mock;
    assert!(validate_config(&config, None, None).is_ok());
}

#[test]
fn validate_config_checks_master_slave_routing() {
    let mut config = NodeConfig::default();
    config.node.session_mode = SessionMode::MasterSlave;
    config.node.role = NodeRole::Master;
    config.output.routing = OutputRoutingMode::LocalOnly;
    assert_eq!(
        expect_error(validate_config(&config, Some(38001), Some(38002))),
        "master mode only allows output.routing = mix_to_primary or split_local_peer"
    );
    config.output.routing = OutputRoutingMode::MixToPrimary;
    assert!(validate_config(&config, Some(38001), Some(38002)).is_ok());

    config.node.role = NodeRole::Slave;
    assert_eq!(
        expect_error(validate_config(&config, Some(38001), Some(38002))),
        "slave mode only allows output.routing = local_only or off"
    );
    config.output.routing = OutputRoutingMode::Off;
    assert!(validate_config(&config, Some(38001), Some(38002)).is_ok());

    config.node.session_mode = SessionMode::Both;
    assert_eq!(
        expect_error(validate_config(&config, Some(38001), Some(38002))),
        "peer/both mode only allows role=peer"
    );
}

#[test]
fn split_numeric_suffix_separates_trailing_number() {
    assert_eq!(split_numeric_suffix("node-a-12"), ("node-a", Some(12)));
    assert_eq!(split_numeric_suffix("node-a"), ("node-a", None));
    assert_eq!(split_numeric_suffix("node"), ("node", None));
    assert_eq!(split_numeric_suffix("node-"), ("node-", None));
}

#[test]
fn next_available_config_path_skips_every_taken_index() {
    let existing = strings(&[
        "configs/peer.toml",
        "configs/peer-1.toml",
        "configs/peer-2.toml",
        "configs/peer-4.toml",
    ]);
    assert_eq!(
        next_available_config_path("configs/peer.toml", &existing),
        "configs/peer-3.toml"
    );
    assert_eq!(
        next_available_config_path("incoming/peer-3.toml", &existing),
        "configs/peer-5.toml"
    );
    assert_eq!(next_available_config_path("notes", &[]), "configs/notes-1");
}

#[test]
fn embedded_presets_resolve_by_path_or_name() {
    assert_eq!(embedded_config_contents("configs/master.toml"), Some(MASTER_PRESET));
    assert_eq!(embedded_config_contents("peer.toml"), Some(PEER_PRESET));
    assert_eq!(embedded_config_contents("/srv/app/configs/peer.toml"), Some(PEER_PRESET));
    assert_eq!(embedded_config_contents("configs/unknown.toml"), None);
}

#[test]
fn discover_config_presets_merges_workspace_and_embedded() {
    let found = discover_config_presets(Some(strings(&["b.toml", "notes.txt", "master.toml"])));
    assert_eq!(
        found,
        strings(&[
            "configs/b.toml",
            "configs/master.toml",
            "configs/peer.toml",
            "configs/slave.toml"
        ])
    );
    assert_eq!(discover_config_presets(None), embedded_config_preset_names());
    assert_eq!(
        discover_config_presets_from(&strings(&["z.toml", "a.toml", "a.txt"])),
        strings(&["configs/a.toml", "configs/z.toml"])
    );
}

#[test]
fn merge_embedded_presets_adds_missing_once_and_sorts() {
    let mut presets = strings(&["configs/zeta.toml", "configs/peer.toml"]);
    merge_embedded_presets(&mut presets);
    assert_eq!(
        presets,
        strings(&[
            "configs/master.toml",
            "configs/peer.toml",
            "configs/slave.toml",
            "configs/zeta.toml"
        ])
    );
}

#[test]
fn existing_catalog_prefers_stored_files_over_presets() {
    let catalog = existing_config_catalog(&vec![
        ("master.toml".to_owned(), "stored master".to_owned()),
        ("extra.toml".to_owned(), "first".to_owned()),
        ("extra.toml".to_owned(), "second".to_owned()),
    ]);
    let lookup = |catalog: &ConfigCatalog, path: &str| -> Option<String> {
        catalog
            .paths
            .iter()
            .position(|p| p == path)
            .map(|i| catalog.contents[i].clone())
    };
    assert_eq!(catalog.paths.len(), 4);
    assert_eq!(lookup(&catalog, "configs/master.toml").as_deref(), Some("stored master"));
    assert_eq!(lookup(&catalog, "configs/extra.toml").as_deref(), Some("second"));
    assert_eq!(lookup(&catalog, "configs/peer.toml").as_deref(), Some(PEER_PRESET));
    assert!(lookup(&catalog, "configs/slave.toml").is_some());
}

#[test]
fn import_with_rename_follows_preview() {
    let catalog = existing_config_catalog(&vec![]);
    let candidates = || {
        vec![
            import_candidate("slave.toml".to_owned(), "new slave".to_owned()),
            import_candidate("copy.toml".to_owned(), MASTER_PRESET.to_owned()),
            import_candidate("fresh.toml".to_owned(), "fresh".to_owned()),
            import_candidate("again.toml".to_owned(), "fresh".to_owned()),
        ]
    };
    let preview = preview_import_config_directory("dir".to_owned(), &catalog, candidates());
    assert_eq!(preview.discovered_files, strings(&["again.toml", "copy.toml", "fresh.toml", "slave.toml"]));
    assert_eq!(preview.skipped_duplicates, strings(&["copy.toml", "fresh.toml"]));
    assert_eq!(preview.importable_paths, strings(&["configs/again.toml"]));
    assert_eq!(preview.conflicts.len(), 1);
    assert_eq!(preview.conflicts[0].source_name, "slave.toml");
    assert_eq!(preview.conflicts[0].suggested_path, "configs/slave-1.toml");

    let plan = import_config_directory(&catalog, candidates(), true);
    assert_eq!(plan.result.imported_paths, strings(&["configs/again.toml", "configs/slave-1.toml"]));
    assert_eq!(plan.result.skipped_duplicates, preview.skipped_duplicates);
    assert!(plan.result.skipped_conflicts.is_empty());
    assert_eq!(
        plan.result.renamed_imports,
        vec![("configs/slave.toml".to_owned(), "configs/slave-1.toml".to_owned())]
    );
    assert_eq!(plan.written_contents, strings(&["fresh", "new slave"]));

    let plan = import_config_directory(&catalog, candidates(), false);
    assert_eq!(plan.result.imported_paths, strings(&["configs/again.toml"]));
    assert_eq!(plan.result.skipped_conflicts, strings(&["slave.toml"]));
    assert!(plan.result.renamed_imports.is_empty());
}

#[test]
fn storage_file_path_uses_file_name_under_storage_dir() {
    assert_eq!(
        storage_file_path("/data/configs", "configs/peer-2.toml").as_deref(),
        Some("/data/configs/peer-2.toml")
    );
    assert_eq!(storage_file_path("/data/configs", ".."), None);
}

#[test]
fn resolve_config_path_prefers_first_existing_candidate() {
    let roots = strings(&["/work/app/bin"]);
    let candidates = config_path_candidates("configs/peer.toml", &roots);
    assert_eq!(
        candidates,
        strings(&[
            "configs/peer.toml",
            "/work/app/bin/configs/peer.toml",
            "/work/app/configs/peer.toml",
            "/work/configs/peer.toml",
            "/configs/peer.toml"
        ])
    );
    let existing = strings(&["/work/configs/peer.toml", "/configs/peer.toml"]);
    assert_eq!(
        resolve_config_path("configs/peer.toml", &roots, &existing, "/base"),
        "/work/configs/peer.toml"
    );
    assert_eq!(
        resolve_config_path("configs/peer.toml", &roots, &[], "/base"),
        "/base/configs/peer.toml"
    );
    assert_eq!(
        resolve_config_path("/abs/peer.toml", &roots, &existing, "/base"),
        "/abs/peer.toml"
    );
}

#[test]
fn workspace_root_and_base_dir_follow_search_order() {
    let roots = strings(&["/w/crates/app", "/other"]);
    assert_eq!(
        workspace_root_from_search_roots(&roots, &strings(&["/w", "/other"])).as_deref(),
        Some("/w")
    );
    assert_eq!(workspace_root_from_search_roots(&roots, &[]), None);
    assert_eq!(
        app_base_dir_from_search_roots(None, Some("/exe".to_owned()), &roots),
        "/exe"
    );
    assert_eq!(app_base_dir_from_search_roots(None, None, &roots), "/w/crates/app");
    assert_eq!(app_base_dir_from_search_roots(None, None, &[]), ".");
    assert_eq!(
        app_base_dir_from_search_roots(Some("/w".to_owned()), Some("/exe".to_owned()), &roots),
        "/w"
    );
}

#[test]
fn config_text_falls_back_to_embedded_preset() {
    assert_eq!(
        config_text(Some("on disk".to_owned()), "configs/peer.toml", "/x/configs/peer.toml")
            .as_deref(),
        Some("on disk")
    );
    assert_eq!(
        config_text(None, "configs/peer.toml", "/x/configs/peer.toml").as_deref(),
        Some(PEER_PRESET)
    );
    assert_eq!(config_text(None, "configs/none.toml", "/x/none.toml"), None);
}

#[test]
fn normalize_relative_paths_anchors_relative_dump_locations() {
    let mut config = NodeConfig::default();
    config.output.wav_path = "artifacts/out.wav".to_owned();
    config.debug.dump_dir = "/abs/dumps".to_owned();
    normalize_relative_paths(&mut config, "/base");
    assert_eq!(config.output.wav_path, "/base/artifacts/out.wav");
    assert_eq!(config.debug.dump_dir, "/abs/dumps");
}

#[test]
fn discover_config_presets_offers_each_preset_once() {
    let found = discover_config_presets(Some(strings(&["peer.toml", "slave.toml", "a.toml"])));
    assert_eq!(
        found,
        strings(&[
            "configs/a.toml",
            "configs/master.toml",
            "configs/peer.toml",
            "configs/slave.toml"
        ])
    );
}

#[test]
fn resolving_a_resolved_path_keeps_it() {
    let roots = strings(&["/work/app/bin"]);
    let existing = strings(&["/work/configs/peer.toml"]);
    let once = resolve_config_path("configs/peer.toml", &roots, &existing, "/base");
    assert_eq!(once, "/work/configs/peer.toml");
    assert_eq!(resolve_config_path(&once, &roots, &existing, "/base"), once);
    let fallback = resolve_config_path("configs/other.toml", &roots, &existing, "/base");
    assert_eq!(fallback, "/base/configs/other.toml");
    assert_eq!(resolve_config_path(&fallback, &roots, &existing, "/base"), fallback);
}

#[test]
fn second_import_of_same_directory_skips_everything() {
    let candidates = || {
        vec![
            import_candidate("slave.toml".to_owned(), "new slave".to_owned()),
            import_candidate("fresh.toml".to_owned(), "fresh".to_owned()),
        ]
    };
    let first = import_config_directory(&existing_config_catalog(&vec![]), candidates(), true);
    assert_eq!(first.result.imported_paths, strings(&["configs/fresh.toml", "configs/slave-1.toml"]));
    let after = existing_config_catalog(&vec![
        ("fresh.toml".to_owned(), "fresh".to_owned()),
        ("slave-1.toml".to_owned(), "new slave".to_owned()),
    ]);
    let again = import_config_directory(&after, candidates(), true);
    assert!(again.result.imported_paths.is_empty());
    assert!(again.result.renamed_imports.is_empty());
    assert!(again.result.skipped_conflicts.is_empty());
    assert_eq!(again.result.skipped_duplicates, strings(&["fresh.toml", "slave.toml"]));
}

#[test]
fn prepare_loaded_config_anchors_paths_then_validates() {
    let mut config = NodeConfig::default();
    config.output.wav_path = "artifacts/out.wav".to_owned();
    let ready = prepare_loaded_config(config.clone(), "/base", Some(38001), Some(38002))
        .expect("a valid config");
    assert_eq!(ready.output.wav_path, "/base/artifacts/out.wav");
    assert_eq!(ready.node.listen_addr, config.node.listen_addr);
    config.audio.sample_rate = 44_100;
    let expected = validate_config(&config, Some(38001), Some(38002)).expect_err("bad rate");
    let error = prepare_loaded_config(config, "/base", Some(38001), Some(38002)).expect_err("bad rate");
    assert_eq!(error.message(), expected.message());
}
