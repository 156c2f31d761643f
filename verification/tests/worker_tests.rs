use ek_dual_mic::ui::UiLanguage;
use ek_dual_mic::worker::{
    recovering_status, running_status, sleep_slice_ms, WorkerState, DEFAULT_FRAME_SLEEP_MS,
    WORKER_RECOVERY_DELAY_MS, WORKER_SLEEP_SLICE_MS,
};

#[test]
fn worker_counts_failures_and_resets_on_start() {
    let mut state = WorkerState::new("configs/a.toml".to_owned());
    assert!(!state.runtime_active);
    assert_eq!(state.frame_sleep_ms, DEFAULT_FRAME_SLEEP_MS);
    assert_eq!(
        state.config_load_failed("missing"),
        "attempt 1: failed to load config `configs/a.toml`: missing"
    );
    state.config_loaded(10);
    assert_eq!(
        state.runtime_build_failed("no device"),
        "attempt 2: failed to build runtime: no device"
    );
    state.runtime_built();
    assert!(state.runtime_active);
    assert_eq!(state.recovery_attempt, 0);
    assert_eq!(state.step_failed("socket"), "attempt 1: runtime step failed: socket");
    assert!(!state.runtime_active);
}

#[test]
fn worker_reload_switches_config_and_drops_runtime() {
    let mut state = WorkerState::new("configs/a.toml".to_owned());
    state.runtime_built();
    let (shutdown, message) = state.reload("configs/b.toml".to_owned());
    assert!(shutdown);
    assert_eq!(message, "reloading runtime from configs/b.toml");
    assert_eq!(state.config_path, "configs/b.toml");
    assert!(!state.runtime_active);
    let (shutdown, _) = state.reload("configs/c.toml".to_owned());
    assert!(!shutdown);
}

#[test]
fn worker_sleeps_in_slices_and_reports_status() {
    assert_eq!(sleep_slice_ms(WORKER_RECOVERY_DELAY_MS), WORKER_SLEEP_SLICE_MS);
    assert_eq!(sleep_slice_ms(20), 20);
    assert_eq!(running_status(UiLanguage::English, 42), "Running: frame 42");
    assert_eq!(running_status(UiLanguage::Chinese, 7), "运行中: 帧 7");
    assert_eq!(recovering_status(UiLanguage::English, "x"), "Recovering: x");
}
