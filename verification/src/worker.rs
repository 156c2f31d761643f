use crate::text::{decimal, spec_decimal};
use crate::ui::{localized, UiLanguage};
use vstd::prelude::*;

verus! {

/// How long the worker waits before trying again after a failure, in
/// milliseconds.
pub const WORKER_RECOVERY_DELAY_MS: u64 = 750;

/// The longest single sleep of the worker, so that a stop request is seen
/// promptly, in milliseconds.
pub const WORKER_SLEEP_SLICE_MS: u64 = 50;

/// The pause between frames before a config has said otherwise, in
/// milliseconds.
pub const DEFAULT_FRAME_SLEEP_MS: u64 = 10;

/// The decisions of the runtime worker: which config it runs, whether a
/// runtime is up, how long to pause between frames, and how many recovery
/// attempts have been made since the last successful start. The caller
/// loads configs, builds and steps runtimes, sleeps and sends events; it
/// reports each outcome here and acts on what comes back.
pub struct WorkerState {
    pub config_path: String,
    pub runtime_active: bool,
    pub frame_sleep_ms: u64,
    pub recovery_attempt: u64,
}

impl WorkerState {
    /// A worker for `config_path` with no runtime yet.
    pub fn new(config_path: String) -> (r: Self)
        ensures
            r.config_path@ == config_path@,
            !r.runtime_active,
            r.frame_sleep_ms == DEFAULT_FRAME_SLEEP_MS,
            r.recovery_attempt == 0,
    {
        WorkerState {
            config_path,
            runtime_active: false,
            frame_sleep_ms: DEFAULT_FRAME_SLEEP_MS,
            recovery_attempt: 0,
        }
    }

    /// A reload request: the worker switches to `config_path` and drops its
    /// runtime. Returns whether a running runtime must be shut down, and
    /// the recovery message to send.
    pub fn reload(&mut self, config_path: String) -> (r: (bool, String))
        ensures
            final(self).config_path@ == config_path@,
            !final(self).runtime_active,
            final(self).frame_sleep_ms == old(self).frame_sleep_ms,
            final(self).recovery_attempt == old(self).recovery_attempt,
            r.0 == old(self).runtime_active,
            r.1@ == "reloading runtime from "@ + config_path@,
    {
        let was_active = self.runtime_active;
        let mut message = "reloading runtime from ".to_owned();
        message.append(config_path.as_str());
        self.config_path = config_path;
        self.runtime_active = false;
        (was_active, message)
    }

    /// The config loaded: frames are paced by its frame length.
    pub fn config_loaded(&mut self, frame_ms: u32)
        ensures
            final(self).frame_sleep_ms == frame_ms,
            final(self).config_path@ == old(self).config_path@,
            final(self).runtime_active == old(self).runtime_active,
            final(self).recovery_attempt == old(self).recovery_attempt,
    {
        self.frame_sleep_ms = frame_ms as u64;
    }

    /// A runtime came up: it is stepped from now on, and the recovery count
    /// starts over.
    pub fn runtime_built(&mut self)
        ensures
            final(self).runtime_active,
            final(self).recovery_attempt == 0,
            final(self).config_path@ == old(self).config_path@,
            final(self).frame_sleep_ms == old(self).frame_sleep_ms,
    {
        self.runtime_active = true;
        self.recovery_attempt = 0;
    }

    /// The runtime could not be built: one more attempt is counted; returns
    /// the recovery message. The caller then waits the recovery delay.
    pub fn runtime_build_failed(&mut self, details: &str) -> (r: String)
        requires
            old(self).recovery_attempt < u64::MAX,
        ensures
            final(self).recovery_attempt == old(self).recovery_attempt + 1,
            !final(self).runtime_active,
            final(self).config_path@ == old(self).config_path@,
            final(self).frame_sleep_ms == old(self).frame_sleep_ms,
            r@ == "attempt "@ + spec_decimal(final(self).recovery_attempt as nat)
                + ": failed to build runtime: "@ + details@,
    {
        self.recovery_attempt = self.recovery_attempt + 1;
        self.runtime_active = false;
        let mut message = "attempt ".to_owned();
        let n = decimal(self.recovery_attempt as u128);
        message.append(n.as_str());
        message.append(": failed to build runtime: ");
        message.append(details);
        message
    }

    /// The config could not be loaded: one more attempt is counted; returns
    /// the recovery message, which names the config. The caller then waits
    /// the recovery delay.
    pub fn config_load_failed(&mut self, details: &str) -> (r: String)
        requires
            old(self).recovery_attempt < u64::MAX,
        ensures
            final(self).recovery_attempt == old(self).recovery_attempt + 1,
            !final(self).runtime_active,
            final(self).config_path@ == old(self).config_path@,
            final(self).frame_sleep_ms == old(self).frame_sleep_ms,
            r@ == "attempt "@ + spec_decimal(final(self).recovery_attempt as nat)
                + ": failed to load config `"@ + old(self).config_path@ + "`: "@ + details@,
    {
        self.recovery_attempt = self.recovery_attempt + 1;
        self.runtime_active = false;
        let mut message = "attempt ".to_owned();
        let n = decimal(self.recovery_attempt as u128);
        message.append(n.as_str());
        message.append(": failed to load config `");
        message.append(self.config_path.as_str());
        message.append("`: ");
        message.append(details);
        message
    }

    /// A step of the runtime failed: one more attempt is counted and the
    /// runtime is dropped (the caller shuts it down); returns the recovery
    /// message. The caller then waits the recovery delay.
    pub fn step_failed(&mut self, details: &str) -> (r: String)
        requires
            old(self).recovery_attempt < u64::MAX,
        ensures
            final(self).recovery_attempt == old(self).recovery_attempt + 1,
            !final(self).runtime_active,
            final(self).config_path@ == old(self).config_path@,
            final(self).frame_sleep_ms == old(self).frame_sleep_ms,
            r@ == "attempt "@ + spec_decimal(final(self).recovery_attempt as nat)
                + ": runtime step failed: "@ + details@,
    {
        self.recovery_attempt = self.recovery_attempt + 1;
        self.runtime_active = false;
        let mut message = "attempt ".to_owned();
        let n = decimal(self.recovery_attempt as u128);
        message.append(n.as_str());
        message.append(": runtime step failed: ");
        message.append(details);
        message
    }
}

/// The next pause of a sleep that may be cut short: what is left, but no
/// more than one slice.
pub fn sleep_slice_ms(remaining_ms: u64) -> (r: u64)
    ensures
        r == if remaining_ms < WORKER_SLEEP_SLICE_MS {
            remaining_ms
        } else {
            WORKER_SLEEP_SLICE_MS
        },
{
    if remaining_ms < WORKER_SLEEP_SLICE_MS {
        remaining_ms
    } else {
        WORKER_SLEEP_SLICE_MS
    }
}

/// The status line while frames come in: `Running: frame <n>`.
pub fn running_status(language: UiLanguage, sequence: u64) -> (r: String)
    ensures
        r@ == match language {
            UiLanguage::English => "Running"@,
            UiLanguage::Chinese => "运行中"@,
        } + ": "@ + match language {
            UiLanguage::English => "frame"@,
            UiLanguage::Chinese => "帧"@,
        } + " "@ + spec_decimal(sequence as nat),
{
    let mut s = localized(language, "Running", "运行中").to_owned();
    s.append(": ");
    s.append(localized(language, "frame", "帧"));
    s.append(" ");
    let n = decimal(sequence as u128);
    s.append(n.as_str());
    s
}

/// The status line while the worker recovers: `Recovering: <message>`.
pub fn recovering_status(language: UiLanguage, message: &str) -> (r: String)
    ensures
        r@ == match language {
            UiLanguage::English => "Recovering"@,
            UiLanguage::Chinese => "恢复中"@,
        } + ": "@ + message@,
{
    let mut s = localized(language, "Recovering", "恢复中").to_owned();
    s.append(": ");
    s.append(message);
    s
}

} // verus!
