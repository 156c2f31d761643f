use crate::catalog::{path_join, spec_path_join};
use crate::config::NodeConfig;
use crate::history::{keep_last, BoundedHistory};
use crate::import::{ConfigImportPreview, ConfigImportResult};
use crate::model::{AudioBackend, AudioDeviceInfo, OutputBackend, TransportBackend};
use crate::order::views;
use crate::text::{
    decimal, eq_ignore_ascii_case, spec_ascii_lowercase, spec_decimal, spec_split_once,
    spec_trim, split_once, to_ascii_lowercase, trim,
};
use vstd::prelude::*;

verus! {

/// The language of the operator interface.
#[derive(Clone, Copy, Debug, PartialEq, Eq, Structural)]
pub enum UiLanguage {
    English,
    Chinese,
}

impl Default for UiLanguage {
    /// The interface starts in Chinese.
    fn default() -> (r: Self)
        ensures
            r == UiLanguage::Chinese,
    {
        UiLanguage::Chinese
    }
}

/// `english` or `chinese`, whichever the language asks for.
pub fn localized<'a>(language: UiLanguage, english: &'a str, chinese: &'a str) -> (r: &'a str)
    ensures
        r@ == match language {
            UiLanguage::English => english@,
            UiLanguage::Chinese => chinese@,
        },
{
    match language {
        UiLanguage::English => english,
        UiLanguage::Chinese => chinese,
    }
}

impl UiLanguage {
    /// The language's own name, as shown in the language picker.
    pub fn label(self) -> (r: &'static str)
        ensures
            r@ == match self {
                UiLanguage::English => "English"@,
                UiLanguage::Chinese => "中文"@,
            },
    {
        match self {
            UiLanguage::English => "English",
            UiLanguage::Chinese => "中文",
        }
    }
}

/// The tabs of the main window.
#[derive(Clone, Copy, Debug, PartialEq, Eq, Structural)]
pub enum MainTab {
    Metrics,
    RecordingTest,
}

impl Default for MainTab {
    /// The window opens on the metrics tab.
    fn default() -> (r: Self)
        ensures
            r == MainTab::Metrics,
    {
        MainTab::Metrics
    }
}

impl MainTab {
    /// The tab's title in the given language.
    pub fn label(self, language: UiLanguage) -> (r: &'static str)
        ensures
            r@ == match (self, language) {
                (MainTab::Metrics, UiLanguage::English) => "Metrics"@,
                (MainTab::Metrics, UiLanguage::Chinese) => "指标"@,
                (MainTab::RecordingTest, UiLanguage::English) => "Recording Test"@,
                (MainTab::RecordingTest, UiLanguage::Chinese) => "录制测试"@,
            },
    {
        match self {
            MainTab::Metrics => localized(language, "Metrics", "指标"),
            MainTab::RecordingTest => localized(language, "Recording Test", "录制测试"),
        }
    }
}

/// How large the metric panels are drawn.
#[derive(Clone, Copy, Debug, PartialEq, Eq, Structural)]
pub enum MetricsPanelSize {
    Compact,
    Medium,
    Large,
}

impl Default for MetricsPanelSize {
    /// Panels start compact.
    fn default() -> (r: Self)
        ensures
            r == MetricsPanelSize::Compact,
    {
        MetricsPanelSize::Compact
    }
}

/// The grid of the metrics dashboard: columns of stat cards and of
/// panels, and the heights (in points) of cards, charts and progress bars.
#[derive(Clone, Copy, Debug, PartialEq, Eq, Structural)]
pub struct MetricsLayout {
    pub stat_columns: usize,
    pub panel_columns: usize,
    pub stat_card_height: u32,
    pub chart_height: u32,
    pub progress_bar_height: u32,
}

impl MetricsPanelSize {
    /// The size's name in the given language.
    pub fn label(self, language: UiLanguage) -> (r: &'static str)
        ensures
            r@ == match (self, language) {
                (MetricsPanelSize::Compact, UiLanguage::English) => "Small"@,
                (MetricsPanelSize::Compact, UiLanguage::Chinese) => "小"@,
                (MetricsPanelSize::Medium, UiLanguage::English) => "Medium"@,
                (MetricsPanelSize::Medium, UiLanguage::Chinese) => "中"@,
                (MetricsPanelSize::Large, UiLanguage::English) => "Large"@,
                (MetricsPanelSize::Large, UiLanguage::Chinese) => "大"@,
            },
    {
        match self {
            MetricsPanelSize::Compact => localized(language, "Small", "小"),
            MetricsPanelSize::Medium => localized(language, "Medium", "中"),
            MetricsPanelSize::Large => localized(language, "Large", "大"),
        }
    }

    /// The dashboard grid for this size: compact is four stat cards and
    /// four panels across, medium four and two, large two and one; cards,
    /// charts and bars grow with the size.
    pub fn layout(self) -> (r: MetricsLayout)
        ensures
            r == match self {
                MetricsPanelSize::Compact => MetricsLayout {
                    stat_columns: 4,
                    panel_columns: 4,
                    stat_card_height: 72,
                    chart_height: 92,
                    progress_bar_height: 14,
                },
                MetricsPanelSize::Medium => MetricsLayout {
                    stat_columns: 4,
                    panel_columns: 2,
                    stat_card_height: 82,
                    chart_height: 132,
                    progress_bar_height: 18,
                },
                MetricsPanelSize::Large => MetricsLayout {
                    stat_columns: 2,
                    panel_columns: 1,
                    stat_card_height: 92,
                    chart_height: 172,
                    progress_bar_height: 22,
                },
            },
    {
        match self {
            MetricsPanelSize::Compact => MetricsLayout {
                stat_columns: 4,
                panel_columns: 4,
                stat_card_height: 72,
                chart_height: 92,
                progress_bar_height: 14,
            },
            MetricsPanelSize::Medium => MetricsLayout {
                stat_columns: 4,
                panel_columns: 2,
                stat_card_height: 82,
                chart_height: 132,
                progress_bar_height: 18,
            },
            MetricsPanelSize::Large => MetricsLayout {
                stat_columns: 2,
                panel_columns: 1,
                stat_card_height: 92,
                chart_height: 172,
                progress_bar_height: 22,
            },
        }
    }
}

/// The text between the first `(` and the next `)` of a device name, or
/// the whole name when there is no such pair.
pub open spec fn family_part(name: Seq<char>) -> Seq<char> {
    match spec_split_once(name, '(') {
        Some((_, tail)) => match spec_split_once(tail, ')') {
            Some((family, _)) => family,
            None => name,
        },
        None => name,
    }
}

/// The device family a device name points to, lower-cased: the part in
/// brackets (`Microphone (PRO X 2)` gives `pro x 2`) or the trimmed name;
/// none for an empty name, for `default` in any case, or when the part is
/// empty.
pub open spec fn spec_device_family_hint(value: Seq<char>) -> Option<Seq<char>> {
    let trimmed = spec_trim(value);
    if trimmed.len() == 0 || spec_ascii_lowercase(trimmed) == spec_ascii_lowercase("default"@) {
        None
    } else {
        let hint = spec_ascii_lowercase(spec_trim(family_part(trimmed)));
        if hint.len() == 0 {
            None
        } else {
            Some(hint)
        }
    }
}

/// The device family a device name points to (see
/// `spec_device_family_hint`).
pub fn device_family_hint(value: &str) -> (r: Option<String>)
    ensures
        match r {
            Some(h) => spec_device_family_hint(value@) == Some(h@),
            None => spec_device_family_hint(value@) is None,
        },
{
    let trimmed = trim(value);
    if trimmed.unicode_len() == 0 || eq_ignore_ascii_case(trimmed, "default") {
        return None;
    }
    let family: &str = match split_once(trimmed, '(') {
        Some((_, tail)) => match split_once(tail, ')') {
            Some((family, _)) => family,
            None => trimmed,
        },
        None => trimmed,
    };
    let hint = to_ascii_lowercase(trim(family));
    if hint.unicode_len() == 0 {
        None
    } else {
        Some(hint)
    }
}

/// A device's name, marked ` [default]` when it is the default endpoint.
pub fn format_device_label(device: &AudioDeviceInfo) -> (r: String)
    ensures
        r@ == if device.is_default {
            device.name@ + " [default]"@
        } else {
            device.name@
        },
{
    if device.is_default {
        let mut label = device.name.clone();
        label.append(" [default]");
        label
    } else {
        device.name.clone()
    }
}

/// The config spelling of an audio backend.
pub open spec fn spec_audio_label(backend: AudioBackend) -> Seq<char> {
    match backend {
        AudioBackend::Wasapi => "wasapi"@,
        AudioBackend::Mock => "mock"@,
    }
}

/// The config spelling of a transport backend.
pub open spec fn spec_transport_label(backend: TransportBackend) -> Seq<char> {
    match backend {
        TransportBackend::Udp => "udp"@,
        TransportBackend::Mock => "mock"@,
    }
}

/// The config spelling of an output backend.
pub open spec fn spec_output_label(backend: OutputBackend) -> Seq<char> {
    match backend {
        OutputBackend::VirtualStub => "virtual_stub"@,
        OutputBackend::WavDump => "wav_dump"@,
        OutputBackend::Null => "null"@,
    }
}

/// The config spelling of an audio backend.
pub fn backend_label_audio(backend: AudioBackend) -> (r: &'static str)
    ensures
        r@ == spec_audio_label(backend),
{
    match backend {
        AudioBackend::Wasapi => "wasapi",
        AudioBackend::Mock => "mock",
    }
}

/// The config spelling of a transport backend.
pub fn backend_label_transport(backend: TransportBackend) -> (r: &'static str)
    ensures
        r@ == spec_transport_label(backend),
{
    match backend {
        TransportBackend::Udp => "udp",
        TransportBackend::Mock => "mock",
    }
}

/// The config spelling of an output backend.
pub fn backend_label_output(backend: OutputBackend) -> (r: &'static str)
    ensures
        r@ == spec_output_label(backend),
{
    match backend {
        OutputBackend::VirtualStub => "virtual_stub",
        OutputBackend::WavDump => "wav_dump",
        OutputBackend::Null => "null",
    }
}

/// `<host>:<port>`, keeping the port of the current address when it has
/// one (`current_port`) and taking `default_port` otherwise.
pub fn socket_host_with_port(host: &str, current_port: Option<u16>, default_port: u16) -> (r:
    String)
    ensures
        r@ == host@ + ":"@ + spec_decimal(
            match current_port {
                Some(p) => p as nat,
                None => default_port as nat,
            },
        ),
{
    let port: u16 = match current_port {
        Some(p) => p,
        None => default_port,
    };
    let mut text = host.to_owned();
    text.append(":");
    let digits = decimal(port as u128);
    text.append(digits.as_str());
    text
}

/// How an address field parses: as `ip:port`, as a bare IP address, or as
/// neither.
#[derive(Clone, Copy, Debug, PartialEq, Eq, Structural)]
pub enum AddressForm {
    SocketAddress,
    IpAddress,
    Other,
}

/// The value to store for an address field: empty when it is blank; the
/// trimmed text when it is a socket address; a bare IP given the port of
/// the stored address (`fallback_port`) when that has one; else the
/// trimmed text. `form` is how the trimmed text parses.
pub open spec fn spec_normalized_socket_field(
    value: Seq<char>,
    form: AddressForm,
    fallback_port: Option<u16>,
) -> Seq<char> {
    let trimmed = spec_trim(value);
    if trimmed.len() == 0 {
        Seq::empty()
    } else if form == AddressForm::IpAddress && fallback_port is Some {
        trimmed + ":"@ + spec_decimal(fallback_port->0 as nat)
    } else {
        trimmed
    }
}

/// The value to store for an address field (see
/// `spec_normalized_socket_field`).
pub fn normalized_socket_field(value: &str, form: AddressForm, fallback_port: Option<u16>) -> (r:
    String)
    ensures
        r@ == spec_normalized_socket_field(value@, form, fallback_port),
{
    let trimmed = trim(value);
    if trimmed.unicode_len() == 0 {
        return String::new();
    }
    match form {
        AddressForm::IpAddress => match fallback_port {
            Some(port) => socket_host_with_port(trimmed, Some(port), port),
            None => trimmed.to_owned(),
        },
        _ => trimmed.to_owned(),
    }
}

/// The value to store for a device field: the trimmed text.
pub fn normalized_device_field(value: &str) -> (r: String)
    ensures
        r@ == spec_trim(value@),
{
    trim(value).to_owned()
}

/// The text of a device picker: the selection, or a prompt when it is
/// blank.
pub fn selected_device_text(language: UiLanguage, value: &str) -> (r: String)
    ensures
        r@ == if spec_trim(value@).len() == 0 {
            match language {
                UiLanguage::English => "Select a device"@,
                UiLanguage::Chinese => "选择设备"@,
            }
        } else {
            value@
        },
{
    if trim(value).unicode_len() == 0 {
        localized(language, "Select a device", "选择设备").to_owned()
    } else {
        value.to_owned()
    }
}

/// Capture devices can be picked unless the loaded config uses mock audio.
pub fn capture_selection_enabled(loaded_audio_backend: Option<AudioBackend>) -> (r: bool)
    ensures
        r == (loaded_audio_backend != Some(AudioBackend::Mock)),
{
    match loaded_audio_backend {
        Some(AudioBackend::Mock) => false,
        _ => true,
    }
}

/// Network fields can be edited unless the loaded config uses the mock
/// transport.
pub fn transport_selection_enabled(loaded_transport_backend: Option<TransportBackend>) -> (r: bool)
    ensures
        r == (loaded_transport_backend != Some(TransportBackend::Mock)),
{
    match loaded_transport_backend {
        Some(TransportBackend::Mock) => false,
        _ => true,
    }
}

/// Render devices can be picked unless the loaded config writes to the
/// null sink or a WAV file.
pub fn render_selection_enabled(loaded_output_backend: Option<OutputBackend>) -> (r: bool)
    ensures
        r == !(loaded_output_backend == Some(OutputBackend::Null) || loaded_output_backend == Some(
            OutputBackend::WavDump,
        )),
{
    match loaded_output_backend {
        Some(OutputBackend::Null) => false,
        Some(OutputBackend::WavDump) => false,
        _ => true,
    }
}

/// Whether to warn that live monitoring plays back into the microphone's
/// own device: live capture, live output, and an input and output device
/// of the same family.
pub fn live_monitor_same_device_warning(
    loaded_audio_backend: Option<AudioBackend>,
    loaded_output_backend: Option<OutputBackend>,
    input_device: &str,
    target_device: &str,
) -> (r: bool)
    ensures
        r == (loaded_audio_backend == Some(AudioBackend::Wasapi) && loaded_output_backend == Some(
            OutputBackend::VirtualStub,
        ) && spec_device_family_hint(input_device@) is Some && spec_device_family_hint(
            input_device@,
        ) == spec_device_family_hint(target_device@)),
{
    let live_in = match loaded_audio_backend {
        Some(AudioBackend::Wasapi) => true,
        _ => false,
    };
    let live_out = match loaded_output_backend {
        Some(OutputBackend::VirtualStub) => true,
        _ => false,
    };
    if !live_in || !live_out {
        return false;
    }
    match (device_family_hint(input_device), device_family_hint(target_device)) {
        (Some(a), Some(b)) => crate::order::str_eq(a.as_str(), b.as_str()),
        _ => false,
    }
}

/// The one-line summary of a loaded config: node, addresses and backends.
pub open spec fn spec_config_mode_summary(config: NodeConfig) -> Seq<char> {
    "node="@ + config.node.name@ + ", listen="@ + config.node.listen_addr@ + ", peer="@
        + config.node.peer_addr@ + ", audio="@ + spec_audio_label(config.audio.backend)
        + ", transport="@ + spec_transport_label(config.node.transport_backend) + ", output="@
        + spec_output_label(config.output.backend)
}

/// The one-line summary of a loaded config (see
/// `spec_config_mode_summary`).
pub fn config_mode_summary(config: &NodeConfig) -> (r: String)
    ensures
        r@ == spec_config_mode_summary(*config),
{
    let mut s = "node=".to_owned();
    s.append(config.node.name.as_str());
    s.append(", listen=");
    s.append(config.node.listen_addr.as_str());
    s.append(", peer=");
    s.append(config.node.peer_addr.as_str());
    s.append(", audio=");
    s.append(backend_label_audio(config.audio.backend));
    s.append(", transport=");
    s.append(backend_label_transport(config.node.transport_backend));
    s.append(", output=");
    s.append(backend_label_output(config.output.backend));
    s
}

/// Which of a loaded config's settings makes live fields moot.
#[derive(Clone, Copy, Debug, PartialEq, Eq, Structural)]
pub enum ConfigModeWarning {
    MockAudio,
    MockTransport,
    NoLiveOutput,
}

/// The warning for a loaded config: mock audio first, then the mock
/// transport, then an output backend other than the live device.
pub fn config_mode_warning_kind(config: &NodeConfig) -> (r: Option<ConfigModeWarning>)
    ensures
        r == if config.audio.backend == AudioBackend::Mock {
            Some(ConfigModeWarning::MockAudio)
        } else if config.node.transport_backend == TransportBackend::Mock {
            Some(ConfigModeWarning::MockTransport)
        } else if config.output.backend != OutputBackend::VirtualStub {
            Some(ConfigModeWarning::NoLiveOutput)
        } else {
            None
        },
{
    if config.audio.backend == AudioBackend::Mock {
        Some(ConfigModeWarning::MockAudio)
    } else if config.node.transport_backend == TransportBackend::Mock {
        Some(ConfigModeWarning::MockTransport)
    } else if config.output.backend != OutputBackend::VirtualStub {
        Some(ConfigModeWarning::NoLiveOutput)
    } else {
        None
    }
}

impl ConfigModeWarning {
    /// The warning's text in the given language.
    pub fn message(self, language: UiLanguage) -> (r: &'static str)
        ensures
            r@ == match (self, language) {
                (ConfigModeWarning::MockAudio, UiLanguage::English) =>
                    "Current config uses mock audio input. Live microphone signal is ignored."@,
                (ConfigModeWarning::MockAudio, UiLanguage::Chinese) =>
                    "当前配置使用 mock 音频输入，真实麦克风信号会被忽略。"@,
                (ConfigModeWarning::MockTransport, UiLanguage::English) =>
                    "Current config uses mock transport. `listen_addr` and `peer_addr` are ignored."@,
                (ConfigModeWarning::MockTransport, UiLanguage::Chinese) =>
                    "当前配置使用 mock 传输，`listen_addr` 和 `peer_addr` 会被忽略。"@,
                (ConfigModeWarning::NoLiveOutput, UiLanguage::English) =>
                    "Current config does not write to a live output device. `target_device` is ignored in this mode."@,
                (ConfigModeWarning::NoLiveOutput, UiLanguage::Chinese) =>
                    "当前配置不会写入实时输出设备，`target_device` 在该模式下会被忽略。"@,
            },
    {
        match self {
            ConfigModeWarning::MockAudio => localized(
                language,
                "Current config uses mock audio input. Live microphone signal is ignored.",
                "当前配置使用 mock 音频输入，真实麦克风信号会被忽略。",
            ),
            ConfigModeWarning::MockTransport => localized(
                language,
                "Current config uses mock transport. `listen_addr` and `peer_addr` are ignored.",
                "当前配置使用 mock 传输，`listen_addr` 和 `peer_addr` 会被忽略。",
            ),
            ConfigModeWarning::NoLiveOutput => localized(
                language,
                "Current config does not write to a live output device. `target_device` is ignored in this mode.",
                "当前配置不会写入实时输出设备，`target_device` 在该模式下会被忽略。",
            ),
        }
    }
}

/// Adds the preferred font names in front of `target`, keeping their
/// order and leaving out those `target` already holds.
pub open spec fn spec_prepend_font_names(target: Seq<Seq<char>>, preferred: Seq<Seq<char>>) -> Seq<
    Seq<char>,
>
    decreases preferred.len(),
{
    if preferred.len() == 0 {
        target
    } else {
        let rest = preferred.drop_first();
        let after = spec_prepend_font_names(target, rest);
        if after.contains(preferred[0]) {
            after
        } else {
            seq![preferred[0]] + after
        }
    }
}

/// Puts the preferred font names in front of the family's list (see
/// `spec_prepend_font_names`).
pub fn prepend_font_names(target: &mut Vec<String>, preferred_names: &[String])
    ensures
        views(final(target)@) == spec_prepend_font_names(
            views(old(target)@),
            views(preferred_names@),
        ),
{
    let ghost t0 = views(target@);
    let ghost pref = views(preferred_names@);
    let mut i: usize = preferred_names.len();
    assert(pref.skip(i as int) =~= Seq::<Seq<char>>::empty());
    while i > 0
        invariant
            i <= preferred_names@.len(),
            pref == views(preferred_names@),
            views(target@) == spec_prepend_font_names(t0, pref.skip(i as int)),
        decreases i,
    {
        i = i - 1;
        proof {
            assert(pref.skip(i as int).drop_first() =~= pref.skip(i + 1));
            assert(pref.skip(i as int)[0] == preferred_names@[i as int]@);
        }
        if !crate::catalog::contains_string(target.as_slice(), &preferred_names[i]) {
            let ghost before = target@;
            target.insert(0, preferred_names[i].clone());
            assert(views(target@) =~= seq![preferred_names@[i as int]@] + views(before));
        }
    }
    assert(pref.skip(0) =~= pref);
}

/// The system fonts with Chinese glyphs to try, in order of preference.
pub open spec fn spec_cjk_font_names(bold: bool) -> Seq<Seq<char>> {
    if bold {
        seq![
            "msyhbd.ttc"@,
            "NotoSansSC-VF.ttf"@,
            "simhei.ttf"@,
            "simsunb.ttf"@,
            "msyh.ttc"@,
            "simsun.ttc"@,
        ]
    } else {
        seq![
            "NotoSansSC-VF.ttf"@,
            "msyh.ttc"@,
            "simhei.ttf"@,
            "simsun.ttc"@,
            "NotoSerifSC-VF.ttf"@,
            "simfang.ttf"@,
            "simkai.ttf"@,
            "simsunb.ttf"@,
        ]
    }
}

/// The font files to try under the fonts directory, in order (see
/// `spec_cjk_font_names`).
pub fn windows_cjk_font_candidates(fonts_dir: &str, bold: bool) -> (r: Vec<String>)
    ensures
        views(r@) == spec_cjk_font_names(bold).map_values(
            |name: Seq<char>| spec_path_join(fonts_dir@, name),
        ),
{
    let mut names: Vec<&'static str> = Vec::new();
    if bold {
        names.push("msyhbd.ttc");
        names.push("NotoSansSC-VF.ttf");
        names.push("simhei.ttf");
        names.push("simsunb.ttf");
        names.push("msyh.ttc");
        names.push("simsun.ttc");
    } else {
        names.push("NotoSansSC-VF.ttf");
        names.push("msyh.ttc");
        names.push("simhei.ttf");
        names.push("simsun.ttc");
        names.push("NotoSerifSC-VF.ttf");
        names.push("simfang.ttf");
        names.push("simkai.ttf");
        names.push("simsunb.ttf");
    }
    let ghost expected = spec_cjk_font_names(bold);
    assert(views(names@) =~= expected);
    let mut out: Vec<String> = Vec::new();
    let mut i: usize = 0;
    while i < names.len()
        invariant
            i <= names@.len(),
            views(names@) == expected,
            views(out@) == expected.take(i as int).map_values(
                |name: Seq<char>| spec_path_join(fonts_dir@, name),
            ),
        decreases names@.len() - i,
    {
        let joined = path_join(fonts_dir, names[i]);
        let ghost before = out@;
        out.push(joined);
        proof {
            assert(expected[i as int] == names@[i as int]@);
            assert(expected.take(i + 1).map_values(|name: Seq<char>| spec_path_join(fonts_dir@, name))
                =~= expected.take(i as int).map_values(
                |name: Seq<char>| spec_path_join(fonts_dir@, name),
            ).push(spec_path_join(fonts_dir@, expected[i as int])));
            assert(views(out@) =~= views(before).push(joined@));
        }
        i = i + 1;
    }
    assert(expected.take(i as int) =~= expected);
    out
}

/// How many runtime snapshots the dashboard keeps for its charts.
pub const METRIC_HISTORY_LIMIT: usize = 240;

/// The runtime snapshots shown on the dashboard: the most recent
/// `METRIC_HISTORY_LIMIT`, oldest first; the newest is the latest one.
pub struct MetricHistory<T> {
    history: BoundedHistory<T>,
}

impl<T> View for MetricHistory<T> {
    type V = Seq<T>;

    closed spec fn view(&self) -> Seq<T> {
        self.history@
    }
}

impl<T> MetricHistory<T> {
    /// Well-formedness: the history keeps `METRIC_HISTORY_LIMIT` entries.
    pub closed spec fn wf(&self) -> bool {
        &&& self.history.wf()
        &&& self.history.spec_limit() == METRIC_HISTORY_LIMIT
    }

    /// An empty history.
    pub fn new() -> (r: Self)
        ensures
            r.wf(),
            r@ == Seq::<T>::empty(),
    {
        MetricHistory { history: BoundedHistory::new(METRIC_HISTORY_LIMIT) }
    }

    /// Records a snapshot as the latest, dropping the oldest beyond the
    /// limit.
    pub fn record_snapshot(&mut self, snapshot: T)
        requires
            old(self).wf(),
        ensures
            final(self).wf(),
            final(self)@ == keep_last(old(self)@.push(snapshot), METRIC_HISTORY_LIMIT as nat),
            final(self)@.len() <= METRIC_HISTORY_LIMIT,
            final(self)@.last() == snapshot,
    {
        let _ = self.history.push(snapshot);
    }

    /// Number of snapshots held.
    pub fn len(&self) -> (n: usize)
        ensures
            n == self@.len(),
    {
        self.history.len()
    }

    /// The latest snapshot, if any.
    pub fn latest(&self) -> (r: Option<&T>)
        ensures
            match r {
                Some(x) => self@.len() > 0 && *x == self@.last(),
                None => self@.len() == 0,
            },
    {
        self.history.back()
    }

    /// The oldest snapshot held, if any.
    pub fn oldest(&self) -> (r: Option<&T>)
        ensures
            match r {
                Some(x) => self@.len() > 0 && *x == self@[0],
                None => self@.len() == 0,
            },
    {
        self.history.front()
    }

    /// The snapshot at `index`, counted from the oldest.
    pub fn get(&self, index: usize) -> (r: Option<&T>)
        ensures
            match r {
                Some(x) => index < self@.len() && *x == self@[index as int],
                None => index >= self@.len(),
            },
    {
        self.history.get(index)
    }

    /// Forgets every snapshot (a fresh start of the runtime).
    pub fn clear(&mut self)
        requires
            old(self).wf(),
        ensures
            final(self).wf(),
            final(self)@ == Seq::<T>::empty(),
    {
        self.history = BoundedHistory::new(METRIC_HISTORY_LIMIT);
    }
}

/// What the interface does once a folder import has been previewed.
#[derive(Clone, Copy, Debug, PartialEq, Eq, Structural)]
pub enum ImportPreviewAction {
    NothingFound,
    ImportWithoutRename,
    ConfirmConflicts,
}

/// After a preview: report that no config was found, import right away
/// when nothing conflicts, or ask about the conflicts.
pub fn import_preview_action(preview: &ConfigImportPreview) -> (r: ImportPreviewAction)
    ensures
        r == if preview.discovered_files@.len() == 0 {
            ImportPreviewAction::NothingFound
        } else if preview.conflicts@.len() == 0 {
            ImportPreviewAction::ImportWithoutRename
        } else {
            ImportPreviewAction::ConfirmConflicts
        },
{
    if preview.discovered_files.len() == 0 {
        ImportPreviewAction::NothingFound
    } else if preview.conflicts.len() == 0 {
        ImportPreviewAction::ImportWithoutRename
    } else {
        ImportPreviewAction::ConfirmConflicts
    }
}

/// The parts joined with `sep` between them.
pub open spec fn spec_join(parts: Seq<Seq<char>>, sep: Seq<char>) -> Seq<char>
    decreases parts.len(),
{
    if parts.len() == 0 {
        Seq::empty()
    } else if parts.len() == 1 {
        parts[0]
    } else {
        spec_join(parts.drop_last(), sep) + sep + parts.last()
    }
}

/// Joins the parts with `sep` between them (as `[String]::join`).
pub fn join(parts: &Vec<String>, sep: &str) -> (r: String)
    ensures
        r@ == spec_join(views(parts@), sep@),
{
    let ghost ps = views(parts@);
    let mut out = String::new();
    let mut i: usize = 0;
    assert(ps.take(0) =~= Seq::<Seq<char>>::empty());
    while i < parts.len()
        invariant
            i <= parts@.len(),
            ps == views(parts@),
            out@ == spec_join(ps.take(i as int), sep@),
        decreases parts@.len() - i,
    {
        proof {
            assert(ps.take(i + 1).drop_last() =~= ps.take(i as int));
            assert(ps.take(i + 1).last() == parts@[i as int]@);
        }
        if i > 0 {
            out.append(sep);
        } else {
            assert(ps.take(1)[0] == parts@[0]@);
        }
        out.append(parts[i].as_str());
        i = i + 1;
    }
    assert(ps.take(i as int) =~= ps);
    out
}

/// `from -> to` for each rename.
pub open spec fn spec_rename_texts(renamed: Seq<(Seq<char>, Seq<char>)>) -> Seq<Seq<char>> {
    renamed.map_values(|r: (Seq<char>, Seq<char>)| r.0 + " -> "@ + r.1)
}

/// `<label> <items joined with ", ">` when there are items, else nothing.
pub open spec fn labelled_part(label: Seq<char>, items: Seq<Seq<char>>) -> Seq<Seq<char>> {
    if items.len() == 0 {
        Seq::empty()
    } else {
        seq![label + " "@ + spec_join(items, ", "@)]
    }
}

/// The text of one of the four parts of an import summary.
pub open spec fn summary_label(language: UiLanguage, part: int) -> Seq<char> {
    match language {
        UiLanguage::English => if part == 0 {
            "Imported"@
        } else if part == 1 {
            "Skipped duplicates"@
        } else if part == 2 {
            "Renamed conflicts"@
        } else {
            "Skipped conflicts"@
        },
        UiLanguage::Chinese => if part == 0 {
            "已导入"@
        } else if part == 1 {
            "已跳过重复项"@
        } else if part == 2 {
            "已重命名冲突项"@
        } else {
            "已跳过冲突项"@
        },
    }
}

/// The summary of an import: imported paths, skipped duplicates, renames
/// and skipped conflicts, each part only when it has items, joined with
/// ` | `; a fixed sentence when there is none.
pub open spec fn spec_import_summary(
    result: (Seq<Seq<char>>, Seq<Seq<char>>, Seq<Seq<char>>, Seq<(Seq<char>, Seq<char>)>),
    language: UiLanguage,
) -> Seq<char> {
    let parts = labelled_part(summary_label(language, 0), result.0) + labelled_part(
        summary_label(language, 1),
        result.1,
    ) + labelled_part(summary_label(language, 2), spec_rename_texts(result.3)) + labelled_part(
        summary_label(language, 3),
        result.2,
    );
    if parts.len() == 0 {
        match language {
            UiLanguage::English => "No new configs were imported"@,
            UiLanguage::Chinese => "没有导入新的配置文件"@,
        }
    } else {
        spec_join(parts, " | "@)
    }
}

/// The summary of a result that holds only the items of one list: that
/// list's own label, a space, and its items joined with `, `. Imported
/// paths are labelled "Imported", skipped duplicates "Skipped duplicates",
/// renames (each `from -> to`) "Renamed conflicts" and skipped conflicts
/// "Skipped conflicts" (in Chinese 已导入, 已跳过重复项, 已重命名冲突项,
/// 已跳过冲突项).
pub proof fn lemma_import_summary_labels_each_list(
    items: Seq<Seq<char>>,
    renames: Seq<(Seq<char>, Seq<char>)>,
    language: UiLanguage,
)
    requires
        items.len() > 0,
        renames.len() > 0,
    ensures
        ({
            let none = Seq::<Seq<char>>::empty();
            let no_renames = Seq::<(Seq<char>, Seq<char>)>::empty();
            let english = language == UiLanguage::English;
            let listed = " "@ + spec_join(items, ", "@);
            &&& spec_import_summary((items, none, none, no_renames), language) == (if english {
                "Imported"@
            } else {
                "已导入"@
            }) + listed
            &&& spec_import_summary((none, items, none, no_renames), language) == (if english {
                "Skipped duplicates"@
            } else {
                "已跳过重复项"@
            }) + listed
            &&& spec_import_summary((none, none, items, no_renames), language) == (if english {
                "Skipped conflicts"@
            } else {
                "已跳过冲突项"@
            }) + listed
            &&& spec_import_summary((none, none, none, renames), language) == (if english {
                "Renamed conflicts"@
            } else {
                "已重命名冲突项"@
            }) + " "@ + spec_join(
                renames.map_values(|r: (Seq<char>, Seq<char>)| r.0 + " -> "@ + r.1),
                ", "@,
            )
        }),
{
    let none = Seq::<Seq<char>>::empty();
    let no_renames = Seq::<(Seq<char>, Seq<char>)>::empty();
    assert(labelled_part(summary_label(language, 0), none) =~= none);
    assert(spec_rename_texts(no_renames) =~= none);
    assert(spec_rename_texts(renames) =~= renames.map_values(
        |r: (Seq<char>, Seq<char>)| r.0 + " -> "@ + r.1,
    ));
    let a = labelled_part(summary_label(language, 0), items);
    assert(a + none + none + none =~= a);
    let b = labelled_part(summary_label(language, 1), items);
    assert(none + b + none + none =~= b);
    let c = labelled_part(summary_label(language, 3), items);
    assert(none + none + none + c =~= c);
    let d = labelled_part(summary_label(language, 2), spec_rename_texts(renames));
    assert(none + none + d + none =~= d);
}

/// The summary of a whole result is the summaries of its non-empty lists,
/// in the order imported, duplicates, renames, conflicts, joined with
/// ` | `; with every list empty it is the fixed no-import sentence.
pub proof fn lemma_import_summary_joins_lists(
    result: (Seq<Seq<char>>, Seq<Seq<char>>, Seq<Seq<char>>, Seq<(Seq<char>, Seq<char>)>),
    language: UiLanguage,
)
    ensures
        ({
            let none = Seq::<Seq<char>>::empty();
            let no_renames = Seq::<(Seq<char>, Seq<char>)>::empty();
            let one = |present: bool, text: Seq<char>|
                if present {
                    seq![text]
                } else {
                    Seq::<Seq<char>>::empty()
                };
            let parts = one(
                result.0.len() > 0,
                spec_import_summary((result.0, none, none, no_renames), language),
            ) + one(
                result.1.len() > 0,
                spec_import_summary((none, result.1, none, no_renames), language),
            ) + one(
                result.3.len() > 0,
                spec_import_summary((none, none, none, result.3), language),
            ) + one(
                result.2.len() > 0,
                spec_import_summary((none, none, result.2, no_renames), language),
            );
            spec_import_summary(result, language) == if parts.len() == 0 {
                if language == UiLanguage::English {
                    "No new configs were imported"@
                } else {
                    "没有导入新的配置文件"@
                }
            } else {
                spec_join(parts, " | "@)
            }
        }),
{
    let none = Seq::<Seq<char>>::empty();
    let no_renames = Seq::<(Seq<char>, Seq<char>)>::empty();
    assert(spec_rename_texts(no_renames) =~= none);
    assert(spec_rename_texts(result.3).len() == result.3.len());
    let l0 = labelled_part(summary_label(language, 0), result.0);
    let l1 = labelled_part(summary_label(language, 1), result.1);
    let l2 = labelled_part(summary_label(language, 2), spec_rename_texts(result.3));
    let l3 = labelled_part(summary_label(language, 3), result.2);
    assert(l0 + none + none + none =~= l0);
    assert(none + l1 + none + none =~= l1);
    assert(none + none + l2 + none =~= l2);
    assert(none + none + none + l3 =~= l3);
}

fn push_labelled(parts: &mut Vec<String>, label: &str, items: &Vec<String>)
    ensures
        views(final(parts)@) == views(old(parts)@) + labelled_part(label@, views(items@)),
{
    if items.len() > 0 {
        let mut part = label.to_owned();
        part.append(" ");
        let joined = join(items, ", ");
        part.append(joined.as_str());
        let ghost before = parts@;
        parts.push(part);
        assert(views(parts@) =~= views(before) + labelled_part(label@, views(items@)));
    } else {
        assert(views(parts@) =~= views(parts@) + labelled_part(label@, views(items@)));
    }
}

/// The summary of an import (see `spec_import_summary`).
pub fn import_summary(result: &ConfigImportResult, language: UiLanguage) -> (r: String)
    ensures
        r@ == spec_import_summary(result@, language),
{
    let mut renames: Vec<String> = Vec::new();
    let mut i: usize = 0;
    let ghost rs = views(result.renamed_imports@);
    while i < result.renamed_imports.len()
        invariant
            i <= result.renamed_imports@.len(),
            rs == views(result.renamed_imports@),
            views(renames@) == spec_rename_texts(rs.take(i as int)),
        decreases result.renamed_imports@.len() - i,
    {
        let mut text = result.renamed_imports[i].0.clone();
        text.append(" -> ");
        text.append(result.renamed_imports[i].1.as_str());
        let ghost before = renames@;
        renames.push(text);
        proof {
            assert(rs[i as int] == result.renamed_imports@[i as int]@);
            assert(spec_rename_texts(rs.take(i + 1)) =~= spec_rename_texts(rs.take(i as int)).push(
                rs[i as int].0 + " -> "@ + rs[i as int].1,
            ));
            assert(views(renames@) =~= views(before).push(text@));
        }
        i = i + 1;
    }
    assert(rs.take(i as int) =~= rs);
    let mut parts: Vec<String> = Vec::new();
    assert(views(parts@) =~= Seq::<Seq<char>>::empty());
    push_labelled(&mut parts, localized(language, "Imported", "已导入"), &result.imported_paths);
    push_labelled(
        &mut parts,
        localized(language, "Skipped duplicates", "已跳过重复项"),
        &result.skipped_duplicates,
    );
    push_labelled(&mut parts, localized(language, "Renamed conflicts", "已重命名冲突项"), &renames);
    push_labelled(
        &mut parts,
        localized(language, "Skipped conflicts", "已跳过冲突项"),
        &result.skipped_conflicts,
    );
    assert(views(parts@) =~= labelled_part(summary_label(language, 0), views(result.imported_paths@))
        + labelled_part(summary_label(language, 1), views(result.skipped_duplicates@))
        + labelled_part(summary_label(language, 2), spec_rename_texts(rs)) + labelled_part(
        summary_label(language, 3),
        views(result.skipped_conflicts@),
    ));
    if parts.len() == 0 {
        localized(language, "No new configs were imported", "没有导入新的配置文件").to_owned()
    } else {
        join(&parts, " | ")
    }
}

/// The address, device and monitor fields of the runtime form, with how
/// each trimmed address parses.
pub struct RuntimeTextFields {
    pub listen_addr: String,
    pub listen_form: AddressForm,
    pub peer_addr: String,
    pub peer_form: AddressForm,
    pub input_device: String,
    pub target_device: String,
    pub monitor_processed_output: bool,
}

/// Writes the form's address, device and monitor fields into the config:
/// addresses normalized against the ports of the stored addresses
/// (`listen_port`, `peer_port`; see `spec_normalized_socket_field`),
/// device names trimmed. Returns whether any of these fields changed;
/// nothing else in the config changes.
pub fn apply_runtime_text_fields(
    config: &mut NodeConfig,
    fields: &RuntimeTextFields,
    listen_port: Option<u16>,
    peer_port: Option<u16>,
) -> (changed: bool)
    ensures
        final(config).node.listen_addr@ == spec_normalized_socket_field(
            fields.listen_addr@,
            fields.listen_form,
            listen_port,
        ),
        final(config).node.peer_addr@ == spec_normalized_socket_field(
            fields.peer_addr@,
            fields.peer_form,
            peer_port,
        ),
        final(config).audio.input_device@ == spec_trim(fields.input_device@),
        final(config).output.target_device@ == spec_trim(fields.target_device@),
        final(config).output.monitor_processed_output == fields.monitor_processed_output,
        changed == (old(config).node.listen_addr@ != final(config).node.listen_addr@
            || old(config).node.peer_addr@ != final(config).node.peer_addr@
            || old(config).audio.input_device@ != final(config).audio.input_device@
            || old(config).output.target_device@ != final(config).output.target_device@
            || old(config).output.monitor_processed_output != fields.monitor_processed_output),
        final(config).node.name == old(config).node.name,
        final(config).node.transport_backend == old(config).node.transport_backend,
        final(config).node.session_mode == old(config).node.session_mode,
        final(config).node.role == old(config).node.role,
        final(config).audio.backend == old(config).audio.backend,
        final(config).audio.sample_rate == old(config).audio.sample_rate,
        final(config).audio.channels == old(config).audio.channels,
        final(config).audio.frame_ms == old(config).audio.frame_ms,
        final(config).output.backend == old(config).output.backend,
        final(config).output.primary_target_device == old(config).output.primary_target_device,
        final(config).output.secondary_target_device == old(config).output.secondary_target_device,
        final(config).output.routing == old(config).output.routing,
        final(config).output.wav_path == old(config).output.wav_path,
        final(config).sync == old(config).sync,
        final(config).cancel == old(config).cancel,
        final(config).vad == old(config).vad,
        final(config).residual == old(config).residual,
        final(config).debug == old(config).debug,
        final(config).gui == old(config).gui,
{
    let listen = normalized_socket_field(fields.listen_addr.as_str(), fields.listen_form, listen_port);
    let peer = normalized_socket_field(fields.peer_addr.as_str(), fields.peer_form, peer_port);
    let input = normalized_device_field(fields.input_device.as_str());
    let target = normalized_device_field(fields.target_device.as_str());
    let changed = !crate::order::str_eq(config.node.listen_addr.as_str(), listen.as_str())
        || !crate::order::str_eq(config.node.peer_addr.as_str(), peer.as_str())
        || !crate::order::str_eq(config.audio.input_device.as_str(), input.as_str())
        || !crate::order::str_eq(config.output.target_device.as_str(), target.as_str())
        || config.output.monitor_processed_output != fields.monitor_processed_output;
    config.node.listen_addr = listen;
    config.node.peer_addr = peer;
    config.audio.input_device = input;
    config.output.target_device = target;
    config.output.monitor_processed_output = fields.monitor_processed_output;
    changed
}

/// The feedback after saving the runtime fields, by whether they changed
/// and whether a running runtime was asked to reload.
pub fn save_feedback(language: UiLanguage, changed: bool, reload_requested: bool) -> (r: &'static str)
    ensures
        r@ == match (reload_requested, changed, language) {
            (true, true, UiLanguage::English) => "Runtime fields saved; runtime reload requested"@,
            (true, true, UiLanguage::Chinese) => "运行时字段已保存；已请求重新加载运行时"@,
            (true, false, UiLanguage::English) => "Runtime fields unchanged; runtime reload requested"@,
            (true, false, UiLanguage::Chinese) => "运行时字段未变化；已请求重新加载运行时"@,
            (false, true, UiLanguage::English) => "Runtime fields saved"@,
            (false, true, UiLanguage::Chinese) => "运行时字段已保存"@,
            (false, false, UiLanguage::English) => "Runtime fields already matched the config"@,
            (false, false, UiLanguage::Chinese) => "运行时字段已与配置一致"@,
        },
{
    if reload_requested {
        if changed {
            localized(language, "Runtime fields saved; runtime reload requested", "运行时字段已保存；已请求重新加载运行时")
        } else {
            localized(language, "Runtime fields unchanged; runtime reload requested", "运行时字段未变化；已请求重新加载运行时")
        }
    } else if changed {
        localized(language, "Runtime fields saved", "运行时字段已保存")
    } else {
        localized(language, "Runtime fields already matched the config", "运行时字段已与配置一致")
    }
}

/// The feedback when the runtime starts, by whether the form changed the
/// config first.
pub fn start_feedback(language: UiLanguage, changed: bool) -> (r: &'static str)
    ensures
        r@ == match (changed, language) {
            (true, UiLanguage::English) => "Runtime will use the current devices and network fields from this config"@,
            (true, UiLanguage::Chinese) => "运行时将使用当前配置中的设备和网络字段"@,
            (false, UiLanguage::English) => "Runtime will use the devices and network fields already stored in this config"@,
            (false, UiLanguage::Chinese) => "运行时将使用该配置中已保存的设备和网络字段"@,
        },
{
    if changed {
        localized(language, "Runtime will use the current devices and network fields from this config", "运行时将使用当前配置中的设备和网络字段")
    } else {
        localized(language, "Runtime will use the devices and network fields already stored in this config", "运行时将使用该配置中已保存的设备和网络字段")
    }
}

/// The feedback after picking another device: none when nothing changed;
/// otherwise a reload request while the runtime runs, or a note that the
/// config was updated.
pub fn device_change_feedback(language: UiLanguage, worker_running: bool, changed: bool) -> (r:
    Option<&'static str>)
    ensures
        match r {
            None => !changed,
            Some(text) => changed && text@ == match (worker_running, language) {
                (true, UiLanguage::English) => "Device selection applied; runtime reload requested"@,
                (true, UiLanguage::Chinese) => "设备切换已应用；已请求重新加载运行时"@,
                (false, UiLanguage::English) => "Device selection applied to config"@,
                (false, UiLanguage::Chinese) => "设备切换已写入配置"@,
            },
        },
{
    if !changed {
        None
    } else if worker_running {
        Some(localized(language, "Device selection applied; runtime reload requested", "设备切换已应用；已请求重新加载运行时"))
    } else {
        Some(localized(language, "Device selection applied to config", "设备切换已写入配置"))
    }
}

/// The feedback and status texts after the form loaded `config_path`.
/// `reload` is `None` when no runtime is running, otherwise whether the
/// running runtime accepted the reload request.
pub open spec fn spec_load_feedback(language: UiLanguage, config_path: Seq<char>, reload: Option<
    bool,
>) -> (Seq<char>, Seq<char>) {
    let loaded_from = match language {
        UiLanguage::English => "Config loaded from"@,
        UiLanguage::Chinese => "已从以下路径加载配置："@,
    };
    let feedback = loaded_from + " "@ + config_path;
    match reload {
        None => (
            feedback,
            match language {
                UiLanguage::English => "Config loaded"@,
                UiLanguage::Chinese => "配置已加载"@,
            } + ": "@ + config_path,
        ),
        Some(true) => (
            feedback + "; "@ + match language {
                UiLanguage::English => "runtime reload requested"@,
                UiLanguage::Chinese => "已请求重新加载运行时"@,
            },
            match language {
                UiLanguage::English => "Reload requested"@,
                UiLanguage::Chinese => "已请求重新加载"@,
            },
        ),
        Some(false) => (
            feedback,
            match language {
                UiLanguage::English => "Reload request failed"@,
                UiLanguage::Chinese => "重新加载请求失败"@,
            },
        ),
    }
}

/// The feedback and status texts after the form loaded a config (see
/// `spec_load_feedback`).
pub fn load_feedback(language: UiLanguage, config_path: &str, reload: Option<bool>) -> (r: (
    String,
    String,
))
    ensures
        (r.0@, r.1@) == spec_load_feedback(language, config_path@, reload),
{
    let mut feedback = localized(language, "Config loaded from", "已从以下路径加载配置：").to_owned();
    feedback.append(" ");
    feedback.append(config_path);
    match reload {
        None => {
            let mut status = localized(language, "Config loaded", "配置已加载").to_owned();
            status.append(": ");
            status.append(config_path);
            (feedback, status)
        },
        Some(true) => {
            feedback.append("; ");
            feedback.append(localized(language, "runtime reload requested", "已请求重新加载运行时"));
            (feedback, localized(language, "Reload requested", "已请求重新加载").to_owned())
        },
        Some(false) => (
            feedback,
            localized(language, "Reload request failed", "重新加载请求失败").to_owned(),
        ),
    }
}

/// The feedback and status texts after the form failed to load a config:
/// both are the failure label, a colon and `details`.
pub fn load_failure_feedback(language: UiLanguage, details: &str) -> (r: (String, String))
    ensures
        r.0@ == match language {
            UiLanguage::English => "Config load failed"@,
            UiLanguage::Chinese => "配置加载失败"@,
        } + ": "@ + details@,
        r.1@ == r.0@,
{
    let mut text = localized(language, "Config load failed", "配置加载失败").to_owned();
    text.append(": ");
    text.append(details);
    let copy = text.clone();
    (text, copy)
}

/// The preset list offered in the picker: the current config path first
/// when it is set and not among the presets.
pub fn presets_with_current(presets: Vec<String>, config_path: &str) -> (r: Vec<String>)
    ensures
        views(r@) == if config_path@.len() > 0 && !views(presets@).contains(config_path@) {
            seq![config_path@] + views(presets@)
        } else {
            views(presets@)
        },
{
    let owned = config_path.to_owned();
    if config_path.unicode_len() > 0 && !crate::catalog::contains_string(presets.as_slice(), &owned) {
        let mut r = presets;
        let ghost before = r@;
        r.insert(0, owned);
        assert(views(r@) =~= seq![config_path@] + views(before));
        r
    } else {
        presets
    }
}

} // verus!
