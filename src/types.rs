use vstd::prelude::*;
use crate::snapshot::TelemetrySnapshot;

verus! {

/// Static description of the host hardware, filled by the platform probes.
#[derive(Debug)]
pub struct HardwareInfo {
    pub cpu_model: String,
    pub cpu_max_freq_mhz: Option<u64>,
    pub gpu_model: String,
    pub ram_spec: String,
    pub disk_models: Vec<String>,
    pub motherboard: String,
    pub device_brand: String,
}

/// Which metric panels consumers show.
#[derive(Debug, Clone, Copy, PartialEq, Eq, Structural)]
pub struct ModuleToggles {
    pub show_cpu: bool,
    pub show_gpu: bool,
    pub show_memory: bool,
    pub show_disk: bool,
    pub show_network: bool,
}

/// How the overlay renders each metric.
#[derive(Debug, Clone, Copy, PartialEq, Eq, Structural)]
pub struct OverlayDisplaySettings {
    pub show_values: bool,
    pub show_percent: bool,
    pub show_hardware_info: bool,
}

impl Default for OverlayDisplaySettings {
    fn default() -> (r: Self)
        ensures
            r.show_values,
            r.show_percent,
            !r.show_hardware_info,
    {
        OverlayDisplaySettings { show_values: true, show_percent: true, show_hardware_info: false }
    }
}

/// A partial update of [`ModuleToggles`]: `None` keeps the current value.
#[derive(Debug, Clone, Copy, Default, PartialEq, Eq, Structural)]
pub struct ModuleTogglesPatch {
    pub show_cpu: Option<bool>,
    pub show_gpu: Option<bool>,
    pub show_memory: Option<bool>,
    pub show_disk: Option<bool>,
    pub show_network: Option<bool>,
}

/// A partial update of [`OverlayDisplaySettings`]: `None` keeps the current value.
#[derive(Debug, Clone, Copy, Default, PartialEq, Eq, Structural)]
pub struct OverlayDisplaySettingsPatch {
    pub show_values: Option<bool>,
    pub show_percent: Option<bool>,
    pub show_hardware_info: Option<bool>,
}

/// Parameters of a download speed test run by an outside collaborator.
#[derive(Debug)]
pub struct SpeedTestConfig {
    pub endpoint: String,
    pub max_seconds: u64,
}

/// Where an export went and how many rows it wrote.
#[derive(Debug)]
pub struct ExportResult {
    pub path: String,
    pub rows: u64,
}

/// A `{message, source}` notification on the warning channel.
#[derive(Debug)]
pub struct WarningEvent {
    pub message: String,
    pub source: String,
}

/// What a consumer needs to render its first frame.
#[derive(Debug)]
pub struct AppBootstrap {
    pub settings: AppSettings,
    pub hardware_info: HardwareInfo,
    pub latest_snapshot: TelemetrySnapshot,
}

/// Power mode of the application.
#[derive(Debug, Clone, Copy, PartialEq, Eq, Structural)]
pub enum Mode {
    Normal,
    LowPower,
}

impl Mode {
    /// The name of the mode on the wire.
    pub open spec fn name(self) -> Seq<char> {
        match self {
            Mode::Normal => "normal"@,
            Mode::LowPower => "low_power"@,
        }
    }

    pub fn as_str(&self) -> (r: &'static str)
        ensures
            r@ == self.name(),
    {
        match self {
            Mode::Normal => "normal",
            Mode::LowPower => "low_power",
        }
    }
}

/// Clamp `v` into `[lo, hi]`.
pub open spec fn clamp_u64(v: u64, lo: u64, hi: u64) -> u64 {
    if v < lo {
        lo
    } else if v > hi {
        hi
    } else {
        v
    }
}

pub open spec fn clamp_i64(v: i64, lo: i64, hi: i64) -> i64 {
    if v < lo {
        lo
    } else if v > hi {
        hi
    } else {
        v
    }
}

fn clamp_u64_of(v: u64, lo: u64, hi: u64) -> (r: u64)
    ensures
        r == clamp_u64(v, lo, hi),
{
    if v < lo {
        lo
    } else if v > hi {
        hi
    } else {
        v
    }
}

/// User settings. Opacity and glow are in thousandths (1000 = fully opaque / full glow).
#[derive(Debug)]
pub struct AppSettings {
    pub refresh_rate_ms: u64,
    pub low_power_rate_ms: u64,
    pub module_toggles: ModuleToggles,
    pub theme: String,
    pub accent: String,
    pub glass_opacity_milli: u64,
    pub glow_intensity_milli: u64,
    pub language: String,
    pub speedtest_endpoints: Vec<String>,
    pub history_retention_days: i64,
    pub sensor_boost_enabled: bool,
    pub overlay_display: OverlayDisplaySettings,
}

/// A partial update of [`AppSettings`]: `None` keeps the current value.
#[derive(Debug, Default)]
pub struct SettingsPatch {
    pub refresh_rate_ms: Option<u64>,
    pub low_power_rate_ms: Option<u64>,
    pub module_toggles: Option<ModuleTogglesPatch>,
    pub theme: Option<String>,
    pub accent: Option<String>,
    pub glass_opacity_milli: Option<u64>,
    pub glow_intensity_milli: Option<u64>,
    pub language: Option<String>,
    pub speedtest_endpoints: Option<Vec<String>>,
    pub history_retention_days: Option<i64>,
    pub sensor_boost_enabled: Option<bool>,
    pub overlay_display: Option<OverlayDisplaySettingsPatch>,
}

pub open spec fn or_keep<T>(p: Option<T>, cur: T) -> T {
    match p {
        Some(v) => v,
        None => cur,
    }
}

impl ModuleToggles {
    pub open spec fn patched(self, p: Option<ModuleTogglesPatch>) -> ModuleToggles {
        match p {
            Some(mt) => ModuleToggles {
                show_cpu: or_keep(mt.show_cpu, self.show_cpu),
                show_gpu: or_keep(mt.show_gpu, self.show_gpu),
                show_memory: or_keep(mt.show_memory, self.show_memory),
                show_disk: or_keep(mt.show_disk, self.show_disk),
                show_network: or_keep(mt.show_network, self.show_network),
            },
            None => self,
        }
    }
}

impl OverlayDisplaySettings {
    pub open spec fn patched(self, p: Option<OverlayDisplaySettingsPatch>) -> OverlayDisplaySettings {
        match p {
            Some(d) => OverlayDisplaySettings {
                show_values: or_keep(d.show_values, self.show_values),
                show_percent: or_keep(d.show_percent, self.show_percent),
                show_hardware_info: or_keep(d.show_hardware_info, self.show_hardware_info),
            },
            None => self,
        }
    }
}

fn keep_or(p: Option<bool>, cur: bool) -> (r: bool)
    ensures
        r == or_keep(p, cur),
{
    match p {
        Some(v) => v,
        None => cur,
    }
}

impl Default for AppSettings {
    fn default() -> (r: Self)
        ensures
            r.refresh_rate_ms == 500,
            r.low_power_rate_ms == 2000,
            r.module_toggles == (ModuleToggles {
                show_cpu: true,
                show_gpu: true,
                show_memory: true,
                show_disk: true,
                show_network: true,
            }),
            r.theme@ == "cyber-dark"@,
            r.accent@ == "#2b6cee"@,
            r.glass_opacity_milli == 750,
            r.glow_intensity_milli == 400,
            r.language@ == "zh-CN"@,
            r.speedtest_endpoints@.len() == 2,
            r.speedtest_endpoints@[0]@ == "https://speed.hetzner.de/100MB.bin"@,
            r.speedtest_endpoints@[1]@ == "https://proof.ovh.net/files/100Mb.dat"@,
            r.history_retention_days == 30,
            !r.sensor_boost_enabled,
            r.overlay_display == (OverlayDisplaySettings {
                show_values: true,
                show_percent: true,
                show_hardware_info: false,
            }),
    {
        let mut endpoints: Vec<String> = Vec::new();
        endpoints.push(String::from_str("https://speed.hetzner.de/100MB.bin"));
        endpoints.push(String::from_str("https://proof.ovh.net/files/100Mb.dat"));
        AppSettings {
            refresh_rate_ms: 500,
            low_power_rate_ms: 2000,
            module_toggles: ModuleToggles {
                show_cpu: true,
                show_gpu: true,
                show_memory: true,
                show_disk: true,
                show_network: true,
            },
            theme: String::from_str("cyber-dark"),
            accent: String::from_str("#2b6cee"),
            glass_opacity_milli: 750,
            glow_intensity_milli: 400,
            language: String::from_str("zh-CN"),
            speedtest_endpoints: endpoints,
            history_retention_days: 30,
            sensor_boost_enabled: false,
            overlay_display: OverlayDisplaySettings::default(),
        }
    }
}

impl AppSettings {
    /// Apply every field the patch sets, clamping rates to their ranges
    /// (refresh `[250, 5000]` ms, low power `[500, 10000]` ms, opacity
    /// `[200, 1000]`, glow `[0, 1000]`, retention `[1, 365]` days) and
    /// ignoring an empty endpoint list.
    pub fn apply_patch(&mut self, patch: SettingsPatch)
        ensures
            final(self).refresh_rate_ms == match patch.refresh_rate_ms {
                Some(v) => clamp_u64(v, 250, 5000),
                None => old(self).refresh_rate_ms,
            },
            final(self).low_power_rate_ms == match patch.low_power_rate_ms {
                Some(v) => clamp_u64(v, 500, 10000),
                None => old(self).low_power_rate_ms,
            },
            final(self).theme == or_keep(patch.theme, old(self).theme),
            final(self).accent == or_keep(patch.accent, old(self).accent),
            final(self).glass_opacity_milli == match patch.glass_opacity_milli {
                Some(v) => clamp_u64(v, 200, 1000),
                None => old(self).glass_opacity_milli,
            },
            final(self).glow_intensity_milli == match patch.glow_intensity_milli {
                Some(v) => clamp_u64(v, 0, 1000),
                None => old(self).glow_intensity_milli,
            },
            final(self).language == or_keep(patch.language, old(self).language),
            final(self).speedtest_endpoints@ == match patch.speedtest_endpoints {
                Some(v) => if v@.len() > 0 {
                    v@
                } else {
                    old(self).speedtest_endpoints@
                },
                None => old(self).speedtest_endpoints@,
            },
            final(self).history_retention_days == match patch.history_retention_days {
                Some(v) => clamp_i64(v, 1, 365),
                None => old(self).history_retention_days,
            },
            final(self).sensor_boost_enabled == or_keep(
                patch.sensor_boost_enabled,
                old(self).sensor_boost_enabled,
            ),
            final(self).overlay_display == old(self).overlay_display.patched(patch.overlay_display),
            final(self).module_toggles == old(self).module_toggles.patched(patch.module_toggles),
    {
        let SettingsPatch {
            refresh_rate_ms,
            low_power_rate_ms,
            module_toggles,
            theme,
            accent,
            glass_opacity_milli,
            glow_intensity_milli,
            language,
            speedtest_endpoints,
            history_retention_days,
            sensor_boost_enabled,
            overlay_display,
        } = patch;
        self.refresh_rate_ms = clamp_or_keep(refresh_rate_ms, 250, 5000, self.refresh_rate_ms);
        self.low_power_rate_ms = clamp_or_keep(low_power_rate_ms, 500, 10000, self.low_power_rate_ms);
        self.glass_opacity_milli = clamp_or_keep(glass_opacity_milli, 200, 1000, self.glass_opacity_milli);
        self.glow_intensity_milli = clamp_or_keep(glow_intensity_milli, 0, 1000, self.glow_intensity_milli);
        self.history_retention_days = match history_retention_days {
            Some(v) => if v < 1 {
                1
            } else if v > 365 {
                365
            } else {
                v
            },
            None => self.history_retention_days,
        };
        self.sensor_boost_enabled = keep_or(sensor_boost_enabled, self.sensor_boost_enabled);
        self.overlay_display = self.overlay_display.with_patch(overlay_display);
        self.module_toggles = self.module_toggles.with_patch(module_toggles);
        replace_if_some(&mut self.theme, theme);
        replace_if_some(&mut self.accent, accent);
        replace_if_some(&mut self.language, language);
        match speedtest_endpoints {
            Some(v) => {
                if v.len() > 0 {
                    self.speedtest_endpoints = v;
                }
            },
            None => {},
        }
    }
}

fn clamp_or_keep(p: Option<u64>, lo: u64, hi: u64, cur: u64) -> (r: u64)
    ensures
        r == match p {
            Some(v) => clamp_u64(v, lo, hi),
            None => cur,
        },
{
    match p {
        Some(v) => clamp_u64_of(v, lo, hi),
        None => cur,
    }
}

fn replace_if_some(dst: &mut String, p: Option<String>)
    ensures
        *final(dst) == or_keep(p, *old(dst)),
{
    match p {
        Some(v) => {
            *dst = v;
        },
        None => {},
    }
}

impl ModuleToggles {
    pub fn with_patch(&self, p: Option<ModuleTogglesPatch>) -> (r: ModuleToggles)
        ensures
            r == self.patched(p),
    {
        match p {
            Some(mt) => ModuleToggles {
                show_cpu: keep_or(mt.show_cpu, self.show_cpu),
                show_gpu: keep_or(mt.show_gpu, self.show_gpu),
                show_memory: keep_or(mt.show_memory, self.show_memory),
                show_disk: keep_or(mt.show_disk, self.show_disk),
                show_network: keep_or(mt.show_network, self.show_network),
            },
            None => *self,
        }
    }
}

impl OverlayDisplaySettings {
    pub fn with_patch(&self, p: Option<OverlayDisplaySettingsPatch>) -> (r: OverlayDisplaySettings)
        ensures
            r == self.patched(p),
    {
        match p {
            Some(d) => OverlayDisplaySettings {
                show_values: keep_or(d.show_values, self.show_values),
                show_percent: keep_or(d.show_percent, self.show_percent),
                show_hardware_info: keep_or(d.show_hardware_info, self.show_hardware_info),
            },
            None => *self,
        }
    }
}

/// Bounds of the memory-trim interval.
pub const MIN_TRIM_INTERVAL_MS: u64 = 60000;
pub const MAX_TRIM_INTERVAL_MS: u64 = 1800000;

/// The trim loop's cadence for a configured interval.
pub fn trim_interval_ms(configured_ms: u64) -> (r: u64)
    ensures
        r == clamp_u64(configured_ms, MIN_TRIM_INTERVAL_MS, MAX_TRIM_INTERVAL_MS),
{
    clamp_u64_of(configured_ms, MIN_TRIM_INTERVAL_MS, MAX_TRIM_INTERVAL_MS)
}

/// A trim interval requested in minutes: the minutes clamped to `[1, 30]`
/// and the same interval in milliseconds.
pub fn trim_interval_from_minutes(minutes: u64) -> (r: (u8, u64))
    ensures
        r.0 as u64 == clamp_u64(minutes, 1, 30),
        r.1 == clamp_u64(minutes, 1, 30) * 60000,
{
    let m = clamp_u64_of(minutes, 1, 30);
    (m as u8, m * 60000)
}

} // verus!
