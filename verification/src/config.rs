//! Typed configuration for the tool, with documented defaults.
//!
//! Loading and merging the operator's configuration file is an external
//! concern; this module holds the resolved values the core logic consumes,
//! as one explicit immutable value passed into each component.

use vstd::prelude::*;

verus! {

/// How a capacity shortfall is handled.
#[derive(Debug, Clone, Copy, PartialEq, Eq, Structural)]
pub enum SpacePolicy {
    /// Report the shortfall but let the caller proceed.
    Warn,
    /// Block the run unless it is a dry run.
    Enforce,
}

impl SpacePolicy {
    /// The label this policy carries in reports.
    pub open spec fn spec_label(self) -> Seq<char> {
        match self {
            SpacePolicy::Warn => "warn"@,
            SpacePolicy::Enforce => "enforce"@,
        }
    }

    /// The label this policy carries in reports.
    pub fn label(&self) -> (r: &'static str)
        ensures
            r@ == self.spec_label(),
    {
        match self {
            SpacePolicy::Warn => "warn",
            SpacePolicy::Enforce => "enforce",
        }
    }
}

/// Options for community-archive queries.
#[derive(Debug, Clone)]
pub struct AurConfig {
    pub base_url: String,
    pub max_args: usize,
    pub max_retries: usize,
    pub timeout: u64,
}

impl AurConfig {
    pub fn default_base_url() -> (r: String)
        ensures
            r@ == "https://aur.archlinux.org/rpc/"@,
    {
        "https://aur.archlinux.org/rpc/".to_owned()
    }

    pub fn default_max_args() -> (r: usize)
        ensures
            r == 50,
    {
        50
    }

    pub fn default_max_retries() -> (r: usize)
        ensures
            r == 3,
    {
        3
    }

    pub fn default_timeout_seconds() -> (r: u64)
        ensures
            r == 10,
    {
        10
    }
}

impl Default for AurConfig {
    fn default() -> (r: Self)
        ensures
            r.base_url@ == "https://aur.archlinux.org/rpc/"@,
            r.max_args == 50,
            r.max_retries == 3,
            r.timeout == 10,
    {
        AurConfig {
            base_url: AurConfig::default_base_url(),
            max_args: AurConfig::default_max_args(),
            max_retries: AurConfig::default_max_retries(),
            timeout: AurConfig::default_timeout_seconds(),
        }
    }
}

/// Core runtime options.
#[derive(Debug, Clone)]
pub struct CoreConfig {
    pub manifest_path: String,
    pub log_directory: Option<String>,
    pub batch_size: usize,
}

impl CoreConfig {
    pub fn default_batch_size() -> (r: usize)
        ensures
            r == 10,
    {
        10
    }
}

impl Default for CoreConfig {
    fn default() -> (r: Self)
        ensures
            r.manifest_path@ == "snapshot.json"@,
            r.log_directory is None,
            r.batch_size == 10,
    {
        CoreConfig {
            manifest_path: "snapshot.json".to_owned(),
            log_directory: None,
            batch_size: CoreConfig::default_batch_size(),
        }
    }
}

/// Disk space requirements.
#[derive(Debug, Clone)]
pub struct SpaceConfig {
    pub min_free_bytes: u64,
    pub policy: SpacePolicy,
}

impl SpaceConfig {
    /// Minimum free bytes required before operations.
    pub fn min_free_bytes(&self) -> (r: u64)
        ensures
            r == self.min_free_bytes,
    {
        self.min_free_bytes
    }
}

impl Default for SpaceConfig {
    fn default() -> (r: Self)
        ensures
            r.min_free_bytes == 2147483648u64,
            r.policy == SpacePolicy::Warn,
    {
        // two binary gigabytes of headroom by default
        SpaceConfig { min_free_bytes: 2147483648, policy: SpacePolicy::Warn }
    }
}

/// Preferred helper prioritization for archive operations.
#[derive(Debug, Clone)]
pub struct HelperConfig {
    pub priority: Vec<String>,
    pub default: Option<String>,
}

impl HelperConfig {
    pub fn default_priority() -> (r: Vec<String>)
        ensures
            r.deep_view() =~= seq!["paru"@, "yay"@, "pikaur"@, "trizen"@],
    {
        let mut v: Vec<String> = Vec::new();
        v.push("paru".to_owned());
        v.push("yay".to_owned());
        v.push("pikaur".to_owned());
        v.push("trizen".to_owned());
        proof {
            assert(v.deep_view() =~= seq!["paru"@, "yay"@, "pikaur"@, "trizen"@]);
        }
        v
    }
}

impl Default for HelperConfig {
    fn default() -> (r: Self)
        ensures
            r.priority.deep_view() =~= seq!["paru"@, "yay"@, "pikaur"@, "trizen"@],
            r.default is None,
    {
        HelperConfig { priority: HelperConfig::default_priority(), default: None }
    }
}

/// Application metadata collection toggles.
#[derive(Debug, Clone)]
pub struct ApplicationsConfig {
    pub flatpak: bool,
    pub fwupd: bool,
}

impl Default for ApplicationsConfig {
    fn default() -> (r: Self)
        ensures
            !r.flatpak,
            !r.fwupd,
    {
        ApplicationsConfig { flatpak: false, fwupd: false }
    }
}

/// Logging preferences.
#[derive(Debug, Clone)]
pub struct LoggingConfig {
    pub directory: Option<String>,
    pub level: Option<String>,
    pub retention_days: Option<u64>,
    pub retention_megabytes: Option<u64>,
}

impl Default for LoggingConfig {
    fn default() -> (r: Self)
        ensures
            r.directory is None,
            r.level matches Some(l) && l@ == "info"@,
            r.retention_days is None,
            r.retention_megabytes is None,
    {
        LoggingConfig {
            directory: None,
            level: Some("info".to_owned()),
            retention_days: None,
            retention_megabytes: None,
        }
    }
}

/// Snapshot hook configuration.
#[derive(Debug, Clone)]
pub struct SnapshotsConfig {
    pub enabled: bool,
    pub pre_command: Option<String>,
    pub post_command: Option<String>,
    pub require_success: bool,
}

impl Default for SnapshotsConfig {
    fn default() -> (r: Self)
        ensures
            !r.enabled,
            r.pre_command is None,
            r.post_command is None,
            !r.require_success,
    {
        SnapshotsConfig {
            enabled: false,
            pre_command: None,
            post_command: None,
            require_success: false,
        }
    }
}

/// Safety tuning.
#[derive(Debug, Clone)]
pub struct SafetyConfig {
    pub disk_check: bool,
    pub disk_extra_margin_mb: u64,
}

impl SafetyConfig {
    pub fn default_disk_check() -> (r: bool)
        ensures
            r,
    {
        true
    }
}

impl Default for SafetyConfig {
    fn default() -> (r: Self)
        ensures
            r.disk_check,
            r.disk_extra_margin_mb == 0,
    {
        SafetyConfig { disk_check: SafetyConfig::default_disk_check(), disk_extra_margin_mb: 0 }
    }
}

/// Cache and cleanup preferences.
#[derive(Debug, Clone)]
pub struct CleanConfig {
    pub keep_versions: u64,
    pub remove_orphans: bool,
    pub check_pacnew: bool,
}

impl CleanConfig {
    pub fn default_keep_versions() -> (r: u64)
        ensures
            r == 2,
    {
        2
    }

    pub fn default_check_pacnew() -> (r: bool)
        ensures
            r,
    {
        true
    }
}

impl Default for CleanConfig {
    fn default() -> (r: Self)
        ensures
            r.keep_versions == 2,
            !r.remove_orphans,
            r.check_pacnew,
    {
        CleanConfig {
            keep_versions: CleanConfig::default_keep_versions(),
            remove_orphans: false,
            check_pacnew: CleanConfig::default_check_pacnew(),
        }
    }
}

/// Top-level resolved configuration.
#[derive(Debug, Clone)]
pub struct SynsyuConfig {
    pub aur: AurConfig,
    pub core: CoreConfig,
    pub helpers: HelperConfig,
    pub space: SpaceConfig,
    pub applications: ApplicationsConfig,
    pub logging: LoggingConfig,
    pub snapshots: SnapshotsConfig,
    pub safety: SafetyConfig,
    pub clean: CleanConfig,
}

impl Default for SynsyuConfig {
    fn default() -> (r: Self)
        ensures
            r.space.policy == SpacePolicy::Warn,
            !r.applications.flatpak,
            !r.applications.fwupd,
    {
        SynsyuConfig {
            aur: AurConfig::default(),
            core: CoreConfig::default(),
            helpers: HelperConfig::default(),
            space: SpaceConfig::default(),
            applications: ApplicationsConfig::default(),
            logging: LoggingConfig::default(),
            snapshots: SnapshotsConfig::default(),
            safety: SafetyConfig::default(),
            clean: CleanConfig::default(),
        }
    }
}

impl SynsyuConfig {
    /// Manifest path resolved from configuration.
    pub fn manifest_path(&self) -> (r: String)
        ensures
            r@ == self.core.manifest_path@,
    {
        self.core.manifest_path.clone()
    }

    /// Preferred helper priority order.
    pub fn helper_priority(&self) -> (r: &Vec<String>)
        ensures
            r == &self.helpers.priority,
    {
        &self.helpers.priority
    }

    /// Minimum free bytes required before operations.
    pub fn min_free_bytes(&self) -> (r: u64)
        ensures
            r == self.space.min_free_bytes,
    {
        self.space.min_free_bytes
    }

    /// Policy for handling low space relative to the configured buffer.
    pub fn space_policy(&self) -> (r: SpacePolicy)
        ensures
            r == self.space.policy,
    {
        self.space.policy
    }

    /// Whether application metadata from the desktop app remote is collected
    /// by default.
    pub fn flatpak_enabled(&self) -> (r: bool)
        ensures
            r == self.applications.flatpak,
    {
        self.applications.flatpak
    }

    /// Whether firmware metadata is collected by default.
    pub fn fwupd_enabled(&self) -> (r: bool)
        ensures
            r == self.applications.fwupd,
    {
        self.applications.fwupd
    }

    /// Snapshot of the merged configuration suitable for reporting.
    pub fn to_report(&self) -> (r: ConfigReport)
        ensures
            r.manifest_path@ == self.core.manifest_path@,
            r.helper_priority.deep_view() == self.helpers.priority.deep_view(),
            r.space_min_free_bytes == self.space.min_free_bytes,
            r.space_policy@ == self.space.policy.spec_label(),
            r.batch_size == self.core.batch_size,
            r.applications_flatpak == self.applications.flatpak,
            r.applications_fwupd == self.applications.fwupd,
            r.safety_disk_check == self.safety.disk_check,
            r.safety_disk_margin_mb == self.safety.disk_extra_margin_mb,
            r.clean_keep_versions == self.clean.keep_versions,
            r.clean_remove_orphans == self.clean.remove_orphans,
            r.clean_check_pacnew == self.clean.check_pacnew,
            r.snapshots_enabled == self.snapshots.enabled,
            r.snapshot_require_success == self.snapshots.require_success,
    {
        ConfigReport {
            manifest_path: self.core.manifest_path.clone(),
            log_directory: match &self.core.log_directory {
                Some(d) => Some(d.clone()),
                None => None,
            },
            helper_priority: clone_strings(&self.helpers.priority),
            helper_default: match &self.helpers.default {
                Some(d) => Some(d.clone()),
                None => None,
            },
            space_min_free_bytes: self.space.min_free_bytes,
            space_policy: self.space.policy.label().to_owned(),
            batch_size: self.core.batch_size,
            applications_flatpak: self.applications.flatpak,
            applications_fwupd: self.applications.fwupd,
            log_level: match &self.logging.level {
                Some(l) => Some(l.clone()),
                None => None,
            },
            log_retention_days: self.logging.retention_days,
            log_retention_megabytes: self.logging.retention_megabytes,
            snapshots_enabled: self.snapshots.enabled,
            snapshot_pre_command: match &self.snapshots.pre_command {
                Some(c) => Some(c.clone()),
                None => None,
            },
            snapshot_post_command: match &self.snapshots.post_command {
                Some(c) => Some(c.clone()),
                None => None,
            },
            snapshot_require_success: self.snapshots.require_success,
            safety_disk_check: self.safety.disk_check,
            safety_disk_margin_mb: self.safety.disk_extra_margin_mb,
            clean_keep_versions: self.clean.keep_versions,
            clean_remove_orphans: self.clean.remove_orphans,
            clean_check_pacnew: self.clean.check_pacnew,
        }
    }
}

/// Copy a list of strings.
pub fn clone_strings(v: &Vec<String>) -> (r: Vec<String>)
    ensures
        r.deep_view() == v.deep_view(),
{
    let mut r: Vec<String> = Vec::new();
    let mut i: usize = 0;
    while i < v.len()
        invariant
            i <= v@.len(),
            r@.len() == i,
            r.deep_view() =~= v.deep_view().take(i as int),
        decreases v@.len() - i,
    {
        let item = v[i].clone();
        let ghost pushed = item;
        let ghost old_r = r@;
        r.push(item);
        proof {
            assert(r@ == old_r.push(pushed));
            assert forall|k: int| 0 <= k < i + 1 implies r.deep_view()[k] == v.deep_view()[k] by {
                assert(r.deep_view()[k] == r@[k].deep_view());
                if k < i {
                    assert(r@[k] == old_r[k]);
                    assert(old_r[k].deep_view() == v.deep_view().take(i as int)[k]);
                }
            }
            assert(r.deep_view() =~= v.deep_view().take(i + 1));
        }
        i = i + 1;
    }
    proof {
        assert(v.deep_view().take(v@.len() as int) =~= v.deep_view());
    }
    r
}

/// Serializable configuration summary.
#[derive(Debug, Clone)]
pub struct ConfigReport {
    pub manifest_path: String,
    pub log_directory: Option<String>,
    pub helper_priority: Vec<String>,
    pub helper_default: Option<String>,
    pub space_min_free_bytes: u64,
    pub space_policy: String,
    pub batch_size: usize,
    pub applications_flatpak: bool,
    pub applications_fwupd: bool,
    pub log_level: Option<String>,
    pub log_retention_days: Option<u64>,
    pub log_retention_megabytes: Option<u64>,
    pub snapshots_enabled: bool,
    pub snapshot_pre_command: Option<String>,
    pub snapshot_post_command: Option<String>,
    pub snapshot_require_success: bool,
    pub safety_disk_check: bool,
    pub safety_disk_margin_mb: u64,
    pub clean_keep_versions: u64,
    pub clean_remove_orphans: bool,
    pub clean_check_pacnew: bool,
}

} // verus!
