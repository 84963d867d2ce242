use synsyu_core::config::{
    AurConfig, CleanConfig, CoreConfig, HelperConfig, SafetyConfig, SpacePolicy, SynsyuConfig,
};
use synsyu_core::flatpak::{capture_installed, capture_updates, collect_flatpak};

#[test]
fn defaults_match_the_documented_values() {
    assert_eq!(AurConfig::default_base_url(), "https://aur.archlinux.org/rpc/");
    assert_eq!(AurConfig::default_max_args(), 50);
    assert_eq!(AurConfig::default_max_retries(), 3);
    assert_eq!(AurConfig::default_timeout_seconds(), 10);
    assert_eq!(CoreConfig::default_batch_size(), 10);
    assert_eq!(
        HelperConfig::default_priority(),
        vec!["paru", "yay", "pikaur", "trizen"]
    );
    assert!(SafetyConfig::default_disk_check());
    assert_eq!(CleanConfig::default_keep_versions(), 2);
    assert!(CleanConfig::default_check_pacnew());
}

#[test]
fn merged_config_reports_its_values() {
    let config = SynsyuConfig::default();
    assert_eq!(config.min_free_bytes(), 2147483648);
    assert_eq!(config.space_policy(), SpacePolicy::Warn);
    assert!(!config.flatpak_enabled());
    assert!(!config.fwupd_enabled());
    let report = config.to_report();
    assert_eq!(report.space_policy, "warn");
    assert_eq!(report.space_min_free_bytes, 2147483648);
    assert_eq!(report.batch_size, 10);
    assert_eq!(report.helper_priority, vec!["paru", "yay", "pikaur", "trizen"]);
    assert!(report.safety_disk_check);
    assert_eq!(report.clean_keep_versions, 2);
}

#[test]
fn flatpak_listings_parse_and_summarize() {
    let installed = capture_installed(
        "org.gnome.Maps 45.0 stable flathub\n\norg.example.App 1.0 beta origin2\n",
    );
    assert_eq!(installed.len(), 2);
    assert_eq!(installed[0].application, "org.gnome.Maps");
    assert_eq!(installed[0].version, "45.0");
    assert_eq!(installed[0].branch, "stable");
    assert_eq!(installed[0].origin, "flathub");

    let updates = capture_updates("org.gnome.Maps stable flathub 45.1\n");
    assert_eq!(updates.len(), 1);
    assert_eq!(updates[0].available, "45.1");

    let state = collect_flatpak(installed, updates);
    assert!(state.enabled);
    assert_eq!(state.installed_count, 2);
    assert_eq!(state.update_count, 1);
}
