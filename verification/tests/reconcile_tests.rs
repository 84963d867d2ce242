use synsyu_core::manifest::{source_from_repo, truncate_hash, PackageSource};
use synsyu_core::reconcile::{
    estimate_sizes, reconcile, ReconcileVerdicts, VersionInfo,
};
use synsyu_core::version::VersionOrder;

fn info(version: &str, download: Option<u64>, installed: Option<u64>) -> VersionInfo {
    VersionInfo::new(version.to_string(), download, installed)
}

fn verdicts(
    installed_vs_repo: Option<VersionOrder>,
    installed_vs_archive: Option<VersionOrder>,
    repo_vs_archive: Option<VersionOrder>,
) -> ReconcileVerdicts {
    ReconcileVerdicts {
        installed_vs_repo,
        installed_vs_archive,
        repo_vs_archive,
    }
}

#[test]
fn repo_only_update_iff_installed_older() {
    let repo = info("2.0", None, None);
    let older = reconcile(
        None,
        Some(&repo),
        None,
        &verdicts(Some(VersionOrder::Less), None, None),
    );
    assert_eq!(older.source, PackageSource::Pacman);
    assert!(older.update_available);
    assert_eq!(older.newer_version.as_deref(), Some("2.0"));

    let equal = reconcile(
        None,
        Some(&repo),
        None,
        &verdicts(Some(VersionOrder::Equal), None, None),
    );
    assert!(!equal.update_available);
    // the resolved target version is recorded even without an update
    assert_eq!(equal.newer_version.as_deref(), Some("2.0"));

    let newer = reconcile(
        None,
        Some(&repo),
        None,
        &verdicts(Some(VersionOrder::Greater), None, None),
    );
    assert!(!newer.update_available);
    assert_eq!(newer.newer_version.as_deref(), Some("2.0"));
}

#[test]
fn tie_break_prefers_repository() {
    let repo = info("1.0", Some(10), None);
    let archive = info("1.0", Some(20), None);
    let r = reconcile(
        None,
        Some(&repo),
        Some(&archive),
        &verdicts(
            Some(VersionOrder::Equal),
            Some(VersionOrder::Equal),
            Some(VersionOrder::Equal),
        ),
    );
    assert_eq!(r.source, PackageSource::Pacman);
}

#[test]
fn archive_strictly_newer_wins() {
    let repo = info("1.0", None, None);
    let archive = info("2.0", None, None);
    let r = reconcile(
        None,
        Some(&repo),
        Some(&archive),
        &verdicts(
            Some(VersionOrder::Equal),
            Some(VersionOrder::Less),
            Some(VersionOrder::Less),
        ),
    );
    assert_eq!(r.source, PackageSource::Aur);
    assert!(r.update_available);
    assert_eq!(r.newer_version.as_deref(), Some("2.0"));
}

#[test]
fn oracle_failure_yields_unknown() {
    let repo = info("1.0", None, None);
    let r = reconcile(None, Some(&repo), None, &verdicts(None, None, None));
    assert_eq!(r.source, PackageSource::Unknown);
    assert!(!r.update_available);
    assert!(r.oracle_failed);
    assert!(r.notes.is_some());
}

#[test]
fn no_sources_uses_origin_tag() {
    let local_tag = "local".to_string();
    let r = reconcile(Some(&local_tag), None, None, &verdicts(None, None, None));
    assert_eq!(r.source, PackageSource::Local);
    assert!(!r.oracle_failed);

    let other_tag = "core".to_string();
    let r2 = reconcile(Some(&other_tag), None, None, &verdicts(None, None, None));
    assert_eq!(r2.source, PackageSource::Unknown);
}

#[test]
fn archive_estimates_use_documented_multipliers() {
    let archive = info("1.0", Some(1000), None);
    let est = estimate_sizes(PackageSource::Aur, None, Some(&archive));
    assert_eq!(est.download_selected, Some(1000));
    assert_eq!(est.install_estimate, Some(2000));
    assert_eq!(est.build_estimate, Some(8000));
    assert_eq!(est.transient_estimate, Some(11000));
}

#[test]
fn repository_estimates_use_documented_multipliers() {
    let repo = info("1.0", Some(1000), Some(3000));
    let est = estimate_sizes(PackageSource::Pacman, Some(&repo), None);
    assert_eq!(est.download_selected, Some(1000));
    assert_eq!(est.installed_selected, Some(3000));
    assert_eq!(est.install_estimate, Some(3000));
    // one and a half times the install estimate, rounded up
    assert_eq!(est.build_estimate, Some(4500));
    assert_eq!(est.transient_estimate, Some(8500));
}

#[test]
fn estimates_without_telemetry_are_absent() {
    let est = estimate_sizes(PackageSource::Unknown, None, None);
    assert_eq!(est.download_selected, None);
    assert_eq!(est.install_estimate, None);
    assert_eq!(est.build_estimate, None);
    assert_eq!(est.transient_estimate, None);
}

#[test]
fn chosen_source_falls_back_to_other_telemetry() {
    let repo = info("1.0", None, None);
    let archive = info("1.0", Some(700), Some(900));
    let est = estimate_sizes(PackageSource::Pacman, Some(&repo), Some(&archive));
    assert_eq!(est.download_selected, Some(700));
    assert_eq!(est.installed_selected, Some(900));
}

#[test]
fn source_from_repo_classifies_tags() {
    let aur = "AUR".to_string();
    let local = "Local".to_string();
    let core = "core".to_string();
    assert_eq!(source_from_repo(Some(&aur)), PackageSource::Aur);
    assert_eq!(source_from_repo(Some(&local)), PackageSource::Local);
    assert_eq!(source_from_repo(Some(&core)), PackageSource::Pacman);
    assert_eq!(source_from_repo(None), PackageSource::Unknown);
}

#[test]
fn truncate_hash_trims_and_cuts() {
    assert_eq!(truncate_hash("  abc  "), "abc");
    assert_eq!(
        truncate_hash("0123456789abcdef0123456789abcdef"),
        "0123456789abcdef"
    );
    assert_eq!(truncate_hash("0123456789abcdef"), "0123456789abcdef");
}
