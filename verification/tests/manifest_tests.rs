use synsyu_core::manifest::{build_manifest, PackageSource, PackageUpstream};
use synsyu_core::pacman::InstalledPackage;
use synsyu_core::reconcile::{ReconcileVerdicts, VersionInfo};
use synsyu_core::render::render_manifest_string;
use synsyu_core::updates::{collect_updates, UpdatesFilter};
use synsyu_core::version::VersionOrder;

fn pkg(name: &str, version: &str, repo: Option<&str>, size: Option<u64>) -> InstalledPackage {
    InstalledPackage {
        name: name.to_string(),
        version: version.to_string(),
        repository: repo.map(|r| r.to_string()),
        installed_size: size,
        install_date: None,
        validated_by: None,
        package_hash: None,
    }
}

fn upstream_repo(version: &str, download: Option<u64>, verdict: VersionOrder) -> PackageUpstream {
    PackageUpstream {
        repo: Some(VersionInfo::new(version.to_string(), download, None)),
        archive: None,
        verdicts: ReconcileVerdicts {
            installed_vs_repo: Some(verdict),
            installed_vs_archive: None,
            repo_vs_archive: None,
        },
    }
}

fn no_upstream() -> PackageUpstream {
    PackageUpstream {
        repo: None,
        archive: None,
        verdicts: ReconcileVerdicts {
            installed_vs_repo: None,
            installed_vs_archive: None,
            repo_vs_archive: None,
        },
    }
}

fn sample() -> (Vec<InstalledPackage>, Vec<PackageUpstream>) {
    let packages = vec![
        pkg("zsh", "5.9", Some("extra"), Some(7000)),
        pkg("bash", "5.2", Some("core"), Some(9000)),
        pkg("mytool", "1.0", Some("local"), None),
    ];
    let upstream = vec![
        upstream_repo("5.9.1", Some(1000), VersionOrder::Less),
        upstream_repo("5.2", Some(1200), VersionOrder::Equal),
        no_upstream(),
    ];
    (packages, upstream)
}

#[test]
fn manifest_orders_packages_lexicographically() {
    let (packages, upstream) = sample();
    let doc = build_manifest(&packages, &upstream, "2025-01-01T00:00:00Z");
    let names: Vec<&str> = doc.packages.iter().map(|r| r.name.as_str()).collect();
    assert_eq!(names, vec!["bash", "mytool", "zsh"]);
    assert_eq!(doc.metadata.total_packages, 3);
    assert_eq!(doc.metadata.pacman_packages, 2);
    assert_eq!(doc.metadata.local_packages, 1);
    assert_eq!(doc.metadata.aur_packages, 0);
    assert_eq!(doc.metadata.unknown_packages, 0);
}

#[test]
fn manifest_totals_cover_only_pending_updates() {
    let (packages, upstream) = sample();
    let doc = build_manifest(&packages, &upstream, "2025-01-01T00:00:00Z");
    // only zsh has an update pending: download 1000, install falls back to
    // the download, build is one and a half times the install, rounded up
    assert_eq!(doc.metadata.download_size_total, 1000);
    assert_eq!(doc.metadata.install_size_total, 1000);
    assert_eq!(doc.metadata.build_size_total, 1500);
    assert_eq!(doc.metadata.transient_size_total, 3500);
}

#[test]
fn manifest_groups_sort_by_count_then_source() {
    let (packages, upstream) = sample();
    let doc = build_manifest(&packages, &upstream, "2025-01-01T00:00:00Z");
    assert_eq!(doc.packages_by_source.len(), 2);
    assert_eq!(doc.packages_by_source[0].source, PackageSource::Local);
    assert_eq!(doc.packages_by_source[0].count, 1);
    assert_eq!(doc.packages_by_source[0].packages, vec!["mytool"]);
    assert_eq!(doc.packages_by_source[1].source, PackageSource::Pacman);
    assert_eq!(doc.packages_by_source[1].count, 2);
    assert_eq!(doc.packages_by_source[1].packages, vec!["bash", "zsh"]);
}

#[test]
fn manifest_output_is_deterministic() {
    let (packages_a, upstream_a) = sample();
    let (packages_b, upstream_b) = sample();
    let doc_a = build_manifest(&packages_a, &upstream_a, "2025-01-01T00:00:00Z");
    let doc_b = build_manifest(&packages_b, &upstream_b, "2025-01-01T00:00:00Z");
    let text_a = render_manifest_string(&doc_a);
    let text_b = render_manifest_string(&doc_b);
    assert_eq!(text_a, text_b);
}

#[test]
fn rendered_manifest_round_trips_through_json() {
    let (packages, upstream) = sample();
    let doc = build_manifest(&packages, &upstream, "2025-01-01T00:00:00Z");
    let text = render_manifest_string(&doc);
    let value: serde_json::Value = serde_json::from_str(&text).expect("valid JSON");

    let parsed = value.get("packages").and_then(|p| p.as_object()).unwrap();
    let keys: Vec<&String> = parsed.keys().collect();
    assert_eq!(keys, vec!["bash", "mytool", "zsh"]);

    let meta = value.get("metadata").unwrap();
    assert_eq!(meta.get("total_packages").unwrap().as_u64(), Some(3));
    assert_eq!(meta.get("pacman_packages").unwrap().as_u64(), Some(2));
    assert_eq!(meta.get("local_packages").unwrap().as_u64(), Some(1));

    let zsh = parsed.get("zsh").unwrap();
    assert_eq!(zsh.get("update_available").unwrap().as_bool(), Some(true));
    assert_eq!(zsh.get("newer_version").unwrap().as_str(), Some("5.9.1"));
    assert_eq!(zsh.get("repo_version").unwrap().as_str(), Some("5.9.1"));
    assert!(zsh.get("archive_version").unwrap().is_null());
    assert_eq!(
        zsh.get("download_size_selected").unwrap().as_u64(),
        Some(1000)
    );
    assert_eq!(
        zsh.get("install_size_estimate").unwrap().as_u64(),
        Some(1000)
    );
    assert_eq!(zsh.get("build_size_estimate").unwrap().as_u64(), Some(1500));
    assert_eq!(
        zsh.get("transient_size_estimate").unwrap().as_u64(),
        Some(3500)
    );
    let bash = parsed.get("bash").unwrap();
    assert_eq!(bash.get("update_available").unwrap().as_bool(), Some(false));
    // the resolved target version is recorded even without an update
    assert_eq!(bash.get("newer_version").unwrap().as_str(), Some("5.2"));
    assert_eq!(
        bash.get("transient_size_estimate").unwrap().as_u64(),
        Some(4200)
    );
}

#[test]
fn rendered_strings_are_escaped() {
    let packages = vec![pkg("odd\"name\\pkg", "1.0", Some("core"), None)];
    let upstream = vec![no_upstream()];
    let doc = build_manifest(&packages, &upstream, "t");
    let text = render_manifest_string(&doc);
    let value: serde_json::Value = serde_json::from_str(&text).expect("valid JSON");
    let parsed = value.get("packages").and_then(|p| p.as_object()).unwrap();
    assert!(parsed.contains_key("odd\"name\\pkg"));
}

#[test]
fn duplicate_names_keep_the_last_entry() {
    let packages = vec![
        pkg("tool", "1.0", Some("core"), Some(100)),
        pkg("tool", "2.0", Some("core"), Some(200)),
    ];
    let upstream = vec![no_upstream(), no_upstream()];
    let doc = build_manifest(&packages, &upstream, "t");
    assert_eq!(doc.packages.len(), 1);
    assert_eq!(doc.packages[0].entry.installed_version, "2.0");
}

#[test]
fn collect_updates_filters_by_source_and_pattern() {
    let (packages, upstream) = sample();
    let doc = build_manifest(&packages, &upstream, "t");
    let all = collect_updates(
        &doc,
        &UpdatesFilter {
            manifest: String::new(),
            accept: vec![],
            reject: vec![],
            allow_repo: true,
            allow_aur: true,
            packages: vec![],
        },
    );
    assert_eq!(all.len(), 1);
    assert_eq!(all[0].name, "zsh");
    assert_eq!(all[0].source, "PACMAN");
    assert_eq!(all[0].installed, "5.9");
    assert_eq!(all[0].available, "5.9.1");

    let no_repo = collect_updates(
        &doc,
        &UpdatesFilter {
            manifest: String::new(),
            accept: vec![],
            reject: vec![],
            allow_repo: false,
            allow_aur: true,
            packages: vec![],
        },
    );
    assert!(no_repo.is_empty());

    let rejected = collect_updates(
        &doc,
        &UpdatesFilter {
            manifest: String::new(),
            accept: vec![],
            reject: vec!["^zsh$".to_string()],
            allow_repo: true,
            allow_aur: true,
            packages: vec![],
        },
    );
    assert!(rejected.is_empty());

    let accepted = collect_updates(
        &doc,
        &UpdatesFilter {
            manifest: String::new(),
            accept: vec!["^z".to_string()],
            reject: vec![],
            allow_repo: true,
            allow_aur: true,
            packages: vec![],
        },
    );
    assert_eq!(accepted.len(), 1);

    let unmatched = collect_updates(
        &doc,
        &UpdatesFilter {
            manifest: String::new(),
            accept: vec!["^nomatch".to_string()],
            reject: vec![],
            allow_repo: true,
            allow_aur: true,
            packages: vec![],
        },
    );
    assert!(unmatched.is_empty());
}

#[test]
fn refresh_application_metadata_summarizes_state() {
    let (packages, upstream) = sample();
    let mut doc = build_manifest(&packages, &upstream, "t");
    assert!(doc.metadata.apps_flatpak.is_none());
    doc.refresh_application_metadata();
    assert_eq!(doc.metadata.apps_flatpak, Some(false));
    assert_eq!(doc.metadata.apps_fwupd, Some(false));
    let state = doc.metadata.application_state.unwrap();
    assert_eq!(state.flatpak, 0);
    assert_eq!(state.fwupd, 0);
}
