use synsyu_core::config::SpacePolicy;
use synsyu_core::space::{
    assess_default_paths, check_capacity, check_package_capacity, default_candidate_paths,
    ensure_capacity, format_bytes, space_exit_code, CandidateProbe, PackageSpaceCheck,
    SpaceReport,
};

fn report(path: &str, available: u64) -> SpaceReport {
    SpaceReport {
        checked_path: path.to_string(),
        available_bytes: available,
    }
}

#[test]
fn format_bytes_human_readable() {
    assert_eq!(format_bytes(0), "0 B");
    assert_eq!(format_bytes(1024), "1 KiB");
    assert_eq!(format_bytes(10 * 1024 * 1024), "10 MiB");
    assert_eq!(format_bytes(5 * 1024 * 1024 * 1024), "5 GiB");
}

#[test]
fn format_bytes_fractional_and_large() {
    assert_eq!(format_bytes(1), "1 B");
    assert_eq!(format_bytes(1536), "1.5 KiB");
    assert_eq!(format_bytes(1023), "1023 B");
    assert_eq!(format_bytes(1024 * 1024 - 1), "1024 KiB");
    assert_eq!(format_bytes(2560), "2.5 KiB");
}

#[test]
fn ensure_capacity_passes_when_available() {
    let report = report("/", 8 * 1024 * 1024 * 1024);
    assert!(
        ensure_capacity(&report, 6 * 1024 * 1024 * 1024, 1, 1, 1, 1).is_ok(),
        "expected capacity check to succeed"
    );
}

#[test]
fn ensure_capacity_fails_with_message() {
    let report = report("/var", 512 * 1024 * 1024);
    let err = ensure_capacity(
        &report,
        2 * 1024 * 1024 * 1024,
        300 * 1024 * 1024,
        900 * 1024 * 1024,
        300 * 1024 * 1024,
        500 * 1024 * 1024,
    )
    .expect_err("expected capacity failure");
    assert!(
        err.contains("Insufficient space"),
        "error message should mention insufficiency"
    );
    assert!(
        err.contains("download") && err.contains("build") && err.contains("buffer"),
        "error message should enumerate components"
    );
}

#[test]
fn assessor_returns_most_constrained() {
    let probes = vec![
        CandidateProbe {
            path: "/var/cache/pacman/pkg".to_string(),
            outcome: Ok(500),
        },
        CandidateProbe {
            path: "/var/tmp".to_string(),
            outcome: Ok(300),
        },
        CandidateProbe {
            path: "/tmp".to_string(),
            outcome: Ok(800),
        },
    ];
    let report = assess_default_paths(&probes).expect("expected a report");
    assert_eq!(report.available_bytes, 300);
    assert_eq!(report.checked_path, "/var/tmp");
}

#[test]
fn assessor_fails_with_no_candidates() {
    let probes: Vec<CandidateProbe> = Vec::new();
    assert!(assess_default_paths(&probes).is_err());
}

#[test]
fn assessor_skips_failed_probes() {
    let probes = vec![
        CandidateProbe {
            path: "/a".to_string(),
            outcome: Err(synsyu_core::error::SynsyuError::Filesystem(
                "query failed".to_string(),
            )),
        },
        CandidateProbe {
            path: "/b".to_string(),
            outcome: Ok(700),
        },
    ];
    let report = assess_default_paths(&probes).expect("a later candidate succeeded");
    assert_eq!(report.available_bytes, 700);
    assert_eq!(report.checked_path, "/b");
}

#[test]
fn assessor_fails_only_when_all_probes_fail() {
    let probes = vec![
        CandidateProbe {
            path: "/a".to_string(),
            outcome: Err(synsyu_core::error::SynsyuError::Filesystem(
                "first failure".to_string(),
            )),
        },
        CandidateProbe {
            path: "/b".to_string(),
            outcome: Err(synsyu_core::error::SynsyuError::Filesystem(
                "second failure".to_string(),
            )),
        },
    ];
    let err = assess_default_paths(&probes).expect_err("every query failed");
    assert!(err.message().contains("first failure"));
}

#[test]
fn assessor_error_after_success_is_ignored() {
    let probes = vec![
        CandidateProbe {
            path: "/a".to_string(),
            outcome: Ok(700),
        },
        CandidateProbe {
            path: "/b".to_string(),
            outcome: Err(synsyu_core::error::SynsyuError::Filesystem(
                "query failed".to_string(),
            )),
        },
    ];
    let report = assess_default_paths(&probes).expect("expected a report");
    assert_eq!(report.available_bytes, 700);
}

#[test]
fn default_candidates_are_in_priority_order() {
    let paths = default_candidate_paths();
    assert_eq!(
        paths,
        vec!["/var/cache/pacman/pkg", "/var/tmp", "/tmp", "/"]
    );
}

#[test]
fn enforce_policy_blocks_on_shortfall() {
    let report = report("/var/tmp", 900);
    let check = check_capacity(SpacePolicy::Enforce, false, &report, 1000, 0, 0, 0, 0, 0);
    assert!(!check.ok);
    assert!(check.blocking);
    let message = check.message.expect("a shortfall message");
    assert!(message.contains("Insufficient space"));
}

#[test]
fn warn_policy_reports_without_blocking() {
    let report = report("/var/tmp", 900);
    let check = check_capacity(SpacePolicy::Warn, false, &report, 1000, 0, 0, 0, 0, 0);
    assert!(!check.ok);
    assert!(!check.blocking);
    assert!(check.message.expect("a warning").contains("Insufficient space"));
}

#[test]
fn dry_run_downgrades_enforce_to_warning() {
    let report = report("/var/tmp", 900);
    let check = check_capacity(SpacePolicy::Enforce, true, &report, 1000, 0, 0, 0, 0, 0);
    assert!(!check.ok);
    assert!(!check.blocking);
}

#[test]
fn sufficient_capacity_passes_the_check() {
    let report = report("/var/tmp", 5000);
    let check = check_capacity(SpacePolicy::Enforce, false, &report, 1000, 0, 0, 0, 500, 0);
    assert!(check.ok);
    assert!(!check.blocking);
    assert!(check.message.is_none());
}

fn entry_with_sizes(
    download: Option<u64>,
    build: Option<u64>,
    install: Option<u64>,
    transient: Option<u64>,
) -> synsyu_core::manifest::ManifestEntry {
    synsyu_core::manifest::ManifestEntry {
        installed_version: "1.0".to_string(),
        repository: Some("extra".to_string()),
        repo_version: None,
        archive_version: None,
        source: synsyu_core::manifest::PackageSource::Pacman,
        newer_version: None,
        update_available: true,
        notes: None,
        installed_size: None,
        install_date: None,
        validated_by: None,
        package_hash: None,
        download_size_selected: download,
        installed_size_selected: None,
        install_size_estimate: install,
        build_size_estimate: build,
        transient_size_estimate: transient,
    }
}

#[test]
fn package_capacity_uses_entry_telemetry() {
    let report = report("/var/tmp", 1000);
    let entry = entry_with_sizes(Some(300), Some(200), Some(100), None);
    match check_package_capacity(&entry, None, &report, 0) {
        PackageSpaceCheck::Fits { required_total } => assert_eq!(required_total, 600),
        other => panic!("expected a fit, got {other:?}"),
    }
    match check_package_capacity(&entry, None, &report, 500) {
        PackageSpaceCheck::Short { required_total, message } => {
            assert_eq!(required_total, 1100);
            assert!(message.contains("download") && message.contains("buffer"));
        }
        other => panic!("expected a shortfall, got {other:?}"),
    }
}

#[test]
fn package_capacity_prefers_live_sizes_and_flags_missing_telemetry() {
    let report = report("/var/tmp", 1000);
    let entry = entry_with_sizes(Some(300), Some(200), Some(100), None);
    let live = synsyu_core::reconcile::VersionInfo::new("2.0".to_string(), Some(50), Some(60));
    // live data overrides download and install and zeroes the build
    match check_package_capacity(&entry, Some(&live), &report, 0) {
        PackageSpaceCheck::Fits { required_total } => assert_eq!(required_total, 110),
        other => panic!("expected a fit, got {other:?}"),
    }
    let bare = entry_with_sizes(None, None, None, None);
    assert!(matches!(
        check_package_capacity(&bare, None, &report, 0),
        PackageSpaceCheck::NoTelemetry
    ));
    // a recorded transient estimate wins over the component sum
    let with_transient = entry_with_sizes(Some(300), Some(200), Some(100), Some(2000));
    match check_package_capacity(&with_transient, None, &report, 0) {
        PackageSpaceCheck::Short { required_total, .. } => assert_eq!(required_total, 2000),
        other => panic!("expected a shortfall, got {other:?}"),
    }
}

#[test]
fn space_exit_codes_rank_failures_over_unknowns() {
    assert_eq!(space_exit_code(1, 5), 1);
    assert_eq!(space_exit_code(0, 2), 2);
    assert_eq!(space_exit_code(0, 0), 0);
}
