use synsyu_core::fwupd::{collect_fwupd_updates, FwupdRawRelease, FwupdUpdateDevice};
use synsyu_core::log_api::{log_hash_line, log_line, prune_by_age, prune_by_size, LogFileMeta};
use synsyu_core::pacman::{
    build_aur_query, classify_aur_packages, enumerate_installed_packages, find_repo_version,
    parse_pacman_size, query_repo_versions,
};
use synsyu_core::plan::{parse_flatpak_update_lines, parse_update_lines};
use synsyu_core::version::{parse_vercmp_output, VersionOrder};

#[test]
fn pacman_sizes_parse_to_bytes() {
    assert_eq!(parse_pacman_size("0 B"), Some(0));
    assert_eq!(parse_pacman_size("10 KiB"), Some(10240));
    assert_eq!(parse_pacman_size("6.50 MiB"), Some(6815744));
    assert_eq!(parse_pacman_size("1,024 KiB"), Some(1048576));
    assert_eq!(parse_pacman_size("2.5"), Some(3));
    assert_eq!(parse_pacman_size("1.25 KiB"), Some(1280));
    assert_eq!(parse_pacman_size(""), None);
    assert_eq!(parse_pacman_size("abc MiB"), None);
    assert_eq!(parse_pacman_size("1.2.3 KiB"), None);
}

#[test]
fn vercmp_verdicts_follow_the_sign() {
    assert_eq!(parse_vercmp_output("-1\n"), Some(VersionOrder::Less));
    assert_eq!(parse_vercmp_output("0"), Some(VersionOrder::Equal));
    assert_eq!(parse_vercmp_output(" 1 "), Some(VersionOrder::Greater));
    assert_eq!(parse_vercmp_output("+2"), Some(VersionOrder::Greater));
    assert_eq!(parse_vercmp_output("-0"), Some(VersionOrder::Equal));
    assert_eq!(parse_vercmp_output("x"), None);
    assert_eq!(parse_vercmp_output(""), None);
    assert_eq!(parse_vercmp_output("99999999999999999999"), None);
}

#[test]
fn installed_packages_parse_and_sort() {
    let output = "Name            : zsh\n\
                  Version         : 5.9-1\n\
                  Repository      : extra\n\
                  Installed Size  : 6.5 MiB\n\
                  Install Date    : Mon 01 Jan 2025 10:00:00\n\
                  \n\
                  Name            : bash\n\
                  Version         : 5.2-1\n\
                  Validated By    : Signature\n\
                  SHA-256 Sum     : 0123456789abcdef0123456789abcdef\n";
    let foreign = vec!["bash".to_string()];
    let packages = enumerate_installed_packages(output, &foreign);
    assert_eq!(packages.len(), 2);
    assert_eq!(packages[0].name, "bash");
    assert_eq!(packages[0].version, "5.2-1");
    // no repository tag and listed as foreign: attributed to the local tag
    assert_eq!(packages[0].repository.as_deref(), Some("local"));
    assert_eq!(packages[0].validated_by.as_deref(), Some("Signature"));
    assert_eq!(
        packages[0].package_hash.as_deref(),
        Some("0123456789abcdef0123456789abcdef")
    );
    assert_eq!(packages[1].name, "zsh");
    assert_eq!(packages[1].repository.as_deref(), Some("extra"));
    assert_eq!(packages[1].installed_size, Some(6815744));
    assert_eq!(
        packages[1].install_date.as_deref(),
        Some("Mon 01 Jan 2025 10:00:00")
    );
}

#[test]
fn unknown_package_without_foreign_tag_is_repository() {
    let output = "Name : tool\nVersion : 1.0\n";
    let foreign: Vec<String> = Vec::new();
    let packages = enumerate_installed_packages(output, &foreign);
    assert_eq!(packages.len(), 1);
    assert_eq!(packages[0].repository.as_deref(), Some("pacman"));
}

#[test]
fn repo_versions_parse_per_block() {
    let output = "Name          : zsh\n\
                  Version       : 5.9-2\n\
                  Download Size : 1.5 MiB\n\
                  Installed Size: 6.5 MiB\n\
                  \n\
                  Name          : bash\n\
                  Version       : 5.2-2\n";
    let versions = query_repo_versions(output);
    assert_eq!(versions.len(), 2);
    assert_eq!(versions[0].name, "zsh");
    assert_eq!(versions[0].info.version, "5.9-2");
    assert_eq!(versions[0].info.download_size, Some(1572864));
    assert_eq!(versions[0].info.installed_size, Some(6815744));
    assert_eq!(versions[1].name, "bash");
    assert_eq!(versions[1].info.download_size, None);

    let found = find_repo_version(&versions, "bash").expect("bash present");
    assert_eq!(found.version, "5.2-2");
    assert!(find_repo_version(&versions, "nope").is_none());
}

#[test]
fn update_lines_need_an_arrow() {
    let output = "zsh 5.9-1 -> 5.9-2\nnoise line\nbash 5.2-1 -> 5.2-2 extra\n";
    let updates = parse_update_lines(output);
    assert_eq!(updates.len(), 2);
    assert_eq!(updates[0].name, "zsh");
    assert_eq!(updates[0].installed, "5.9-1");
    assert_eq!(updates[0].available, "5.9-2");
    assert_eq!(updates[1].name, "bash");
}

#[test]
fn flatpak_update_lines_take_columns() {
    let output = "org.example.App stable flathub 1.2.3\nshort line\norg.other.App beta origin2\n";
    let updates = parse_flatpak_update_lines(output);
    assert_eq!(updates.len(), 2);
    assert_eq!(updates[0].name, "org.example.App");
    assert_eq!(updates[0].branch, "stable");
    assert_eq!(updates[0].origin, "flathub");
    assert_eq!(updates[0].available, "1.2.3");
    assert_eq!(updates[1].available, "");
}

fn release(version: Option<&str>, checksum: Option<&str>) -> FwupdRawRelease {
    FwupdRawRelease {
        version: version.map(|v| v.to_string()),
        summary: None,
        description: None,
        checksum: checksum.map(|c| c.to_string()),
        checksums: None,
        checksums_alt: None,
        trust_flags: None,
        trust_flags_alt: None,
        signed: Some(true),
    }
}

#[test]
fn installed_firmware_release_never_listed() {
    let device = FwupdUpdateDevice {
        device_id: Some("dev1".to_string()),
        id: None,
        name: Some("Disk".to_string()),
        installed: Some("1.0".to_string()),
        releases: Some(vec![
            release(Some("1.0"), Some("aaaa")),
            release(Some("2.0"), Some("bbbbccccddddeeeeffff")),
            release(None, Some("cccc")),
        ]),
        releases_alt: None,
    };
    let updates = collect_fwupd_updates(vec![device]);
    assert_eq!(updates.len(), 1);
    assert_eq!(updates[0].available, "2.0");
    assert_eq!(updates[0].device, "dev1");
    assert_eq!(updates[0].installed, "1.0");
    // hashes are cut to the fixed display length
    assert_eq!(updates[0].available_hash, "bbbbccccddddeeee");
    assert_eq!(updates[0].trust, "signed");
}

#[test]
fn empty_scalar_checksum_falls_through_to_lists() {
    let device = FwupdUpdateDevice {
        device_id: Some("dev2".to_string()),
        id: None,
        name: Some("Board".to_string()),
        installed: Some("1.0".to_string()),
        releases: Some(vec![FwupdRawRelease {
            version: Some("2.0".to_string()),
            summary: None,
            description: None,
            checksum: Some(String::new()),
            checksums: Some(vec![String::new(), "dddd".to_string()]),
            checksums_alt: None,
            trust_flags: None,
            trust_flags_alt: None,
            signed: None,
        }]),
        releases_alt: None,
    };
    let updates = collect_fwupd_updates(vec![device]);
    assert_eq!(updates.len(), 1);
    // the empty explicit checksum is skipped; the first non-empty list
    // entry wins
    assert_eq!(updates[0].available_hash, "dddd");
}

#[test]
fn duplicate_repo_blocks_resolve_to_the_last() {
    let output = "Name : zsh\nVersion : 5.9-1\nDownload Size : 1 KiB\n\n\
                  Name : zsh\nVersion : 5.9-2\nDownload Size : 2 KiB\n";
    let versions = query_repo_versions(output);
    assert_eq!(versions.len(), 2);
    let found = find_repo_version(&versions, "zsh").expect("zsh present");
    assert_eq!(found.version, "5.9-2");
    assert_eq!(found.download_size, Some(2048));
}

#[test]
fn build_info_labels_compose() {
    let info = synsyu_core::build_info::BuildInfo {
        source: "release".to_string(),
        git_commit: "abc123".to_string(),
        aur_commit: String::new(),
        aur_pkgver: "1.2".to_string(),
        aur_pkgrel: "3".to_string(),
        aur_epoch: "2".to_string(),
        build_time: String::new(),
        features: String::new(),
        version: "0.1.0".to_string(),
        rustc_version: "rustc".to_string(),
        build_profile: "release".to_string(),
        target: "linux".to_string(),
    };
    assert_eq!(info.aur_package_label(), "2:1.2-3");
    assert_eq!(
        info.summary(),
        "0.1.0 (source=release git=abc123 aur_pkg=2:1.2-3 aur_commit=n/a rustc=rustc \
         profile=release target=linux built=unknown features=none)"
    );
    let bare = synsyu_core::build_info::BuildInfo {
        aur_pkgver: String::new(),
        aur_epoch: "0".to_string(),
        ..info
    };
    assert_eq!(bare.aur_package_label(), "n/a");
}

#[test]
fn log_lines_and_hash_lines_format_exactly() {
    assert_eq!(
        log_line("2025-01-01T00:00:00Z", "INFO", "INIT", "ready"),
        "2025-01-01T00:00:00Z [INFO] [INIT] ready\n"
    );
    // digest of the empty input
    assert_eq!(
        log_hash_line(&Vec::new(), "core.log"),
        "e3b0c44298fc1c149afbf4c8996fb92427ae41e4649b934ca495991b7852b855  core.log\n"
    );
}

#[test]
fn prune_selections_follow_the_policies() {
    let files = vec![
        LogFileMeta {
            name: "a.log".to_string(),
            mtime: 100,
            size: 40,
        },
        LogFileMeta {
            name: "b.txt".to_string(),
            mtime: 100,
            size: 40,
        },
        LogFileMeta {
            name: "c.log".to_string(),
            mtime: 300,
            size: 40,
        },
    ];
    assert_eq!(prune_by_age(&files, 200), vec!["a.log"]);
    // oldest first: delete until the remaining total fits 50 bytes
    assert_eq!(prune_by_size(&files, 50), vec!["a.log", "b.txt"]);
    assert_eq!(prune_by_size(&files, 500), Vec::<String>::new());
}

#[test]
fn aur_query_encodes_names() {
    let names = vec!["zsh".to_string(), "my tool+".to_string()];
    let query = build_aur_query("https://aur.archlinux.org/rpc/", &names);
    assert_eq!(
        query,
        "https://aur.archlinux.org/rpc/?v=5&type=info&arg[]=zsh&arg[]=my%20tool%2B"
    );
}

#[test]
fn filter_packages_selects_and_reports_missing() {
    let mk = |name: &str| synsyu_core::pacman::InstalledPackage {
        name: name.to_string(),
        version: "1.0".to_string(),
        repository: Some("core".to_string()),
        installed_size: None,
        install_date: None,
        validated_by: None,
        package_hash: None,
    };
    let installed = vec![mk("zsh"), mk("bash")];
    let (all, missing) = synsyu_core::pacman::filter_packages(&installed, &Vec::new());
    assert_eq!(all.len(), 2);
    assert_eq!(all[0].name, "bash");
    assert_eq!(all[1].name, "zsh");
    assert!(missing.is_empty());

    let requested = vec!["zsh".to_string(), "nope".to_string()];
    let (some, missing) = synsyu_core::pacman::filter_packages(&installed, &requested);
    assert_eq!(some.len(), 1);
    assert_eq!(some[0].name, "zsh");
    assert_eq!(missing, vec!["nope"]);
}

#[test]
fn foreign_packages_found_in_archive_are_reclassified() {
    let mut packages = vec![
        synsyu_core::pacman::InstalledPackage {
            name: "mytool".to_string(),
            version: "1.0".to_string(),
            repository: Some("local".to_string()),
            installed_size: None,
            install_date: None,
            validated_by: None,
            package_hash: None,
        },
        synsyu_core::pacman::InstalledPackage {
            name: "bash".to_string(),
            version: "5.2".to_string(),
            repository: Some("core".to_string()),
            installed_size: None,
            install_date: None,
            validated_by: None,
            package_hash: None,
        },
    ];
    let found = vec!["mytool".to_string(), "bash".to_string()];
    classify_aur_packages(&mut packages, &found);
    assert_eq!(packages[0].repository.as_deref(), Some("aur"));
    // a package with a real repository tag is untouched
    assert_eq!(packages[1].repository.as_deref(), Some("core"));
}
