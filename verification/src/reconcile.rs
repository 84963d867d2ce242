//! The source reconciler: for each installed package, combine the optional
//! repository version info and the optional archive version info into one
//! chosen source, target version, and update-available verdict; and the size
//! estimator, which derives download/build/install/transient byte estimates
//! from whatever size telemetry is available.

use vstd::prelude::*;

verus! {

use crate::manifest::PackageSource;
use crate::text;
use crate::version::VersionOrder;

/// Version and size telemetry from one upstream source for one package.
#[derive(Debug)]
pub struct VersionInfo {
    pub version: String,
    pub download_size: Option<u64>,
    pub installed_size: Option<u64>,
}

/// Mathematical model of a `VersionInfo`.
pub ghost struct VersionInfoModel {
    pub version: Seq<char>,
    pub download_size: Option<u64>,
    pub installed_size: Option<u64>,
}

impl View for VersionInfo {
    type V = VersionInfoModel;

    open spec fn view(&self) -> VersionInfoModel {
        VersionInfoModel {
            version: self.version@,
            download_size: self.download_size,
            installed_size: self.installed_size,
        }
    }
}

impl Clone for VersionInfo {
    fn clone(&self) -> (r: Self)
        ensures
            r@ == self@,
    {
        VersionInfo {
            version: self.version.clone(),
            download_size: self.download_size,
            installed_size: self.installed_size,
        }
    }
}

impl VersionInfo {
    pub fn new(version: String, download_size: Option<u64>, installed_size: Option<u64>) -> (r:
        Self)
        ensures
            r@.version == version@,
            r@.download_size == download_size,
            r@.installed_size == installed_size,
    {
        VersionInfo { version, download_size, installed_size }
    }
}

/// The view of an optional borrowed `VersionInfo`.
pub open spec fn opt_info_view(v: Option<&VersionInfo>) -> Option<VersionInfoModel> {
    match v {
        Some(i) => Some(i@),
        None => None,
    }
}

/// The view of an optional borrowed string.
pub open spec fn opt_str_view(v: Option<&String>) -> Option<Seq<char>> {
    match v {
        Some(s) => Some(s@),
        None => None,
    }
}

/// The version oracle's verdicts on the pairs the reconciler may need.
/// `None` means the oracle failed or was not consulted for that pair.
#[derive(Debug, Clone, Copy, PartialEq, Eq, Structural)]
pub struct ReconcileVerdicts {
    pub installed_vs_repo: Option<VersionOrder>,
    pub installed_vs_archive: Option<VersionOrder>,
    pub repo_vs_archive: Option<VersionOrder>,
}

/// Outcome of reconciling one package.
#[derive(Debug, Clone)]
pub struct Resolution {
    pub source: PackageSource,
    pub newer_version: Option<String>,
    pub update_available: bool,
    pub notes: Option<String>,
    pub oracle_failed: bool,
}

/// Mathematical model of a `Resolution`.
pub ghost struct ResolutionModel {
    pub source: PackageSource,
    pub newer_version: Option<Seq<char>>,
    pub update_available: bool,
    pub notes: Option<Seq<char>>,
    pub oracle_failed: bool,
}

impl View for Resolution {
    type V = ResolutionModel;

    open spec fn view(&self) -> ResolutionModel {
        ResolutionModel {
            source: self.source,
            newer_version: match self.newer_version {
                Some(ref v) => Some(v@),
                None => None,
            },
            update_available: self.update_available,
            notes: match self.notes {
                Some(ref n) => Some(n@),
                None => None,
            },
            oracle_failed: self.oracle_failed,
        }
    }
}

/// The note attached to a package whose version comparison failed.
pub open spec fn oracle_failure_note() -> Seq<char> {
    "version comparison failed; source left unknown"@
}

/// A reconciliation that had to give up because the oracle failed: the
/// package keeps an `Unknown` source and no update is claimed.
pub open spec fn spec_oracle_failure() -> ResolutionModel {
    ResolutionModel {
        source: PackageSource::Unknown,
        newer_version: None,
        update_available: false,
        notes: Some(oracle_failure_note()),
        oracle_failed: true,
    }
}

/// A resolution against one upstream source: the source's version becomes
/// the resolved target version, and an update is available exactly when
/// the installed version is strictly older.
pub open spec fn spec_single_source(
    source: PackageSource,
    version: Seq<char>,
    verdict: Option<VersionOrder>,
) -> ResolutionModel {
    match verdict {
        None => spec_oracle_failure(),
        Some(o) => ResolutionModel {
            source,
            newer_version: Some(version),
            update_available: o == VersionOrder::Less,
            notes: None,
            oracle_failed: false,
        },
    }
}

/// Whether an origin tag marks a package as locally built.
pub open spec fn is_local_tag(origin: Option<Seq<char>>) -> bool {
    match origin {
        Some(t) => text::eq_ignore_case(t, "local"@),
        None => false,
    }
}

/// The reconciliation of one package, by precedence with tie-break:
/// repository info alone or archive info alone decides against that source;
/// with both, the repository wins unless the archive version is strictly
/// newer; with neither, the origin tag decides between a local build and an
/// unknown source. A missing oracle verdict aborts the package with an
/// `Unknown` source rather than guessing.
pub open spec fn spec_reconcile(
    origin: Option<Seq<char>>,
    repo: Option<VersionInfoModel>,
    archive: Option<VersionInfoModel>,
    v: ReconcileVerdicts,
) -> ResolutionModel {
    match (repo, archive) {
        (Some(r), None) => spec_single_source(
            PackageSource::Pacman,
            r.version,
            v.installed_vs_repo,
        ),
        (None, Some(a)) => spec_single_source(
            PackageSource::Aur,
            a.version,
            v.installed_vs_archive,
        ),
        (Some(r), Some(a)) => match v.repo_vs_archive {
            None => spec_oracle_failure(),
            Some(VersionOrder::Less) => spec_single_source(
                PackageSource::Aur,
                a.version,
                v.installed_vs_archive,
            ),
            Some(_) => spec_single_source(
                PackageSource::Pacman,
                r.version,
                v.installed_vs_repo,
            ),
        },
        (None, None) => ResolutionModel {
            source: if is_local_tag(origin) {
                PackageSource::Local
            } else {
                PackageSource::Unknown
            },
            newer_version: None,
            update_available: false,
            notes: None,
            oracle_failed: false,
        },
    }
}

/// Reconcile one package's upstream data into a source and update verdict.
pub fn reconcile(
    origin: Option<&String>,
    repo: Option<&VersionInfo>,
    archive: Option<&VersionInfo>,
    verdicts: &ReconcileVerdicts,
) -> (r: Resolution)
    ensures
        r@ == spec_reconcile(opt_str_view(origin), opt_info_view(repo), opt_info_view(archive),
            *verdicts),
{
    match (repo, archive) {
        (Some(r), None) => single_source(PackageSource::Pacman, r, verdicts.installed_vs_repo),
        (None, Some(a)) => single_source(PackageSource::Aur, a, verdicts.installed_vs_archive),
        (Some(r), Some(a)) => {
            match verdicts.repo_vs_archive {
                None => oracle_failure(),
                Some(VersionOrder::Less) => single_source(
                    PackageSource::Aur,
                    a,
                    verdicts.installed_vs_archive,
                ),
                Some(_) => single_source(PackageSource::Pacman, r, verdicts.installed_vs_repo),
            }
        },
        (None, None) => {
            let local = match origin {
                Some(t) => text::str_eq_ignore_case(t.as_str(), "local"),
                None => false,
            };
            Resolution {
                source: if local {
                    PackageSource::Local
                } else {
                    PackageSource::Unknown
                },
                newer_version: None,
                update_available: false,
                notes: None,
                oracle_failed: false,
            }
        },
    }
}

fn oracle_failure() -> (r: Resolution)
    ensures
        r@ == spec_oracle_failure(),
{
    Resolution {
        source: PackageSource::Unknown,
        newer_version: None,
        update_available: false,
        notes: Some("version comparison failed; source left unknown".to_owned()),
        oracle_failed: true,
    }
}

fn single_source(source: PackageSource, info: &VersionInfo, verdict: Option<VersionOrder>) -> (r:
    Resolution)
    ensures
        r@ == spec_single_source(source, info@.version, verdict),
{
    match verdict {
        None => oracle_failure(),
        Some(o) => Resolution {
            source,
            newer_version: Some(info.version.clone()),
            update_available: o == VersionOrder::Less,
            notes: None,
            oracle_failed: false,
        },
    }
}

/// With only a repository version available, an update is reported exactly
/// when the oracle put the installed version strictly before the repository
/// version; an equal or greater installed version reports none.
pub proof fn lemma_repo_only_update_iff(
    origin: Option<Seq<char>>,
    repo: VersionInfoModel,
    v: ReconcileVerdicts,
)
    requires
        v.installed_vs_repo is Some,
    ensures
        spec_reconcile(origin, Some(repo), None, v).update_available <==> v.installed_vs_repo
            == Some(VersionOrder::Less),
        v.installed_vs_repo == Some(VersionOrder::Equal) || v.installed_vs_repo == Some(
            VersionOrder::Greater,
        ) ==> !spec_reconcile(origin, Some(repo), None, v).update_available,
{
}

/// Tie-break: when the repository and archive versions are equal, the
/// resolved source is the repository, never the archive.
pub proof fn lemma_tie_prefers_repository(
    origin: Option<Seq<char>>,
    repo: VersionInfoModel,
    archive: VersionInfoModel,
    v: ReconcileVerdicts,
)
    requires
        v.repo_vs_archive == Some(VersionOrder::Equal),
    ensures
        spec_reconcile(origin, Some(repo), Some(archive), v).source != PackageSource::Aur,
        v.installed_vs_repo is Some ==> spec_reconcile(origin, Some(repo), Some(archive), v).source
            == PackageSource::Pacman,
{
}

/// Saturating `u64` value of a non-negative mathematical integer.
pub open spec fn sat64(x: int) -> u64 {
    if x > u64::MAX {
        u64::MAX
    } else {
        x as u64
    }
}

/// The derived size estimates for one package.
#[derive(Debug, Clone, Copy, PartialEq, Eq, Structural)]
pub struct SizeEstimates {
    pub download_selected: Option<u64>,
    pub installed_selected: Option<u64>,
    pub install_estimate: Option<u64>,
    pub build_estimate: Option<u64>,
    pub transient_estimate: Option<u64>,
}

/// The first of two optional values, preferring the first.
pub open spec fn first_some(a: Option<u64>, b: Option<u64>) -> Option<u64> {
    if a is Some {
        a
    } else {
        b
    }
}

/// Size telemetry taken from the chosen source, falling back to the other.
pub open spec fn spec_selected(
    source: PackageSource,
    repo: Option<VersionInfoModel>,
    archive: Option<VersionInfoModel>,
) -> (Option<u64>, Option<u64>) {
    let chosen = if source == PackageSource::Aur {
        archive
    } else {
        repo
    };
    let other = if source == PackageSource::Aur {
        repo
    } else {
        archive
    };
    let download = first_some(
        match chosen {
            Some(i) => i.download_size,
            None => None,
        },
        match other {
            Some(i) => i.download_size,
            None => None,
        },
    );
    let installed = first_some(
        match chosen {
            Some(i) => i.installed_size,
            None => None,
        },
        match other {
            Some(i) => i.installed_size,
            None => None,
        },
    );
    (download, installed)
}

/// The documented estimation heuristics. Install: the known installed size,
/// else twice the download for archive packages (they typically compile to
/// roughly double their source archive), else the download size. Build:
/// repository packages stage about one and a half times their install size,
/// rounded up; archive packages need eight times their download for
/// compilation staging. Transient: the sum of all three, or nothing when all
/// three are zero.
pub open spec fn spec_estimates(
    source: PackageSource,
    repo: Option<VersionInfoModel>,
    archive: Option<VersionInfoModel>,
) -> SizeEstimates {
    let (download, installed) = spec_selected(source, repo, archive);
    let install = if installed is Some {
        installed
    } else if source == PackageSource::Aur && download is Some {
        Some(sat64(2 * download->Some_0))
    } else {
        download
    };
    let build = if source == PackageSource::Pacman {
        match install {
            Some(i) => Some(sat64(i + (i + 1) / 2)),
            None => None,
        }
    } else if source == PackageSource::Aur {
        match download {
            Some(d) => Some(sat64(8 * d)),
            None => None,
        }
    } else {
        None
    };
    let total = sat64(
        (match download {
            Some(d) => d as int,
            None => 0,
        }) + (match build {
            Some(b) => b as int,
            None => 0,
        }) + (match install {
            Some(i) => i as int,
            None => 0,
        }),
    );
    SizeEstimates {
        download_selected: download,
        installed_selected: installed,
        install_estimate: install,
        build_estimate: build,
        transient_estimate: if total == 0 {
            None
        } else {
            Some(total)
        },
    }
}

/// Add two byte counts, saturating at the maximum.
pub fn sat_add(a: u64, b: u64) -> (r: u64)
    ensures
        r == sat64(a + b),
{
    if a > u64::MAX - b {
        u64::MAX
    } else {
        a + b
    }
}

/// Derive the size estimates for one package from its resolved source and
/// whichever size fields its upstream sources populated.
pub fn estimate_sizes(
    source: PackageSource,
    repo: Option<&VersionInfo>,
    archive: Option<&VersionInfo>,
) -> (r: SizeEstimates)
    ensures
        r == spec_estimates(source, opt_info_view(repo), opt_info_view(archive)),
{
    let is_aur = matches!(source, PackageSource::Aur);
    let (chosen, other) = if is_aur {
        (archive, repo)
    } else {
        (repo, archive)
    };
    let chosen_dl = match chosen {
        Some(i) => i.download_size,
        None => None,
    };
    let other_dl = match other {
        Some(i) => i.download_size,
        None => None,
    };
    let chosen_inst = match chosen {
        Some(i) => i.installed_size,
        None => None,
    };
    let other_inst = match other {
        Some(i) => i.installed_size,
        None => None,
    };
    let download = if chosen_dl.is_some() {
        chosen_dl
    } else {
        other_dl
    };
    let installed = if chosen_inst.is_some() {
        chosen_inst
    } else {
        other_inst
    };
    let install = if installed.is_some() {
        installed
    } else if is_aur && download.is_some() {
        let d = *download.as_ref().unwrap();
        Some(sat_add(d, d))
    } else {
        download
    };
    let build = match source {
        PackageSource::Pacman => {
            match install {
                Some(i) => {
                    proof {
                        assert(i as int / 2 + i as int % 2 == (i as int + 1) / 2);
                    }
                    Some(sat_add(i, i / 2 + i % 2))
                },
                None => None,
            }
        },
        PackageSource::Aur => {
            match download {
                Some(d) => {
                    let d2 = sat_add(d, d);
                    let d4 = sat_add(d2, d2);
                    let d8 = sat_add(d4, d4);
                    proof {
                        // saturation composes under repeated doubling
                        if 2 * d > u64::MAX {
                            assert(d8 == u64::MAX);
                        } else if 4 * d > u64::MAX {
                            assert(d2 == 2 * d);
                            assert(d4 == u64::MAX);
                            assert(d8 == u64::MAX);
                        } else if 8 * d > u64::MAX {
                            assert(d4 == 4 * d);
                            assert(d8 == u64::MAX);
                        } else {
                            assert(d8 == 8 * d);
                        }
                        assert(d8 == sat64(8 * d));
                    }
                    Some(d8)
                },
                None => None,
            }
        },
        _ => None,
    };
    let d0 = match download {
        Some(d) => d,
        None => 0,
    };
    let b0 = match build {
        Some(b) => b,
        None => 0,
    };
    let i0 = match install {
        Some(i) => i,
        None => 0,
    };
    let total = sat_add(sat_add(d0, b0), i0);
    proof {
        assert(sat64(sat64(d0 + b0) + i0) == sat64(d0 + b0 + i0)) by {
            if d0 + b0 > u64::MAX {
                assert(sat64(d0 + b0) == u64::MAX);
            }
        }
    }
    SizeEstimates {
        download_selected: download,
        installed_selected: installed,
        install_estimate: install,
        build_estimate: build,
        transient_estimate: if total == 0 {
            None
        } else {
            Some(total)
        },
    }
}

} // verus!
