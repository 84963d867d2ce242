//! Disk capacity assessment: pick the most space-constrained filesystem
//! among a fixed candidate list, format byte counts for operators, and
//! hold update plans to a required-total-plus-buffer threshold under a
//! configurable warn/enforce policy.

use vstd::prelude::*;

verus! {

use vstd::string::StringExecFns;
use crate::config::SpacePolicy;
use crate::error::SynsyuError;
use crate::reconcile::{sat64, sat_add};
use crate::text;

/// Outcome of a disk space assessment: the chosen filesystem path and the
/// bytes available on it.
#[derive(Debug)]
pub struct SpaceReport {
    pub checked_path: String,
    pub available_bytes: u64,
}

impl Clone for SpaceReport {
    fn clone(&self) -> (r: Self)
        ensures
            r.checked_path@ == self.checked_path@,
            r.available_bytes == self.available_bytes,
    {
        SpaceReport {
            checked_path: self.checked_path.clone(),
            available_bytes: self.available_bytes,
        }
    }
}

/// One candidate filesystem, probed by the caller: the existing path that
/// was examined and the available bytes it reported, or the probe's error.
#[derive(Debug)]
pub struct CandidateProbe {
    pub path: String,
    pub outcome: Result<u64, SynsyuError>,
}

/// The candidate paths tried for capacity checks, in priority order: the
/// package cache, the build staging area, the system temp directory, and the
/// root filesystem.
pub fn default_candidate_paths() -> (r: Vec<String>)
    ensures
        r.deep_view() =~= seq!["/var/cache/pacman/pkg"@, "/var/tmp"@, "/tmp"@, "/"@],
{
    let mut v: Vec<String> = Vec::new();
    v.push("/var/cache/pacman/pkg".to_owned());
    v.push("/var/tmp".to_owned());
    v.push("/tmp".to_owned());
    v.push("/".to_owned());
    proof {
        assert(v.deep_view() =~= seq!["/var/cache/pacman/pkg"@, "/var/tmp"@, "/tmp"@, "/"@]);
    }
    v
}

/// What an assessment over a probe list comes to.
pub ghost enum AssessOutcome {
    /// The probe at this index holds the report to return.
    Chosen { index: int },
    /// Every candidate's query failed; the probe at this index holds the
    /// first error, which is returned.
    Failed { index: int },
    /// There were no candidates at all.
    Empty,
}

/// The selection rule, walking the probes in priority order while holding
/// the best candidate seen and the first error met: a successful probe
/// replaces the held one only when it reports strictly fewer bytes; a
/// failed probe is skipped, and the assessment fails only when no
/// candidate succeeded at all.
pub open spec fn spec_assess_at(
    ps: Seq<CandidateProbe>,
    i: int,
    best: Option<int>,
    first_err: Option<int>,
) -> AssessOutcome
    decreases ps.len() - i,
{
    if i < 0 || i >= ps.len() {
        match best {
            Some(b) => AssessOutcome::Chosen { index: b },
            None => match first_err {
                Some(e) => AssessOutcome::Failed { index: e },
                None => AssessOutcome::Empty,
            },
        }
    } else {
        match ps[i].outcome {
            Ok(bytes) => match best {
                Some(b) => if ps[b].outcome matches Ok(held) && bytes < held {
                    spec_assess_at(ps, i + 1, Some(i), first_err)
                } else {
                    spec_assess_at(ps, i + 1, Some(b), first_err)
                },
                None => spec_assess_at(ps, i + 1, Some(i), first_err),
            },
            Err(_) => spec_assess_at(ps, i + 1, best, match first_err {
                Some(e) => Some(e),
                None => Some(i),
            }),
        }
    }
}

pub open spec fn spec_assess(ps: Seq<CandidateProbe>) -> AssessOutcome {
    spec_assess_at(ps, 0, None, None)
}

/// The assessor is pessimistic and total: whatever report it chooses shows
/// no more available bytes than any successful probe, and it fails only
/// when every candidate's query failed.
pub proof fn lemma_assess_at_most_constrained(
    ps: Seq<CandidateProbe>,
    i: int,
    best: Option<int>,
    first_err: Option<int>,
)
    requires
        0 <= i <= ps.len(),
        match best {
            Some(b) => 0 <= b < i && ps[b].outcome is Ok && (forall|j: int|
                0 <= j < i && ps[j].outcome is Ok ==> ps[b].outcome->Ok_0 <= ps[j].outcome->Ok_0),
            None => forall|j: int| 0 <= j < i ==> !(ps[j].outcome is Ok),
        },
        match first_err {
            Some(e) => 0 <= e < i && ps[e].outcome is Err,
            None => forall|j: int| 0 <= j < i ==> !(ps[j].outcome is Err),
        },
    ensures
        match spec_assess_at(ps, i, best, first_err) {
            AssessOutcome::Chosen { index } => 0 <= index < ps.len() && ps[index].outcome is Ok
                && (forall|j: int|
                0 <= j < ps.len() && ps[j].outcome is Ok ==> ps[index].outcome->Ok_0
                    <= ps[j].outcome->Ok_0),
            AssessOutcome::Failed { index } => 0 <= index < ps.len() && ps[index].outcome is Err
                && (forall|j: int| 0 <= j < ps.len() ==> !(ps[j].outcome is Ok)),
            AssessOutcome::Empty => ps.len() == i && i == 0,
        },
    decreases ps.len() - i,
{
    if i < ps.len() {
        match ps[i].outcome {
            Ok(bytes) => {
                match best {
                    Some(b) => {
                        if ps[b].outcome matches Ok(held) && bytes < held {
                            lemma_assess_at_most_constrained(ps, i + 1, Some(i), first_err);
                        } else {
                            lemma_assess_at_most_constrained(ps, i + 1, Some(b), first_err);
                        }
                    },
                    None => {
                        lemma_assess_at_most_constrained(ps, i + 1, Some(i), first_err);
                    },
                }
            },
            Err(_) => {
                match first_err {
                    Some(e) => {
                        lemma_assess_at_most_constrained(ps, i + 1, best, Some(e));
                    },
                    None => {
                        lemma_assess_at_most_constrained(ps, i + 1, best, Some(i));
                    },
                }
            },
        }
    } else {
        // every probe either succeeded or failed, so with neither a best
        // candidate nor an error the list must have been empty
        if best is None && first_err is None && ps.len() > 0 {
            assert(!(ps[0].outcome is Ok));
            assert(!(ps[0].outcome is Err));
            assert(false);
        }
    }
}

/// The report of a completed assessment is the minimum over every
/// successful probe — the most storage-constrained filesystem wins — and
/// an assessment with at least one successful probe never fails.
pub proof fn lemma_assess_most_constrained(ps: Seq<CandidateProbe>)
    ensures
        spec_assess(ps) matches AssessOutcome::Chosen { index } ==> 0 <= index < ps.len()
            && ps[index].outcome is Ok && (forall|j: int|
            0 <= j < ps.len() && ps[j].outcome is Ok ==> ps[index].outcome->Ok_0
                <= ps[j].outcome->Ok_0),
        spec_assess(ps) matches AssessOutcome::Failed { index } ==> 0 <= index < ps.len()
            && ps[index].outcome is Err && (forall|j: int|
            0 <= j < ps.len() ==> !(ps[j].outcome is Ok)),
{
    lemma_assess_at_most_constrained(ps, 0, None, None);
}

/// Determine the available bytes of the most constrained filesystem among
/// the probed candidates. Failed probes are skipped; the assessment fails
/// only when no candidate's query succeeded — with the first query error,
/// or, with no candidates at all, its own error — never with a silent
/// zero.
pub fn assess_default_paths(probes: &Vec<CandidateProbe>) -> (r: Result<SpaceReport, SynsyuError>)
    ensures
        match spec_assess(probes@) {
            AssessOutcome::Chosen { index } => r matches Ok(rep) && rep.checked_path@
                == probes@[index].path@ && Ok::<u64, SynsyuError>(rep.available_bytes)
                == probes@[index].outcome,
            AssessOutcome::Failed { index } => r matches Err(e) && Err::<u64, SynsyuError>(e)
                == probes@[index].outcome,
            AssessOutcome::Empty => r matches Err(e) && e matches SynsyuError::Runtime(m) && m@
                == "Unable to determine available disk space"@,
        },
{
    let n = probes.len();
    let mut i: usize = 0;
    let mut best: Option<usize> = None;
    let mut first_err: Option<usize> = None;
    while i < n
        invariant
            0 <= i <= n,
            n == probes@.len(),
            match best {
                Some(b) => b < i && probes@[b as int].outcome is Ok,
                None => true,
            },
            match first_err {
                Some(e) => e < i && probes@[e as int].outcome is Err,
                None => true,
            },
            spec_assess(probes@) == spec_assess_at(probes@, i as int, match best {
                Some(b) => Some(b as int),
                None => None,
            }, match first_err {
                Some(e) => Some(e as int),
                None => None,
            }),
        decreases n - i,
    {
        match &probes[i].outcome {
            Ok(bytes) => {
                match best {
                    Some(b) => {
                        let held = match &probes[b].outcome {
                            Ok(h) => *h,
                            Err(_) => 0,
                        };
                        if *bytes < held {
                            best = Some(i);
                        }
                    },
                    None => {
                        best = Some(i);
                    },
                }
            },
            Err(_) => {
                if first_err.is_none() {
                    first_err = Some(i);
                }
            },
        }
        i = i + 1;
    }
    match best {
        Some(b) => {
            let bytes = match &probes[b].outcome {
                Ok(h) => *h,
                Err(_) => 0,
            };
            Ok(SpaceReport { checked_path: probes[b].path.clone(), available_bytes: bytes })
        },
        None => match first_err {
            Some(e) => {
                let err = match &probes[e].outcome {
                    Err(err) => err.clone(),
                    Ok(_) => SynsyuError::Runtime(String::new()),
                };
                proof {
                    assert(probes@[e as int].outcome is Err);
                }
                Err(err)
            },
            None => Err(
                SynsyuError::Runtime("Unable to determine available disk space".to_owned()),
            ),
        },
    }
}

/// The divisor of each binary unit step.
pub open spec fn unit_divisor(u: int) -> int {
    if u == 0 {
        1
    } else if u == 1 {
        1024
    } else if u == 2 {
        1048576
    } else if u == 3 {
        1073741824
    } else if u == 4 {
        1099511627776
    } else {
        1125899906842624
    }
}

/// The unit a byte count is displayed in: the largest unit not above the
/// value, capped at the sixth.
pub open spec fn unit_index(b: int) -> int {
    if b < 1024 {
        0
    } else if b < 1048576 {
        1
    } else if b < 1073741824 {
        2
    } else if b < 1099511627776 {
        3
    } else if b < 1125899906842624 {
        4
    } else {
        5
    }
}

/// The label of each binary unit.
pub open spec fn unit_label(u: int) -> Seq<char> {
    if u == 0 {
        "B"@
    } else if u == 1 {
        "KiB"@
    } else if u == 2 {
        "MiB"@
    } else if u == 3 {
        "GiB"@
    } else if u == 4 {
        "TiB"@
    } else {
        "PiB"@
    }
}

/// `n / d` rounded to the nearest integer, ties to the even neighbour.
pub open spec fn round_half_even(n: int, d: int) -> int {
    let q = n / d;
    let r = n % d;
    if 2 * r < d {
        q
    } else if 2 * r > d {
        q + 1
    } else if q % 2 == 0 {
        q
    } else {
        q + 1
    }
}

/// The concise human-readable rendering of a byte count in binary units:
/// one decimal place for small non-integral values, none otherwise.
pub open spec fn spec_format_bytes(b: u64) -> Seq<char> {
    if b == 0 {
        "0 B"@
    } else {
        let u = unit_index(b as int);
        let d = unit_divisor(u);
        if b as int / d >= 10 || b as int % d == 0 {
            text::spec_digits(round_half_even(b as int, d)) + " "@ + unit_label(u)
        } else {
            let t = round_half_even(10 * (b as int), d);
            text::spec_digits(t / 10) + "."@ + text::spec_digits(t % 10) + " "@ + unit_label(u)
        }
    }
}

/// The label of each binary unit.
fn unit_label_str(u: u8) -> (r: &'static str)
    requires
        u <= 5,
    ensures
        r@ == unit_label(u as int),
{
    if u == 0 {
        "B"
    } else if u == 1 {
        "KiB"
    } else if u == 2 {
        "MiB"
    } else if u == 3 {
        "GiB"
    } else if u == 4 {
        "TiB"
    } else {
        "PiB"
    }
}

/// Divide rounding to nearest, ties to even.
fn div_round_half_even(n: u64, d: u64) -> (r: u64)
    requires
        d >= 1,
    ensures
        r as int == round_half_even(n as int, d as int),
{
    let q = n / d;
    let rem = n % d;
    if rem < d - rem {
        q
    } else {
        proof {
            // the rounded-up branches start from a remainder of at least
            // one, so the divisor is at least two and incrementing the
            // quotient cannot overflow
            assert(rem >= 1 || 2 * rem == d);
            assert(d >= 2 || rem == 0);
            if d >= 2 {
                assert(n as int / d as int <= n as int / 2) by (nonlinear_arith)
                    requires
                        d >= 2,
                        n >= 0,
                ;
            }
        }
        if rem > d - rem {
            q + 1
        } else if q % 2 == 0 {
            q
        } else {
            q + 1
        }
    }
}

/// Format a byte count into a concise human-readable string in binary
/// units.
pub fn format_bytes(bytes: u64) -> (r: String)
    ensures
        r@ == spec_format_bytes(bytes),
{
    if bytes == 0 {
        return "0 B".to_owned();
    }
    let (u, d): (u8, u64) = if bytes < 1024 {
        (0, 1)
    } else if bytes < 1048576 {
        (1, 1024)
    } else if bytes < 1073741824 {
        (2, 1048576)
    } else if bytes < 1099511627776 {
        (3, 1073741824)
    } else if bytes < 1125899906842624 {
        (4, 1099511627776)
    } else {
        (5, 1125899906842624)
    };
    let q = bytes / d;
    let rem = bytes % d;
    if q >= 10 || rem == 0 {
        let v = div_round_half_even(bytes, d);
        let mut r = text::u64_to_string(v);
        r.append(" ");
        r.append(unit_label_str(u));
        r
    } else {
        proof {
            assert(bytes < 10 * d);
            assert(10 * bytes < 100 * d);
            assert(100 * (d as int) <= 112589990684262400);
        }
        let t = div_round_half_even(bytes * 10, d);
        proof {
            // one decimal digit: the scaled quotient stays below 101
            assert(10 * (bytes as int) / (d as int) < 100) by (nonlinear_arith)
                requires
                    (bytes as int) < 10 * (d as int),
                    d >= 1,
            ;
            assert(t as int <= 100);
        }
        let mut r = text::u64_to_string(t / 10);
        r.append(".");
        let frac = text::digit_str(t % 10);
        r.append(frac);
        r.append(" ");
        r.append(unit_label_str(u));
        proof {
            assert(text::spec_digits((t % 10) as int) =~= seq![
                text::digit_char((t % 10) as int),
            ]);
        }
        r
    }
}

/// The diagnostic line for a capacity shortfall, enumerating every
/// component of the requirement.
pub open spec fn spec_capacity_message(
    required: u64,
    download: u64,
    build: u64,
    install: u64,
    margin: u64,
    path: Seq<char>,
    available: u64,
) -> Seq<char> {
    "Insufficient space: need ~"@ + spec_format_bytes(required) + " (download "@
        + spec_format_bytes(download) + " + build "@ + spec_format_bytes(build) + " + install "@
        + spec_format_bytes(install) + " + buffer "@ + spec_format_bytes(margin) + ") on "@ + path
        + "; only "@ + spec_format_bytes(available) + " available"@
}

/// Validate that sufficient space exists; on failure the error describes
/// the full requirement and what is available.
pub fn ensure_capacity(
    report: &SpaceReport,
    required_bytes: u64,
    download_bytes: u64,
    build_bytes: u64,
    install_bytes: u64,
    margin_bytes: u64,
) -> (r: Result<(), String>)
    ensures
        r is Ok <==> report.available_bytes >= required_bytes,
        r matches Err(m) ==> m@ == spec_capacity_message(required_bytes, download_bytes,
            build_bytes, install_bytes, margin_bytes, report.checked_path@,
            report.available_bytes),
{
    if report.available_bytes < required_bytes {
        let mut m = "Insufficient space: need ~".to_owned();
        m.append(format_bytes(required_bytes).as_str());
        m.append(" (download ");
        m.append(format_bytes(download_bytes).as_str());
        m.append(" + build ");
        m.append(format_bytes(build_bytes).as_str());
        m.append(" + install ");
        m.append(format_bytes(install_bytes).as_str());
        m.append(" + buffer ");
        m.append(format_bytes(margin_bytes).as_str());
        m.append(") on ");
        m.append(report.checked_path.as_str());
        m.append("; only ");
        m.append(format_bytes(report.available_bytes).as_str());
        m.append(" available");
        Err(m)
    } else {
        Ok(())
    }
}

/// Whether a shortfall blocks the run: only under the enforce policy, and
/// never in a dry run, where it is downgraded to a warning.
pub open spec fn spec_blocking(policy: SpacePolicy, dry_run: bool, short: bool) -> bool {
    short && policy == SpacePolicy::Enforce && !dry_run
}

/// Under the warn policy a capacity shortfall never blocks, whatever the
/// other inputs.
pub proof fn lemma_warn_never_blocks(dry_run: bool, short: bool)
    ensures
        !spec_blocking(SpacePolicy::Warn, dry_run, short),
{
}

/// Under the enforce policy, outside a dry run, a capacity shortfall
/// always blocks.
pub proof fn lemma_enforce_blocks_on_shortfall(dry_run: bool)
    ensures
        !dry_run ==> spec_blocking(SpacePolicy::Enforce, dry_run, true),
        dry_run ==> !spec_blocking(SpacePolicy::Enforce, dry_run, true),
{
}

/// Outcome of the capacity check.
#[derive(Debug)]
pub struct CapacityCheck {
    /// Whether the available bytes met the requirement.
    pub ok: bool,
    /// Whether the shortfall blocks the run.
    pub blocking: bool,
    /// The shortfall diagnostic, present exactly when the check failed.
    pub message: Option<String>,
}

/// The capacity check's required total: the transient requirement plus the
/// buffer and any extra margin, saturating.
pub open spec fn spec_required_total(
    transient_total: u64,
    download: u64,
    build: u64,
    install: u64,
    min_free: u64,
    extra_margin: u64,
) -> (u64, u64) {
    let margin = sat64(min_free + extra_margin);
    let base = if transient_total > 0 {
        transient_total as int
    } else {
        download + build + install
    };
    (sat64(base + margin), margin)
}

/// Hold a plan to disk capacity: compare the available bytes against the
/// transient requirement plus buffer, under the configured policy.
pub fn check_capacity(
    policy: SpacePolicy,
    dry_run: bool,
    report: &SpaceReport,
    transient_total: u64,
    download_total: u64,
    build_total: u64,
    install_total: u64,
    min_free: u64,
    extra_margin: u64,
) -> (r: CapacityCheck)
    ensures
        ({
            let (required, margin) = spec_required_total(transient_total, download_total,
                build_total, install_total, min_free, extra_margin);
            let short = report.available_bytes < required;
            r.ok == !short && r.blocking == spec_blocking(policy, dry_run, short) && (short
                ==> (r.message matches Some(m) && m@ == spec_capacity_message(required,
                download_total, build_total, install_total, margin, report.checked_path@,
                report.available_bytes))) && (!short ==> r.message is None)
        }),
{
    let margin = sat_add(min_free, extra_margin);
    let base = if transient_total > 0 {
        transient_total
    } else {
        sat_add(sat_add(download_total, build_total), install_total)
    };
    let required = sat_add(base, margin);
    proof {
        if transient_total == 0 {
            assert(sat64(sat64(download_total + build_total) + install_total) == sat64(
                download_total + build_total + install_total)) by {
                if download_total + build_total > u64::MAX {
                    assert(sat64(download_total + build_total) == u64::MAX);
                }
            }
            assert(sat64(sat64(download_total + build_total + install_total) + margin) == sat64(
                download_total + build_total + install_total + margin)) by {
                if download_total + build_total + install_total > u64::MAX {
                    assert(sat64(download_total + build_total + install_total) == u64::MAX);
                }
            }
        }
    }
    match ensure_capacity(report, required, download_total, build_total, install_total, margin) {
        Ok(()) => CapacityCheck { ok: true, blocking: false, message: None },
        Err(m) => {
            let blocking = matches!(policy, SpacePolicy::Enforce) && !dry_run;
            CapacityCheck { ok: false, blocking, message: Some(m) }
        },
    }
}

/// Outcome of one package's capacity check.
#[derive(Debug)]
pub enum PackageSpaceCheck {
    /// The package carries no size telemetry at all; its disk usage cannot
    /// be validated.
    NoTelemetry,
    /// The package's requirement plus the buffer fits the available bytes.
    Fits { required_total: u64 },
    /// The available bytes fall short of the requirement; the message
    /// enumerates the components.
    Short { required_total: u64, message: String },
}

/// A package's effective download, build and install sizes: the manifest
/// entry's figures, with live source data overriding the download and
/// install sizes and zeroing the build estimate when present.
pub open spec fn spec_package_sizes(
    e: crate::manifest::ManifestEntryModel,
    live: Option<crate::reconcile::VersionInfoModel>,
) -> (u64, u64, u64) {
    let d0: u64 = match e.download_size_selected {
        Some(v) => v,
        None => 0,
    };
    let b0: u64 = match e.build_size_estimate {
        Some(v) => v,
        None => 0,
    };
    let i0: u64 = match e.install_size_estimate {
        Some(v) => v,
        None => match e.installed_size_selected {
            Some(v) => v,
            None => 0,
        },
    };
    match live {
        Some(info) => (
            match info.download_size {
                Some(v) => v,
                None => d0,
            },
            0u64,
            match info.installed_size {
                Some(v) => v,
                None => i0,
            },
        ),
        None => (d0, b0, i0),
    }
}

/// A package's base requirement: its transient estimate when recorded,
/// else the sum of its effective sizes; zero means no telemetry.
pub open spec fn spec_package_required(
    e: crate::manifest::ManifestEntryModel,
    live: Option<crate::reconcile::VersionInfoModel>,
) -> int {
    let t: u64 = match e.transient_size_estimate {
        Some(v) => v,
        None => 0,
    };
    let (d, b, i) = spec_package_sizes(e, live);
    if t > 0 {
        t as int
    } else {
        sat64(d + b + i) as int
    }
}

/// The diagnostic suffix for one package's capacity check.
pub open spec fn spec_package_space_message(
    required: u64,
    download: u64,
    build: u64,
    install: u64,
    margin: u64,
    path: Seq<char>,
    available: u64,
) -> Seq<char> {
    "need ~"@ + spec_format_bytes(required) + " (download "@ + spec_format_bytes(download)
        + " + build "@ + spec_format_bytes(build) + " + install "@ + spec_format_bytes(install)
        + " + buffer "@ + spec_format_bytes(margin) + ") on "@ + path + "; have "@
        + spec_format_bytes(available)
}

/// Check one package's disk requirement against the report: the manifest
/// entry's telemetry, overridden by live source data when given, plus the
/// margin. A package without any telemetry cannot be validated.
pub fn check_package_capacity(
    entry: &crate::manifest::ManifestEntry,
    live: Option<&crate::reconcile::VersionInfo>,
    report: &SpaceReport,
    margin: u64,
) -> (r: PackageSpaceCheck)
    ensures
        ({
            let base = spec_package_required(entry@, crate::reconcile::opt_info_view(live));
            let (d, b, i) = spec_package_sizes(entry@, crate::reconcile::opt_info_view(live));
            let required = sat64(base + margin);
            if base == 0 {
                r is NoTelemetry
            } else if report.available_bytes < required {
                r matches PackageSpaceCheck::Short { required_total, message } && required_total
                    == required && message@ == spec_package_space_message(required, d, b, i,
                    margin, report.checked_path@, report.available_bytes)
            } else {
                r matches PackageSpaceCheck::Fits { required_total } && required_total == required
            }
        }),
{
    let d0 = match entry.download_size_selected {
        Some(v) => v,
        None => 0,
    };
    let b0 = match entry.build_size_estimate {
        Some(v) => v,
        None => 0,
    };
    let i0 = match entry.install_size_estimate {
        Some(v) => v,
        None => match entry.installed_size_selected {
            Some(v) => v,
            None => 0,
        },
    };
    let (d, b, i): (u64, u64, u64) = match live {
        Some(info) => (
            match info.download_size {
                Some(v) => v,
                None => d0,
            },
            0,
            match info.installed_size {
                Some(v) => v,
                None => i0,
            },
        ),
        None => (d0, b0, i0),
    };
    let t = match entry.transient_size_estimate {
        Some(v) => v,
        None => 0,
    };
    let base = if t > 0 {
        t
    } else {
        let db = sat_add(d, b);
        let s = sat_add(db, i);
        proof {
            assert(sat64(sat64(d + b) + i) == sat64(d + b + i)) by {
                if d + b > u64::MAX {
                    assert(sat64(d + b) == u64::MAX);
                }
            }
        }
        s
    };
    if base == 0 {
        return PackageSpaceCheck::NoTelemetry;
    }
    let required = sat_add(base, margin);
    if report.available_bytes < required {
        let mut m = "need ~".to_owned();
        m.append(format_bytes(required).as_str());
        m.append(" (download ");
        m.append(format_bytes(d).as_str());
        m.append(" + build ");
        m.append(format_bytes(b).as_str());
        m.append(" + install ");
        m.append(format_bytes(i).as_str());
        m.append(" + buffer ");
        m.append(format_bytes(margin).as_str());
        m.append(") on ");
        m.append(report.checked_path.as_str());
        m.append("; have ");
        m.append(format_bytes(report.available_bytes).as_str());
        PackageSpaceCheck::Short { required_total: required, message: m }
    } else {
        PackageSpaceCheck::Fits { required_total: required }
    }
}

/// The process outcome of the space command: failures beat unknown
/// telemetry, which beats success.
pub fn space_exit_code(failures: usize, unknowns: usize) -> (r: u8)
    ensures
        failures > 0 ==> r == 1,
        failures == 0 && unknowns > 0 ==> r == 2,
        failures == 0 && unknowns == 0 ==> r == 0,
{
    if failures > 0 {
        1
    } else if unknowns > 0 {
        2
    } else {
        0
    }
}

} // verus!

