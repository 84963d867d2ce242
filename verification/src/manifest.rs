//! The manifest: a point-in-time snapshot of the installed package set with
//! per-package source attribution and sizing estimates.

use vstd::prelude::*;

verus! {

use vstd::pervasive::VecAdditionalExecFns;
use vstd::string::StrSliceExecFns;
use crate::pacman::InstalledPackage;
use crate::reconcile::{ReconcileVerdicts, VersionInfo, VersionInfoModel};
use crate::text;

/// Which upstream catalog a package's update should come from.
#[derive(Debug, Clone, Copy, PartialEq, Eq, Structural)]
pub enum PackageSource {
    /// The distribution's binary repository.
    Pacman,
    /// The community package archive.
    Aur,
    /// Built locally; no upstream catalog.
    Local,
    /// No source could be determined.
    Unknown,
}

impl PackageSource {
    /// Position of this source in the fixed grouping order.
    pub open spec fn spec_rank(self) -> int {
        match self {
            PackageSource::Pacman => 0,
            PackageSource::Aur => 1,
            PackageSource::Local => 2,
            PackageSource::Unknown => 3,
        }
    }

    /// Position of this source in the fixed grouping order.
    pub fn rank(&self) -> (r: u8)
        ensures
            r as int == self.spec_rank(),
    {
        match self {
            PackageSource::Pacman => 0,
            PackageSource::Aur => 1,
            PackageSource::Local => 2,
            PackageSource::Unknown => 3,
        }
    }

    /// The uppercase label this source carries in documents.
    pub open spec fn spec_label(self) -> Seq<char> {
        match self {
            PackageSource::Pacman => "PACMAN"@,
            PackageSource::Aur => "AUR"@,
            PackageSource::Local => "LOCAL"@,
            PackageSource::Unknown => "UNKNOWN"@,
        }
    }

    /// The uppercase label this source carries in documents.
    pub fn label(&self) -> (r: &'static str)
        ensures
            r@ == self.spec_label(),
    {
        match self {
            PackageSource::Pacman => "PACMAN",
            PackageSource::Aur => "AUR",
            PackageSource::Local => "LOCAL",
            PackageSource::Unknown => "UNKNOWN",
        }
    }
}

/// The source denoted by an origin repository tag: the community archive and
/// local builds carry distinguished tags (compared ignoring ASCII case), any
/// other tag is a repository, and a missing tag is unknown.
pub open spec fn spec_source_from_repo(repo: Option<Seq<char>>) -> PackageSource {
    match repo {
        Some(name) => if text::eq_ignore_case(name, "aur"@) {
            PackageSource::Aur
        } else if text::eq_ignore_case(name, "local"@) {
            PackageSource::Local
        } else {
            PackageSource::Pacman
        },
        None => PackageSource::Unknown,
    }
}

/// Classify a package by its origin repository tag.
pub fn source_from_repo(repo: Option<&String>) -> (r: PackageSource)
    ensures
        r == spec_source_from_repo(match repo {
            Some(s) => Some(s@),
            None => None,
        }),
{
    match repo {
        Some(name) => {
            if text::str_eq_ignore_case(name.as_str(), "aur") {
                PackageSource::Aur
            } else if text::str_eq_ignore_case(name.as_str(), "local") {
                PackageSource::Local
            } else {
                PackageSource::Pacman
            }
        },
        None => PackageSource::Unknown,
    }
}

/// A hash as displayed in documents: trimmed and cut to at most sixteen
/// characters.
pub open spec fn spec_truncate_hash(v: Seq<char>) -> Seq<char> {
    let t = text::spec_trim(v);
    if t.len() <= 16 {
        t
    } else {
        t.take(16)
    }
}

/// Trim a hash and cut it to the fixed display length.
pub fn truncate_hash(value: &str) -> (r: String)
    ensures
        r@ == spec_truncate_hash(value@),
{
    let trimmed = text::trim_ascii(value);
    let n = trimmed.as_str().unicode_len();
    if n <= 16 {
        trimmed
    } else {
        trimmed.as_str().substring_char(0, 16).to_owned()
    }
}

/// The upstream data the reconciler consumes for one package: optional
/// version info from the repository and the archive, and the oracle's
/// verdicts on the pairs it may need.
#[derive(Debug)]
pub struct PackageUpstream {
    pub repo: Option<VersionInfo>,
    pub archive: Option<VersionInfo>,
    pub verdicts: ReconcileVerdicts,
}

/// Mathematical model of a `PackageUpstream`.
pub ghost struct PackageUpstreamModel {
    pub repo: Option<VersionInfoModel>,
    pub archive: Option<VersionInfoModel>,
    pub verdicts: ReconcileVerdicts,
}

impl View for PackageUpstream {
    type V = PackageUpstreamModel;

    open spec fn view(&self) -> PackageUpstreamModel {
        PackageUpstreamModel {
            repo: match self.repo {
                Some(ref i) => Some(i@),
                None => None,
            },
            archive: match self.archive {
                Some(ref i) => Some(i@),
                None => None,
            },
            verdicts: self.verdicts,
        }
    }
}

/// One package's manifest entry: the installed state, the per-source
/// versions, the reconciled source and update verdict, and the derived
/// size estimates. Never mutated after creation.
#[derive(Debug)]
pub struct ManifestEntry {
    pub installed_version: String,
    pub repository: Option<String>,
    pub repo_version: Option<String>,
    pub archive_version: Option<String>,
    pub source: PackageSource,
    pub newer_version: Option<String>,
    pub update_available: bool,
    pub notes: Option<String>,
    pub installed_size: Option<u64>,
    pub install_date: Option<String>,
    pub validated_by: Option<String>,
    pub package_hash: Option<String>,
    pub download_size_selected: Option<u64>,
    pub installed_size_selected: Option<u64>,
    pub install_size_estimate: Option<u64>,
    pub build_size_estimate: Option<u64>,
    pub transient_size_estimate: Option<u64>,
}

/// Mathematical model of a `ManifestEntry`.
pub ghost struct ManifestEntryModel {
    pub installed_version: Seq<char>,
    pub repository: Option<Seq<char>>,
    pub repo_version: Option<Seq<char>>,
    pub archive_version: Option<Seq<char>>,
    pub source: PackageSource,
    pub newer_version: Option<Seq<char>>,
    pub update_available: bool,
    pub notes: Option<Seq<char>>,
    pub installed_size: Option<u64>,
    pub install_date: Option<Seq<char>>,
    pub validated_by: Option<Seq<char>>,
    pub package_hash: Option<Seq<char>>,
    pub download_size_selected: Option<u64>,
    pub installed_size_selected: Option<u64>,
    pub install_size_estimate: Option<u64>,
    pub build_size_estimate: Option<u64>,
    pub transient_size_estimate: Option<u64>,
}

impl View for ManifestEntry {
    type V = ManifestEntryModel;

    open spec fn view(&self) -> ManifestEntryModel {
        ManifestEntryModel {
            installed_version: self.installed_version@,
            repository: crate::pacman::opt_string_view(self.repository),
            repo_version: crate::pacman::opt_string_view(self.repo_version),
            archive_version: crate::pacman::opt_string_view(self.archive_version),
            source: self.source,
            newer_version: crate::pacman::opt_string_view(self.newer_version),
            update_available: self.update_available,
            notes: crate::pacman::opt_string_view(self.notes),
            installed_size: self.installed_size,
            install_date: crate::pacman::opt_string_view(self.install_date),
            validated_by: crate::pacman::opt_string_view(self.validated_by),
            package_hash: crate::pacman::opt_string_view(self.package_hash),
            download_size_selected: self.download_size_selected,
            installed_size_selected: self.installed_size_selected,
            install_size_estimate: self.install_size_estimate,
            build_size_estimate: self.build_size_estimate,
            transient_size_estimate: self.transient_size_estimate,
        }
    }
}

impl DeepView for ManifestEntry {
    type V = ManifestEntryModel;

    open spec fn deep_view(&self) -> ManifestEntryModel {
        self.view()
    }
}

/// The manifest entry one package resolves to: the reconciler's verdict,
/// the estimator's sizes, and the installed snapshot fields, the hash cut
/// to display length.
pub open spec fn spec_resolve_package(
    p: crate::pacman::InstalledPackageModel,
    u: PackageUpstreamModel,
) -> ManifestEntryModel {
    let res = crate::reconcile::spec_reconcile(p.repository, u.repo, u.archive, u.verdicts);
    let est = crate::reconcile::spec_estimates(res.source, u.repo, u.archive);
    ManifestEntryModel {
        installed_version: p.version,
        repository: p.repository,
        repo_version: match u.repo {
            Some(i) => Some(i.version),
            None => None,
        },
        archive_version: match u.archive {
            Some(i) => Some(i.version),
            None => None,
        },
        source: res.source,
        newer_version: res.newer_version,
        update_available: res.update_available,
        notes: res.notes,
        installed_size: p.installed_size,
        install_date: p.install_date,
        validated_by: p.validated_by,
        package_hash: match p.package_hash {
            Some(h) => Some(spec_truncate_hash(h)),
            None => None,
        },
        download_size_selected: est.download_selected,
        installed_size_selected: est.installed_selected,
        install_size_estimate: est.install_estimate,
        build_size_estimate: est.build_estimate,
        transient_size_estimate: est.transient_estimate,
    }
}

/// Resolve one installed package against its upstream data.
pub fn resolve_package(pkg: &InstalledPackage, up: &PackageUpstream) -> (r: ManifestEntry)
    ensures
        r@ == spec_resolve_package(pkg@, up@),
{
    let res = crate::reconcile::reconcile(
        pkg.repository.as_ref(),
        up.repo.as_ref(),
        up.archive.as_ref(),
        &up.verdicts,
    );
    let est = crate::reconcile::estimate_sizes(res.source, up.repo.as_ref(), up.archive.as_ref());
    ManifestEntry {
        installed_version: pkg.version.clone(),
        repository: crate::pacman::clone_opt_string(&pkg.repository),
        repo_version: match &up.repo {
            Some(i) => Some(i.version.clone()),
            None => None,
        },
        archive_version: match &up.archive {
            Some(i) => Some(i.version.clone()),
            None => None,
        },
        source: res.source,
        newer_version: res.newer_version,
        update_available: res.update_available,
        notes: res.notes,
        installed_size: pkg.installed_size,
        install_date: crate::pacman::clone_opt_string(&pkg.install_date),
        validated_by: crate::pacman::clone_opt_string(&pkg.validated_by),
        package_hash: match &pkg.package_hash {
            Some(h) => Some(truncate_hash(h.as_str())),
            None => None,
        },
        download_size_selected: est.download_selected,
        installed_size_selected: est.installed_selected,
        install_size_estimate: est.install_estimate,
        build_size_estimate: est.build_estimate,
        transient_size_estimate: est.transient_estimate,
    }
}

/// One keyed entry of the manifest's package map.
#[derive(Debug)]
pub struct PackageRecord {
    pub name: String,
    pub entry: ManifestEntry,
}

/// Mathematical model of a `PackageRecord`.
pub ghost struct PackageRecordModel {
    pub name: Seq<char>,
    pub entry: ManifestEntryModel,
}

impl View for PackageRecord {
    type V = PackageRecordModel;

    open spec fn view(&self) -> PackageRecordModel {
        PackageRecordModel { name: self.name@, entry: self.entry@ }
    }
}

impl DeepView for PackageRecord {
    type V = PackageRecordModel;

    open spec fn deep_view(&self) -> PackageRecordModel {
        self.view()
    }
}

/// The manifest's package map is kept strictly sorted by name: each key
/// precedes the next in lexicographic order, so keys are unique and the
/// rendering is deterministic.
pub open spec fn records_sorted(rs: Seq<PackageRecordModel>) -> bool {
    forall|i: int| 0 <= i < rs.len() - 1 ==> text::lex_lt(#[trigger] rs[i].name, rs[i + 1].name)
}

/// A record list with `rec` placed at its sorted position; an existing
/// record with the same name is replaced.
pub open spec fn spec_insert_record(
    rs: Seq<PackageRecordModel>,
    rec: PackageRecordModel,
) -> Seq<PackageRecordModel>
    decreases rs.len(),
{
    if rs.len() == 0 {
        seq![rec]
    } else if text::lex_lt(rec.name, rs[0].name) {
        seq![rec] + rs
    } else if rec.name == rs[0].name {
        seq![rec] + rs.drop_first()
    } else {
        seq![rs[0]] + spec_insert_record(rs.drop_first(), rec)
    }
}

/// Inserting into a sorted record list keeps it sorted.
pub proof fn lemma_insert_record_sorted(rs: Seq<PackageRecordModel>, rec: PackageRecordModel)
    requires
        records_sorted(rs),
    ensures
        records_sorted(spec_insert_record(rs, rec)),
    decreases rs.len(),
{
    let news = spec_insert_record(rs, rec);
    if rs.len() == 0 {
    } else if text::lex_lt(rec.name, rs[0].name) {
        assert forall|i: int| 0 <= i < news.len() - 1 implies text::lex_lt(
            (#[trigger] news[i]).name,
            news[i + 1].name,
        ) by {
            if i > 0 {
                assert(news[i] == rs[i - 1]);
                assert(news[i + 1] == rs[i]);
            }
        }
    } else if rec.name == rs[0].name {
        assert forall|i: int| 0 <= i < news.len() - 1 implies text::lex_lt(
            (#[trigger] news[i]).name,
            news[i + 1].name,
        ) by {
            assert(news[i + 1] == rs[i + 1]);
            if i > 0 {
                assert(news[i] == rs[i]);
            } else {
                assert(text::lex_lt(rs[0].name, rs[1].name));
            }
        }
    } else {
        let rest = rs.drop_first();
        assert forall|i: int| 0 <= i < rest.len() - 1 implies text::lex_lt(
            (#[trigger] rest[i]).name,
            rest[i + 1].name,
        ) by {
            assert(rest[i] == rs[i + 1]);
            assert(rest[i + 1] == rs[i + 2]);
        }
        lemma_insert_record_sorted(rest, rec);
        let tail = spec_insert_record(rest, rec);
        text::lemma_lex_lt_trichotomy(rec.name, rs[0].name);
        // the head of the inserted tail is either the new record or the old
        // second element; the old head precedes both
        assert(tail.len() > 0);
        assert(tail[0] == rec || (rest.len() > 0 && tail[0] == rest[0]));
        assert forall|i: int| 0 <= i < news.len() - 1 implies text::lex_lt(
            (#[trigger] news[i]).name,
            news[i + 1].name,
        ) by {
            if i == 0 {
                assert(news[0] == rs[0]);
                assert(news[1] == tail[0]);
                if rest.len() > 0 {
                    assert(text::lex_lt(rs[0].name, rs[1].name));
                    assert(rs[1] == rest[0]);
                }
            } else {
                assert(news[i] == tail[i - 1]);
                assert(news[i + 1] == tail[i]);
            }
        }
    }
}

/// Whether some record in the list carries a name.
pub open spec fn name_present(rs: Seq<PackageRecordModel>, name: Seq<char>) -> bool {
    exists|i: int| 0 <= i < rs.len() && (#[trigger] rs[i]).name == name
}

/// Inserting a record makes its name present and keeps every name that was
/// present.
#[verifier::spinoff_prover]
#[verifier::rlimit(100)]
pub proof fn lemma_insert_record_names(rs: Seq<PackageRecordModel>, rec: PackageRecordModel)
    ensures
        name_present(spec_insert_record(rs, rec), rec.name),
        forall|nm: Seq<char>|
            name_present(rs, nm) ==> #[trigger] name_present(spec_insert_record(rs, rec), nm),
    decreases rs.len(),
{
    let news = spec_insert_record(rs, rec);
    if rs.len() == 0 {
        assert(news[0] == rec);
    } else if text::lex_lt(rec.name, rs[0].name) {
        assert(news[0] == rec);
        assert forall|nm: Seq<char>| name_present(rs, nm) implies #[trigger] name_present(
            news,
            nm,
        ) by {
            let i = choose|i: int| 0 <= i < rs.len() && (#[trigger] rs[i]).name == nm;
            assert(news[i + 1] == rs[i]);
        }
    } else if rec.name == rs[0].name {
        assert(news[0] == rec);
        assert forall|nm: Seq<char>| name_present(rs, nm) implies #[trigger] name_present(
            news,
            nm,
        ) by {
            let i = choose|i: int| 0 <= i < rs.len() && (#[trigger] rs[i]).name == nm;
            if i == 0 {
                assert(news[0].name == nm);
            } else {
                assert(news[i] == rs[i]);
            }
        }
    } else {
        let rest = rs.drop_first();
        lemma_insert_record_names(rest, rec);
        let tail = spec_insert_record(rest, rec);
        let it = choose|i: int| 0 <= i < tail.len() && (#[trigger] tail[i]).name == rec.name;
        assert(news[it + 1] == tail[it]);
        assert forall|nm: Seq<char>| name_present(rs, nm) implies #[trigger] name_present(
            news,
            nm,
        ) by {
            let i = choose|i: int| 0 <= i < rs.len() && (#[trigger] rs[i]).name == nm;
            if i == 0 {
                assert(news[0] == rs[0]);
            } else {
                assert(rest[i - 1] == rs[i]);
                assert(name_present(rest, nm));
                assert(name_present(tail, nm));
                let i2 = choose|i2: int|
                    0 <= i2 < tail.len() && (#[trigger] tail[i2]).name == nm;
                assert(news[i2 + 1] == tail[i2]);
            }
        }
    }
}

/// Place a record at its sorted position, replacing an existing record
/// with the same name.
fn insert_record(records: Vec<PackageRecord>, rec: PackageRecord) -> (r: Vec<PackageRecord>)
    ensures
        r.deep_view() == spec_insert_record(records.deep_view(), rec@),
    decreases records@.len(),
{
    let ghost olds = records.deep_view();
    let mut records = records;
    if records.len() == 0 {
        records.push(rec);
        proof {
            assert(records.deep_view() =~= spec_insert_record(olds, rec@));
        }
        records
    } else if text::str_lt(rec.name.as_str(), records[0].name.as_str()) {
        proof {
            assert(olds[0].name == records@[0].name@);
        }
        records.insert(0, rec);
        proof {
            assert(records.deep_view() =~= seq![rec@] + olds);
        }
        records
    } else if rec.name == records[0].name {
        proof {
            assert(olds[0].name == records@[0].name@);
        }
        records.set(0, rec);
        proof {
            assert(records.deep_view() =~= seq![rec@] + olds.drop_first());
        }
        records
    } else {
        proof {
            assert(olds[0].name == records@[0].name@);
        }
        let first = records.remove(0);
        proof {
            assert(records.deep_view() =~= olds.drop_first());
            assert(first@ == olds[0]);
        }
        let mut rest = insert_record(records, rec);
        rest.insert(0, first);
        proof {
            assert(rest.deep_view() =~= seq![olds[0]] + spec_insert_record(
                olds.drop_first(),
                rec@,
            ));
        }
        rest
    }
}

/// How many records resolve to a given source.
pub open spec fn spec_count_source(rs: Seq<PackageRecordModel>, src: PackageSource) -> int
    decreases rs.len(),
{
    if rs.len() == 0 {
        0
    } else {
        spec_count_source(rs.drop_last(), src) + if rs.last().entry.source == src {
            1int
        } else {
            0int
        }
    }
}

pub proof fn lemma_count_source_bound(rs: Seq<PackageRecordModel>, src: PackageSource)
    ensures
        0 <= spec_count_source(rs, src) <= rs.len(),
    decreases rs.len(),
{
    if rs.len() > 0 {
        lemma_count_source_bound(rs.drop_last(), src);
    }
}

/// One of the four per-package size estimate fields.
pub ghost enum SizeField {
    Download,
    Build,
    Install,
    Transient,
}

/// Read one size estimate field of an entry.
pub open spec fn spec_size_field(e: ManifestEntryModel, f: SizeField) -> Option<u64> {
    match f {
        SizeField::Download => e.download_size_selected,
        SizeField::Build => e.build_size_estimate,
        SizeField::Install => e.install_size_estimate,
        SizeField::Transient => e.transient_size_estimate,
    }
}

/// The saturating sum of one size field over the records with an update
/// available; records without the field contribute nothing.
pub open spec fn spec_size_total(rs: Seq<PackageRecordModel>, f: SizeField) -> u64
    decreases rs.len(),
{
    if rs.len() == 0 {
        0
    } else {
        let rest = spec_size_total(rs.drop_last(), f);
        let added: int = if rs.last().entry.update_available {
            match spec_size_field(rs.last().entry, f) {
                Some(v) => v as int,
                None => 0,
            }
        } else {
            0
        };
        crate::reconcile::sat64(rest + added)
    }
}

/// Count the records of each source, in source rank order.
fn count_sources(records: &Vec<PackageRecord>) -> (r: (usize, usize, usize, usize))
    ensures
        r.0 as int == spec_count_source(records.deep_view(), PackageSource::Pacman),
        r.1 as int == spec_count_source(records.deep_view(), PackageSource::Aur),
        r.2 as int == spec_count_source(records.deep_view(), PackageSource::Local),
        r.3 as int == spec_count_source(records.deep_view(), PackageSource::Unknown),
{
    let mut pacman: usize = 0;
    let mut aur: usize = 0;
    let mut local: usize = 0;
    let mut unknown: usize = 0;
    let mut i: usize = 0;
    proof {
        assert(records.deep_view().take(0) =~= Seq::<PackageRecordModel>::empty());
    }
    while i < records.len()
        invariant
            i <= records@.len(),
            pacman as int == spec_count_source(records.deep_view().take(i as int),
                PackageSource::Pacman),
            aur as int == spec_count_source(records.deep_view().take(i as int),
                PackageSource::Aur),
            local as int == spec_count_source(records.deep_view().take(i as int),
                PackageSource::Local),
            unknown as int == spec_count_source(records.deep_view().take(i as int),
                PackageSource::Unknown),
        decreases records@.len() - i,
    {
        proof {
            let rv = records.deep_view();
            assert(rv.take(i + 1).drop_last() =~= rv.take(i as int));
            assert(rv.take(i + 1).last() == rv[i as int]);
            lemma_count_source_bound(rv.take(i as int), PackageSource::Pacman);
            lemma_count_source_bound(rv.take(i as int), PackageSource::Aur);
            lemma_count_source_bound(rv.take(i as int), PackageSource::Local);
            lemma_count_source_bound(rv.take(i as int), PackageSource::Unknown);
            assert(rv.take(i as int).len() == i);
        }
        match records[i].entry.source {
            PackageSource::Pacman => {
                pacman = pacman + 1;
            },
            PackageSource::Aur => {
                aur = aur + 1;
            },
            PackageSource::Local => {
                local = local + 1;
            },
            PackageSource::Unknown => {
                unknown = unknown + 1;
            },
        }
        i = i + 1;
    }
    proof {
        assert(records.deep_view().take(records@.len() as int) =~= records.deep_view());
    }
    (pacman, aur, local, unknown)
}

/// Sum the four size estimate totals over the records with an update
/// available, saturating.
fn size_totals(records: &Vec<PackageRecord>) -> (r: (u64, u64, u64, u64))
    ensures
        r.0 == spec_size_total(records.deep_view(), SizeField::Download),
        r.1 == spec_size_total(records.deep_view(), SizeField::Build),
        r.2 == spec_size_total(records.deep_view(), SizeField::Install),
        r.3 == spec_size_total(records.deep_view(), SizeField::Transient),
{
    let mut download: u64 = 0;
    let mut build: u64 = 0;
    let mut install: u64 = 0;
    let mut transient: u64 = 0;
    let mut i: usize = 0;
    proof {
        assert(records.deep_view().take(0) =~= Seq::<PackageRecordModel>::empty());
    }
    while i < records.len()
        invariant
            i <= records@.len(),
            download == spec_size_total(records.deep_view().take(i as int), SizeField::Download),
            build == spec_size_total(records.deep_view().take(i as int), SizeField::Build),
            install == spec_size_total(records.deep_view().take(i as int), SizeField::Install),
            transient == spec_size_total(records.deep_view().take(i as int),
                SizeField::Transient),
        decreases records@.len() - i,
    {
        proof {
            let rv = records.deep_view();
            assert(rv.take(i + 1).drop_last() =~= rv.take(i as int));
            assert(rv.take(i + 1).last() == rv[i as int]);
        }
        let e = &records[i].entry;
        if e.update_available {
            download = crate::reconcile::sat_add(download, match e.download_size_selected {
                Some(v) => v,
                None => 0,
            });
            build = crate::reconcile::sat_add(build, match e.build_size_estimate {
                Some(v) => v,
                None => 0,
            });
            install = crate::reconcile::sat_add(install, match e.install_size_estimate {
                Some(v) => v,
                None => 0,
            });
            transient = crate::reconcile::sat_add(transient, match e.transient_size_estimate {
                Some(v) => v,
                None => 0,
            });
        }
        i = i + 1;
    }
    proof {
        assert(records.deep_view().take(records@.len() as int) =~= records.deep_view());
    }
    (download, build, install, transient)
}

/// The names of the records with a given source, in record order.
pub open spec fn spec_group_names(rs: Seq<PackageRecordModel>, src: PackageSource) -> Seq<
    Seq<char>,
>
    decreases rs.len(),
{
    if rs.len() == 0 {
        Seq::empty()
    } else {
        let init = spec_group_names(rs.drop_last(), src);
        if rs.last().entry.source == src {
            init.push(rs.last().name)
        } else {
            init
        }
    }
}

/// Collect the names of the records with a given source.
fn group_names(records: &Vec<PackageRecord>, src: PackageSource) -> (r: Vec<String>)
    ensures
        r.deep_view() == spec_group_names(records.deep_view(), src),
{
    let mut r: Vec<String> = Vec::new();
    let mut i: usize = 0;
    proof {
        assert(records.deep_view().take(0) =~= Seq::<PackageRecordModel>::empty());
        assert(r.deep_view() =~= Seq::<Seq<char>>::empty());
    }
    while i < records.len()
        invariant
            i <= records@.len(),
            r.deep_view() =~= spec_group_names(records.deep_view().take(i as int), src),
        decreases records@.len() - i,
    {
        proof {
            let rv = records.deep_view();
            assert(rv.take(i + 1).drop_last() =~= rv.take(i as int));
            assert(rv.take(i + 1).last() == rv[i as int]);
        }
        if records[i].entry.source == src {
            let ghost before = r.deep_view();
            r.push(records[i].name.clone());
            proof {
                assert(r.deep_view() =~= before.push(records.deep_view()[i as int].name));
            }
        }
        i = i + 1;
    }
    proof {
        assert(records.deep_view().take(records@.len() as int) =~= records.deep_view());
    }
    r
}

/// The names grouped under one source.
#[derive(Debug)]
pub struct PackageGroup {
    pub source: PackageSource,
    pub count: usize,
    pub packages: Vec<String>,
}

/// Mathematical model of a `PackageGroup`.
pub ghost struct PackageGroupModel {
    pub source: PackageSource,
    pub count: int,
    pub packages: Seq<Seq<char>>,
}

impl View for PackageGroup {
    type V = PackageGroupModel;

    open spec fn view(&self) -> PackageGroupModel {
        PackageGroupModel {
            source: self.source,
            count: self.count as int,
            packages: self.packages.deep_view(),
        }
    }
}

impl DeepView for PackageGroup {
    type V = PackageGroupModel;

    open spec fn deep_view(&self) -> PackageGroupModel {
        self.view()
    }
}

/// The group a source contributes to the manifest.
pub open spec fn spec_group_of(rs: Seq<PackageRecordModel>, src: PackageSource) -> PackageGroupModel {
    PackageGroupModel {
        source: src,
        count: spec_group_names(rs, src).len() as int,
        packages: spec_group_names(rs, src),
    }
}

/// The order groups are listed in: ascending count, then source rank.
pub open spec fn group_lt(a: PackageGroupModel, b: PackageGroupModel) -> bool {
    a.count < b.count || (a.count == b.count && a.source.spec_rank() < b.source.spec_rank())
}

pub open spec fn groups_sorted(gs: Seq<PackageGroupModel>) -> bool {
    forall|i: int| 0 <= i < gs.len() - 1 ==> group_lt(#[trigger] gs[i], gs[i + 1])
}

/// Decide the group order between two groups.
fn group_before(a: &PackageGroup, b: &PackageGroup) -> (r: bool)
    ensures
        r == group_lt(a@, b@),
{
    if a.count != b.count {
        a.count < b.count
    } else {
        a.rank_of() < b.rank_of()
    }
}

impl PackageGroup {
    /// The rank of this group's source.
    fn rank_of(&self) -> (r: u8)
        ensures
            r as int == self.source.spec_rank(),
    {
        self.source.rank()
    }
}

/// Insert a group into a list sorted by the group order; no group of the
/// same source may already be present.
#[verifier::rlimit(100)]
fn insert_group(groups: &mut Vec<PackageGroup>, g: PackageGroup)
    requires
        groups_sorted(old(groups).deep_view()),
        forall|i: int|
            0 <= i < old(groups).deep_view().len() ==> (#[trigger] old(groups).deep_view()[i]).source != g@.source,
    ensures
        groups_sorted(final(groups).deep_view()),
        final(groups).deep_view().len() == old(groups).deep_view().len() + 1,
        exists|i: int|
            0 <= i < final(groups).deep_view().len() && #[trigger] final(groups).deep_view()[i]
                == g@,
        forall|i: int|
            0 <= i < old(groups).deep_view().len() ==> exists|i2: int|
                0 <= i2 < final(groups).deep_view().len() && #[trigger] final(groups).deep_view()[i2] == #[trigger] old(groups).deep_view()[i],
        forall|i2: int|
            0 <= i2 < final(groups).deep_view().len() ==> (#[trigger] final(groups).deep_view()[i2] == g@ || exists|i: int|
                0 <= i < old(groups).deep_view().len() && #[trigger] old(groups).deep_view()[i]
                    == final(groups).deep_view()[i2]),
{
    let ghost olds = groups.deep_view();
    proof {
        lemma_groups_sorted_total(olds);
    }
    let k = group_lower_bound(groups, &g);
    let n = groups.len();
    proof {
        if k < n {
            let held = olds[k as int];
            assert(!group_lt(held, g@));
            // distinct sources and a total order: the new group precedes
            assert(group_lt(g@, held) || (g@.count == held.count && g@.source.spec_rank()
                == held.source.spec_rank()));
            if g@.count == held.count && g@.source.spec_rank() == held.source.spec_rank() {
                assert(held.source != g@.source);
                assert(false);
            }
        }
        assert forall|i: int| k <= i < olds.len() implies group_lt(g@, #[trigger] olds[i]) by {
            if i > k {
                lemma_groups_sorted_chain(olds, k as int, i);
                assert(group_lt(olds[k as int], olds[i]));
            }
        }
    }
    groups.insert(k, g);
    proof {
        let news = groups.deep_view();
        assert(news =~= olds.insert(k as int, g@));
        assert forall|i: int| 0 <= i < news.len() implies #[trigger] news[i] == (if i < k {
            olds[i]
        } else if i == k {
            g@
        } else {
            olds[i - 1]
        }) by {
            assert(news[i] == olds.insert(k as int, g@)[i]);
        }
        assert forall|i: int| 0 <= i < news.len() - 1 implies group_lt(
            #[trigger] news[i],
            news[i + 1],
        ) by {
            if i + 1 < k {
            } else if i + 1 == k {
                assert(news[i] == olds[i]);
            } else if i == k {
            } else {
            }
        }
        assert(news[k as int] == g@);
        assert forall|i: int| 0 <= i < olds.len() implies exists|i2: int|
            0 <= i2 < news.len() && #[trigger] news[i2] == #[trigger] olds[i] by {
            if i < k {
                assert(news[i] == olds[i]);
            } else {
                assert(news[i + 1] == olds[i]);
            }
        }
        assert forall|i2: int| 0 <= i2 < news.len() implies (#[trigger] news[i2] == g@ || exists|
        i: int|
            0 <= i < olds.len() && #[trigger] olds[i] == news[i2]) by {
            if i2 < k {
                assert(olds[i2] == news[i2]);
            } else if i2 > k {
                assert(olds[i2 - 1] == news[i2]);
            }
        }
    }
}

/// The position of the first group that does not precede `g`.
fn group_lower_bound(groups: &Vec<PackageGroup>, g: &PackageGroup) -> (k: usize)
    ensures
        k <= groups@.len(),
        forall|i: int| 0 <= i < k ==> group_lt(#[trigger] groups.deep_view()[i], g@),
        k < groups@.len() ==> !group_lt(groups.deep_view()[k as int], g@),
{
    let n = groups.len();
    let mut k: usize = 0;
    while k < n
        invariant
            k <= n,
            n == groups@.len(),
            forall|i: int| 0 <= i < k ==> group_lt(#[trigger] groups.deep_view()[i], g@),
        decreases n - k,
    {
        if !group_before(&groups[k], g) {
            return k;
        }
        proof {
            assert(groups.deep_view()[k as int] == groups@[k as int]@);
        }
        k = k + 1;
    }
    k
}

pub proof fn lemma_groups_sorted_total(gs: Seq<PackageGroupModel>)
    requires
        groups_sorted(gs),
    ensures
        forall|i: int, j: int|
            0 <= i < j < gs.len() ==> group_lt(#[trigger] gs[i], #[trigger] gs[j]),
{
    assert forall|i: int, j: int| 0 <= i < j < gs.len() implies group_lt(
        #[trigger] gs[i],
        #[trigger] gs[j],
    ) by {
        lemma_groups_sorted_chain(gs, i, j);
    }
}

proof fn lemma_groups_sorted_chain(gs: Seq<PackageGroupModel>, i: int, j: int)
    requires
        groups_sorted(gs),
        0 <= i < j < gs.len(),
    ensures
        group_lt(gs[i], gs[j]),
    decreases j - i,
{
    if j > i + 1 {
        lemma_groups_sorted_chain(gs, i, j - 1);
    }
}

/// Lightweight summary of application state for manifest metadata.
#[derive(Debug, Clone, Copy, PartialEq, Eq, Structural)]
pub struct ApplicationStateSummary {
    pub flatpak: usize,
    pub fwupd: usize,
}

/// Optional application and firmware state recorded alongside the package
/// map.
#[derive(Debug)]
pub struct Applications {
    pub flatpak: Option<crate::flatpak::FlatpakState>,
    pub fwupd: Option<crate::fwupd::FwupdState>,
}

impl Default for Applications {
    fn default() -> (r: Self)
        ensures
            r.flatpak is None,
            r.fwupd is None,
    {
        Applications { flatpak: None, fwupd: None }
    }
}

/// The metadata block describing the manifest: counts per source and the
/// size totals over packages with an update available.
#[derive(Debug)]
pub struct ManifestMetadata {
    pub generated_at: String,
    pub generated_by: String,
    pub total_packages: usize,
    pub pacman_packages: usize,
    pub aur_packages: usize,
    pub local_packages: usize,
    pub unknown_packages: usize,
    pub download_size_total: u64,
    pub build_size_total: u64,
    pub install_size_total: u64,
    pub transient_size_total: u64,
    pub apps_flatpak: Option<bool>,
    pub apps_fwupd: Option<bool>,
    pub application_state: Option<ApplicationStateSummary>,
}

/// The full manifest document: metadata, the package map in lexicographic
/// name order, the per-source groupings, and optional application state.
/// Written once, read-only afterward.
#[derive(Debug)]
pub struct ManifestDocument {
    pub metadata: ManifestMetadata,
    pub packages: Vec<PackageRecord>,
    pub packages_by_source: Vec<PackageGroup>,
    pub applications: Applications,
}

/// The record one input position yields.
pub open spec fn spec_record_of(
    pkgs: Seq<InstalledPackage>,
    ups: Seq<PackageUpstream>,
    j: int,
) -> PackageRecordModel {
    PackageRecordModel {
        name: pkgs[j]@.name,
        entry: spec_resolve_package(pkgs[j]@, ups[j]@),
    }
}

/// The package map built from the first `n` inputs: each resolved entry
/// inserted at its sorted position, later duplicates replacing earlier
/// ones.
pub open spec fn spec_build_records(
    pkgs: Seq<InstalledPackage>,
    ups: Seq<PackageUpstream>,
    n: int,
) -> Seq<PackageRecordModel>
    decreases n,
{
    if n <= 0 {
        Seq::empty()
    } else {
        spec_insert_record(spec_build_records(pkgs, ups, n - 1), spec_record_of(pkgs, ups, n - 1))
    }
}

/// The built package map is sorted strictly by name.
pub proof fn lemma_build_records_sorted(
    pkgs: Seq<InstalledPackage>,
    ups: Seq<PackageUpstream>,
    n: int,
)
    ensures
        records_sorted(spec_build_records(pkgs, ups, n)),
    decreases n,
{
    if n > 0 {
        lemma_build_records_sorted(pkgs, ups, n - 1);
        lemma_insert_record_sorted(
            spec_build_records(pkgs, ups, n - 1),
            spec_record_of(pkgs, ups, n - 1),
        );
    }
}

/// Reconciliation is total: every installed package's name appears in the
/// built package map, whatever its upstream data held.
pub proof fn lemma_reconciliation_total(
    pkgs: Seq<InstalledPackage>,
    ups: Seq<PackageUpstream>,
    n: int,
)
    requires
        0 <= n <= pkgs.len(),
    ensures
        forall|j: int|
            0 <= j < n ==> name_present(spec_build_records(pkgs, ups, n), (#[trigger] pkgs[j])@.name),
    decreases n,
{
    if n > 0 {
        lemma_reconciliation_total(pkgs, ups, n - 1);
        lemma_insert_record_names(
            spec_build_records(pkgs, ups, n - 1),
            spec_record_of(pkgs, ups, n - 1),
        );
    }
}

/// Build a manifest from the installed package inventory and the upstream
/// data gathered for each package. The result is a function of its inputs
/// alone: identical inputs give an identical document.
pub fn build_manifest(
    packages: &Vec<InstalledPackage>,
    upstream: &Vec<PackageUpstream>,
    generated_at: &str,
) -> (r: ManifestDocument)
    requires
        packages@.len() == upstream@.len(),
    ensures
        r.packages.deep_view() == spec_build_records(packages@, upstream@, packages@.len() as int),
        records_sorted(r.packages.deep_view()),
        r.metadata.generated_at@ == generated_at@,
        r.metadata.generated_by@ == "synsyu_core"@,
        r.metadata.total_packages == packages@.len(),
        r.metadata.pacman_packages as int == spec_count_source(r.packages.deep_view(),
            PackageSource::Pacman),
        r.metadata.aur_packages as int == spec_count_source(r.packages.deep_view(),
            PackageSource::Aur),
        r.metadata.local_packages as int == spec_count_source(r.packages.deep_view(),
            PackageSource::Local),
        r.metadata.unknown_packages as int == spec_count_source(r.packages.deep_view(),
            PackageSource::Unknown),
        r.metadata.download_size_total == spec_size_total(r.packages.deep_view(),
            SizeField::Download),
        r.metadata.build_size_total == spec_size_total(r.packages.deep_view(), SizeField::Build),
        r.metadata.install_size_total == spec_size_total(r.packages.deep_view(),
            SizeField::Install),
        r.metadata.transient_size_total == spec_size_total(r.packages.deep_view(),
            SizeField::Transient),
        r.metadata.apps_flatpak is None,
        r.metadata.apps_fwupd is None,
        r.metadata.application_state is None,
        r.applications.flatpak is None,
        r.applications.fwupd is None,
        groups_sorted(r.packages_by_source.deep_view()),
        groups_exact(r.packages_by_source.deep_view(), r.packages.deep_view()),
        forall|src: PackageSource|
            spec_group_names(r.packages.deep_view(), src).len() > 0 ==> #[trigger] source_present(
                r.packages_by_source.deep_view(),
                src,
            ),
{
    let n = packages.len();
    let mut records: Vec<PackageRecord> = Vec::new();
    let mut j: usize = 0;
    proof {
        assert(records.deep_view() =~= Seq::<PackageRecordModel>::empty());
    }
    while j < n
        invariant
            j <= n,
            n == packages@.len(),
            n == upstream@.len(),
            records.deep_view() == spec_build_records(packages@, upstream@, j as int),
        decreases n - j,
    {
        let entry = resolve_package(&packages[j], &upstream[j]);
        let rec = PackageRecord { name: packages[j].name.clone(), entry };
        proof {
            assert(rec@ == spec_record_of(packages@, upstream@, j as int));
        }
        records = insert_record(records, rec);
        j = j + 1;
    }
    proof {
        lemma_build_records_sorted(packages@, upstream@, n as int);
    }
    let counts = count_sources(&records);
    let totals = size_totals(&records);
    let groups = build_groups(&records);
    let metadata = ManifestMetadata {
        generated_at: generated_at.to_owned(),
        generated_by: "synsyu_core".to_owned(),
        total_packages: n,
        pacman_packages: counts.0,
        aur_packages: counts.1,
        local_packages: counts.2,
        unknown_packages: counts.3,
        download_size_total: totals.0,
        build_size_total: totals.1,
        install_size_total: totals.2,
        transient_size_total: totals.3,
        apps_flatpak: None,
        apps_fwupd: None,
        application_state: None,
    };
    ManifestDocument {
        metadata,
        packages: records,
        packages_by_source: groups,
        applications: Applications::default(),
    }
}

/// Whether some group in the list is for a source.
pub open spec fn source_present(gs: Seq<PackageGroupModel>, s: PackageSource) -> bool {
    exists|gi: int| 0 <= gi < gs.len() && (#[trigger] gs[gi]).source == s
}

/// All groups are for sources, with positive counts and exact contents.
pub open spec fn groups_exact(gs: Seq<PackageGroupModel>, rv: Seq<PackageRecordModel>) -> bool {
    forall|gi: int|
        0 <= gi < gs.len() ==> (#[trigger] gs[gi]) == spec_group_of(rv, gs[gi].source)
            && gs[gi].count > 0
}

/// One insertion step preserves exactness and source presence.
#[verifier::spinoff_prover]
proof fn lemma_groups_step(
    olds: Seq<PackageGroupModel>,
    news: Seq<PackageGroupModel>,
    g: PackageGroupModel,
    rv: Seq<PackageRecordModel>,
)
    requires
        exists|i: int| 0 <= i < news.len() && #[trigger] news[i] == g,
        forall|i: int|
            0 <= i < olds.len() ==> exists|i2: int|
                0 <= i2 < news.len() && #[trigger] news[i2] == #[trigger] olds[i],
        forall|i2: int|
            0 <= i2 < news.len() ==> (#[trigger] news[i2] == g || exists|i: int|
                0 <= i < olds.len() && #[trigger] olds[i] == news[i2]),
        groups_exact(olds, rv),
        g == spec_group_of(rv, g.source),
        g.count > 0,
    ensures
        groups_exact(news, rv),
        source_present(news, g.source),
        forall|s: PackageSource| source_present(olds, s) ==> #[trigger] source_present(news, s),
        forall|s: PackageSource|
            #[trigger] source_present(news, s) ==> source_present(olds, s) || s == g.source,
{
    assert forall|gi: int| 0 <= gi < news.len() implies (#[trigger] news[gi]) == spec_group_of(
        rv,
        news[gi].source,
    ) && news[gi].count > 0 by {
        if news[gi] == g {
        } else {
            let i = choose|i: int| 0 <= i < olds.len() && #[trigger] olds[i] == news[gi];
            assert(olds[i] == spec_group_of(rv, olds[i].source));
        }
    }
    let iw = choose|i: int| 0 <= i < news.len() && #[trigger] news[i] == g;
    assert(news[iw].source == g.source);
    assert forall|s: PackageSource| source_present(olds, s) implies #[trigger] source_present(
        news,
        s,
    ) by {
        let gi = choose|gi: int| 0 <= gi < olds.len() && (#[trigger] olds[gi]).source == s;
        let i2 = choose|i2: int| 0 <= i2 < news.len() && #[trigger] news[i2] == olds[gi];
        assert(news[i2].source == s);
    }
    assert forall|s: PackageSource| #[trigger] source_present(news, s) implies source_present(
        olds,
        s,
    ) || s == g.source by {
        let gi = choose|gi: int| 0 <= gi < news.len() && (#[trigger] news[gi]).source == s;
        if news[gi] != g {
            let i = choose|i: int| 0 <= i < olds.len() && #[trigger] olds[i] == news[gi];
            assert(olds[i].source == s);
        }
    }
}

/// Add one source's group to the list, if the source has any packages.
#[verifier::spinoff_prover]
#[verifier::rlimit(60)]
fn add_group(groups: &mut Vec<PackageGroup>, records: &Vec<PackageRecord>, src: PackageSource)
    requires
        groups_sorted(old(groups).deep_view()),
        groups_exact(old(groups).deep_view(), records.deep_view()),
        !source_present(old(groups).deep_view(), src),
    ensures
        groups_sorted(final(groups).deep_view()),
        groups_exact(final(groups).deep_view(), records.deep_view()),
        forall|s: PackageSource|
            #[trigger] source_present(final(groups).deep_view(), s) <==> (source_present(
                old(groups).deep_view(),
                s,
            ) || (s == src && spec_group_names(records.deep_view(), src).len() > 0)),
{
    let ghost rv = records.deep_view();
    let ghost before = groups.deep_view();
    let g = make_group(records, src);
    let ghost gm = g@;
    if g.count > 0 {
        proof {
            assert forall|i: int| 0 <= i < before.len() implies (#[trigger] before[i]).source
                != gm.source by {
                if before[i].source == src {
                    assert(source_present(before, src));
                }
            }
        }
        insert_group(groups, g);
        proof {
            lemma_groups_step(before, groups.deep_view(), gm, rv);
        }
    }
}

/// Build the per-source groupings, ordered by ascending count and source
/// rank.
fn build_groups(records: &Vec<PackageRecord>) -> (r: Vec<PackageGroup>)
    ensures
        groups_sorted(r.deep_view()),
        groups_exact(r.deep_view(), records.deep_view()),
        forall|src: PackageSource|
            spec_group_names(records.deep_view(), src).len() > 0 ==> #[trigger] source_present(
                r.deep_view(),
                src,
            ),
{
    let ghost rv = records.deep_view();
    let mut groups: Vec<PackageGroup> = Vec::new();
    proof {
        assert(groups.deep_view() =~= Seq::<PackageGroupModel>::empty());
    }
    add_group(&mut groups, records, PackageSource::Pacman);
    add_group(&mut groups, records, PackageSource::Aur);
    add_group(&mut groups, records, PackageSource::Local);
    add_group(&mut groups, records, PackageSource::Unknown);
    proof {
        let gv = groups.deep_view();
        assert forall|src: PackageSource| spec_group_names(rv, src).len() > 0 implies
            #[trigger] source_present(gv, src) by {
            match src {
                PackageSource::Pacman => {},
                PackageSource::Aur => {},
                PackageSource::Local => {},
                PackageSource::Unknown => {},
            }
        }
    }
    groups
}

/// The group one source contributes.
fn make_group(records: &Vec<PackageRecord>, src: PackageSource) -> (g: PackageGroup)
    ensures
        g@ == spec_group_of(records.deep_view(), src),
        g@.source == src,
        g@.count == spec_group_names(records.deep_view(), src).len(),
{
    let names = group_names(records, src);
    let count = names.len();
    PackageGroup { source: src, count, packages: names }
}

impl ManifestDocument {
    /// Refresh the metadata summaries from the collected application state:
    /// the enablement flags and the installed/device counts; everything
    /// else is left unchanged.
    pub fn refresh_application_metadata(&mut self)
        ensures
            final(self).metadata.apps_flatpak == Some(match old(self).applications.flatpak {
                Some(ref f) => f.enabled,
                None => false,
            }),
            final(self).metadata.apps_fwupd == Some(match old(self).applications.fwupd {
                Some(ref f) => f.enabled,
                None => false,
            }),
            final(self).metadata.application_state == Some(ApplicationStateSummary {
                flatpak: match old(self).applications.flatpak {
                    Some(ref f) => f.installed_count,
                    None => 0,
                },
                fwupd: match old(self).applications.fwupd {
                    Some(ref f) => f.device_count,
                    None => 0,
                },
            }),
            final(self).packages == old(self).packages,
            final(self).packages_by_source == old(self).packages_by_source,
            final(self).applications == old(self).applications,
            final(self).metadata.generated_at == old(self).metadata.generated_at,
            final(self).metadata.generated_by == old(self).metadata.generated_by,
            final(self).metadata.total_packages == old(self).metadata.total_packages,
            final(self).metadata.pacman_packages == old(self).metadata.pacman_packages,
            final(self).metadata.aur_packages == old(self).metadata.aur_packages,
            final(self).metadata.local_packages == old(self).metadata.local_packages,
            final(self).metadata.unknown_packages == old(self).metadata.unknown_packages,
            final(self).metadata.download_size_total == old(self).metadata.download_size_total,
            final(self).metadata.build_size_total == old(self).metadata.build_size_total,
            final(self).metadata.install_size_total == old(self).metadata.install_size_total,
            final(self).metadata.transient_size_total == old(self).metadata.transient_size_total,
    {
        let flatpak_enabled = match &self.applications.flatpak {
            Some(f) => f.enabled,
            None => false,
        };
        let fwupd_enabled = match &self.applications.fwupd {
            Some(f) => f.enabled,
            None => false,
        };
        let flatpak_count = match &self.applications.flatpak {
            Some(f) => f.installed_count,
            None => 0,
        };
        let fwupd_count = match &self.applications.fwupd {
            Some(f) => f.device_count,
            None => 0,
        };
        self.metadata.apps_flatpak = Some(flatpak_enabled);
        self.metadata.apps_fwupd = Some(fwupd_enabled);
        self.metadata.application_state = Some(
            ApplicationStateSummary { flatpak: flatpak_count, fwupd: fwupd_count },
        );
    }
}

/// A record's name is listed under its own source's group.
proof fn lemma_group_names_member(rs: Seq<PackageRecordModel>, i: int)
    requires
        0 <= i < rs.len(),
    ensures
        spec_group_names(rs, rs[i].entry.source).contains(rs[i].name),
    decreases rs.len(),
{
    let src = rs[i].entry.source;
    if i == rs.len() - 1 {
        assert(rs.last() == rs[i]);
        let names = spec_group_names(rs, src);
        assert(names.last() == rs[i].name);
    } else {
        lemma_group_names_member(rs.drop_last(), i);
        let init = spec_group_names(rs.drop_last(), src);
        let k = choose|k: int| 0 <= k < init.len() && init[k] == rs[i].name;
        let names = spec_group_names(rs, src);
        if rs.last().entry.source == src {
            assert(names[k] == init[k]);
        } else {
            assert(names == init);
        }
    }
}

/// A name listed under a source's group belongs to a record of that
/// source.
proof fn lemma_group_names_source(rs: Seq<PackageRecordModel>, src: PackageSource, nm: Seq<char>)
    requires
        spec_group_names(rs, src).contains(nm),
    ensures
        exists|j: int|
            0 <= j < rs.len() && (#[trigger] rs[j]).name == nm && rs[j].entry.source == src,
    decreases rs.len(),
{
    let names = spec_group_names(rs, src);
    if rs.len() > 0 {
        let init = spec_group_names(rs.drop_last(), src);
        if rs.last().entry.source == src && names.last() == nm && names.len() == init.len() + 1 {
            assert(rs[rs.len() - 1].name == nm && rs[rs.len() - 1].entry.source == src);
        } else {
            let k = choose|k: int| 0 <= k < names.len() && names[k] == nm;
            if rs.last().entry.source == src {
                if k < init.len() {
                    assert(init[k] == nm);
                    lemma_group_names_source(rs.drop_last(), src, nm);
                    let j = choose|j: int|
                        0 <= j < rs.drop_last().len() && (#[trigger] rs.drop_last()[j]).name == nm
                            && rs.drop_last()[j].entry.source == src;
                    assert(rs[j].name == nm && rs[j].entry.source == src);
                } else {
                    assert(rs[rs.len() - 1].name == nm && rs[rs.len() - 1].entry.source == src);
                }
            } else {
                assert(init[k] == nm);
                lemma_group_names_source(rs.drop_last(), src, nm);
                let j = choose|j: int|
                    0 <= j < rs.drop_last().len() && (#[trigger] rs.drop_last()[j]).name == nm
                        && rs.drop_last()[j].entry.source == src;
                assert(rs[j].name == nm && rs[j].entry.source == src);
            }
        }
    }
}

/// Every earlier record's name precedes every later one's in a sorted
/// record list.
proof fn lemma_sorted_names_distinct(rs: Seq<PackageRecordModel>, i: int, j: int)
    requires
        records_sorted(rs),
        0 <= i < j < rs.len(),
    ensures
        rs[i].name != rs[j].name,
{
    lemma_sorted_chain(rs, i, j);
    text::lemma_lex_lt_trichotomy(rs[i].name, rs[j].name);
}

proof fn lemma_sorted_chain(rs: Seq<PackageRecordModel>, i: int, j: int)
    requires
        records_sorted(rs),
        0 <= i < j < rs.len(),
    ensures
        text::lex_lt(rs[i].name, rs[j].name),
    decreases j - i,
{
    if j == i + 1 {
    } else {
        lemma_sorted_chain(rs, i, j - 1);
        text::lemma_lex_lt_trans(rs[i].name, rs[j - 1].name, rs[j].name);
    }
}

/// Each package appears in exactly one source bucket: its name is listed
/// under its own source's group and under no other group.
pub proof fn lemma_one_bucket_per_package(
    rs: Seq<PackageRecordModel>,
    gs: Seq<PackageGroupModel>,
    i: int,
)
    requires
        records_sorted(rs),
        groups_sorted(gs),
        groups_exact(gs, rs),
        forall|src: PackageSource|
            spec_group_names(rs, src).len() > 0 ==> #[trigger] source_present(gs, src),
        0 <= i < rs.len(),
    ensures
        exists|gi: int|
            0 <= gi < gs.len() && (#[trigger] gs[gi]).source == rs[i].entry.source
                && gs[gi].packages.contains(rs[i].name),
        forall|gi: int|
            0 <= gi < gs.len() && (#[trigger] gs[gi]).source != rs[i].entry.source
                ==> !gs[gi].packages.contains(rs[i].name),
{
    let src = rs[i].entry.source;
    let nm = rs[i].name;
    lemma_group_names_member(rs, i);
    assert(spec_group_names(rs, src).len() > 0);
    assert(source_present(gs, src));
    let gi = choose|gi: int| 0 <= gi < gs.len() && (#[trigger] gs[gi]).source == src;
    assert(gs[gi] == spec_group_of(rs, src));
    assert(gs[gi].packages.contains(nm));
    assert forall|gj: int|
        0 <= gj < gs.len() && (#[trigger] gs[gj]).source != src implies !gs[gj].packages.contains(
        nm,
    ) by {
        assert(gs[gj] == spec_group_of(rs, gs[gj].source));
        if gs[gj].packages.contains(nm) {
            lemma_group_names_source(rs, gs[gj].source, nm);
            let j = choose|j: int|
                0 <= j < rs.len() && (#[trigger] rs[j]).name == nm && rs[j].entry.source
                    == gs[gj].source;
            if j < i {
                lemma_sorted_names_distinct(rs, j, i);
            } else if j > i {
                lemma_sorted_names_distinct(rs, i, j);
            }
            assert(j == i);
            assert(false);
        }
    }
}

} // verus!


