//! Listing applicable updates from a manifest, with name filtering:
//! explicit package selection, per-source switches, and acceptance or
//! rejection patterns matched by the regular-expression engine.

use vstd::prelude::*;

verus! {

use crate::manifest::{ManifestDocument, PackageRecordModel, PackageSource};

/// Whether a pattern is a valid regular expression.
pub uninterp spec fn regex_valid(pat: Seq<char>) -> bool;

/// Whether a valid pattern matches anywhere in a text.
pub uninterp spec fn regex_match(pat: Seq<char>, text: Seq<char>) -> bool;

/// Relies on `regex::Regex::new` and `regex::Regex::is_match`: whether a
/// pattern compiles depends on the pattern alone, and whether the compiled
/// expression matches somewhere in a text depends on the pattern and the
/// text alone. An invalid pattern yields nothing.
#[verifier::external_body]
fn regex_matches(pat: &str, text: &str) -> (r: Option<bool>)
    ensures
        r is Some <==> regex_valid(pat@),
        r matches Some(b) ==> b == regex_match(pat@, text@),
{
    regex::Regex::new(pat).ok().map(|re| re.is_match(text))
}

/// One applicable update.
#[derive(Debug)]
pub struct UpdateEntry {
    pub name: String,
    pub source: String,
    pub installed: String,
    pub available: String,
}

/// Mathematical model of an `UpdateEntry`.
pub ghost struct UpdateEntryModel {
    pub name: Seq<char>,
    pub source: Seq<char>,
    pub installed: Seq<char>,
    pub available: Seq<char>,
}

impl View for UpdateEntry {
    type V = UpdateEntryModel;

    open spec fn view(&self) -> UpdateEntryModel {
        UpdateEntryModel {
            name: self.name@,
            source: self.source@,
            installed: self.installed@,
            available: self.available@,
        }
    }
}

impl DeepView for UpdateEntry {
    type V = UpdateEntryModel;

    open spec fn deep_view(&self) -> UpdateEntryModel {
        self.view()
    }
}

/// How the update listing is filtered.
#[derive(Debug)]
pub struct UpdatesFilter {
    /// The manifest path the caller reads the document from.
    pub manifest: String,
    /// Acceptance patterns: when any is valid, a name must match one.
    pub accept: Vec<String>,
    /// Rejection patterns: a name matching any valid one is dropped.
    pub reject: Vec<String>,
    /// Whether repository packages are listed.
    pub allow_repo: bool,
    /// Whether archive packages are listed.
    pub allow_aur: bool,
    /// Restrict to these package names, when non-empty.
    pub packages: Vec<String>,
}

/// Whether a pattern is valid.
pub open spec fn pat_valid(pat: Seq<char>) -> bool {
    regex_valid(pat)
}

/// Whether some valid pattern in the list matches the name.
pub open spec fn any_pattern_matches(pats: Seq<Seq<char>>, name: Seq<char>) -> bool {
    exists|i: int|
        0 <= i < pats.len() && pat_valid(#[trigger] pats[i]) && regex_match(pats[i], name)
}

/// Whether the acceptance patterns let a name through: with no valid pattern
/// at all everything passes, else some valid pattern must match.
pub open spec fn accept_allows(pats: Seq<Seq<char>>, name: Seq<char>) -> bool {
    (forall|i: int| 0 <= i < pats.len() ==> !pat_valid(#[trigger] pats[i]))
        || any_pattern_matches(pats, name)
}

/// Test whether some valid pattern matches the name.
fn matches_any(pats: &Vec<String>, name: &str) -> (r: bool)
    ensures
        r == any_pattern_matches(pats.deep_view(), name@),
{
    let mut i: usize = 0;
    while i < pats.len()
        invariant
            i <= pats@.len(),
            forall|j: int|
                0 <= j < i ==> !(pat_valid(#[trigger] pats.deep_view()[j]) && regex_match(
                    pats.deep_view()[j],
                    name@,
                )),
        decreases pats@.len() - i,
    {
        proof {
            assert(pats.deep_view()[i as int] == pats@[i as int]@);
        }
        match regex_matches(pats[i].as_str(), name) {
            Some(true) => {
                return true;
            },
            _ => {},
        }
        i = i + 1;
    }
    false
}

/// Test whether the acceptance patterns let a name through.
fn passes_accept(pats: &Vec<String>, name: &str) -> (r: bool)
    ensures
        r == accept_allows(pats.deep_view(), name@),
{
    let mut i: usize = 0;
    let mut any_valid = false;
    while i < pats.len()
        invariant
            i <= pats@.len(),
            any_valid == !(forall|j: int|
                0 <= j < i ==> !pat_valid(#[trigger] pats.deep_view()[j])),
            forall|j: int|
                0 <= j < i ==> !(pat_valid(#[trigger] pats.deep_view()[j]) && regex_match(
                    pats.deep_view()[j],
                    name@,
                )),
        decreases pats@.len() - i,
    {
        proof {
            assert(pats.deep_view()[i as int] == pats@[i as int]@);
        }
        match regex_matches(pats[i].as_str(), name) {
            Some(true) => {
                return true;
            },
            Some(false) => {
                any_valid = true;
            },
            None => {},
        }
        i = i + 1;
    }
    !any_valid
}

/// Whether a record is listed under the filter: an update must be
/// available; an explicit package selection, the per-source switches, and
/// the acceptance and rejection patterns must all let the name through.
pub open spec fn spec_record_listed(
    rec: PackageRecordModel,
    packages: Seq<Seq<char>>,
    accept: Seq<Seq<char>>,
    reject: Seq<Seq<char>>,
    allow_repo: bool,
    allow_aur: bool,
) -> bool {
    &&& (packages.len() > 0 ==> crate::pacman::name_in_list(packages, rec.name))
    &&& rec.entry.update_available
    &&& !(rec.entry.source == PackageSource::Pacman && !allow_repo)
    &&& !(rec.entry.source == PackageSource::Aur && !allow_aur)
    &&& accept_allows(accept, rec.name)
    &&& !any_pattern_matches(reject, rec.name)
}

/// The entry a listed record yields.
pub open spec fn spec_entry_of(rec: PackageRecordModel) -> UpdateEntryModel {
    UpdateEntryModel {
        name: rec.name,
        source: rec.entry.source.spec_label(),
        installed: rec.entry.installed_version,
        available: match rec.entry.newer_version {
            Some(v) => v,
            None => Seq::empty(),
        },
    }
}

/// The applicable updates among the manifest's records, in manifest
/// order.
pub open spec fn spec_collect_updates(
    records: Seq<PackageRecordModel>,
    packages: Seq<Seq<char>>,
    accept: Seq<Seq<char>>,
    reject: Seq<Seq<char>>,
    allow_repo: bool,
    allow_aur: bool,
) -> Seq<UpdateEntryModel>
    decreases records.len(),
{
    if records.len() == 0 {
        Seq::empty()
    } else {
        let init = spec_collect_updates(records.drop_last(), packages, accept, reject,
            allow_repo, allow_aur);
        if spec_record_listed(records.last(), packages, accept, reject, allow_repo, allow_aur) {
            init.push(spec_entry_of(records.last()))
        } else {
            init
        }
    }
}

/// List the applicable updates recorded in a manifest document, filtered.
pub fn collect_updates(document: &ManifestDocument, filter: &UpdatesFilter) -> (r: Vec<
    UpdateEntry,
>)
    ensures
        r.deep_view() == spec_collect_updates(document.packages.deep_view(),
            filter.packages.deep_view(), filter.accept.deep_view(), filter.reject.deep_view(),
            filter.allow_repo, filter.allow_aur),
{
    let records = &document.packages;
    let mut r: Vec<UpdateEntry> = Vec::new();
    let mut i: usize = 0;
    proof {
        assert(records.deep_view().take(0) =~= Seq::<PackageRecordModel>::empty());
        assert(r.deep_view() =~= Seq::<UpdateEntryModel>::empty());
    }
    while i < records.len()
        invariant
            i <= records@.len(),
            records == &document.packages,
            r.deep_view() =~= spec_collect_updates(records.deep_view().take(i as int),
                filter.packages.deep_view(), filter.accept.deep_view(),
                filter.reject.deep_view(), filter.allow_repo, filter.allow_aur),
        decreases records@.len() - i,
    {
        proof {
            let rv = records.deep_view();
            assert(rv.take(i + 1).drop_last() =~= rv.take(i as int));
            assert(rv.take(i + 1).last() == rv[i as int]);
            assert(records@[i as int]@ == rv[i as int]);
        }
        let rec = &records[i];
        let selected = if filter.packages.len() > 0 {
            crate::pacman::contains_name(&filter.packages, &rec.name)
        } else {
            true
        };
        if selected && rec.entry.update_available {
            let source_ok = match rec.entry.source {
                PackageSource::Pacman => filter.allow_repo,
                PackageSource::Aur => filter.allow_aur,
                _ => true,
            };
            if source_ok && passes_accept(&filter.accept, rec.name.as_str()) && !matches_any(
                &filter.reject,
                rec.name.as_str(),
            ) {
                let available = match &rec.entry.newer_version {
                    Some(v) => v.clone(),
                    None => String::new(),
                };
                let entry = UpdateEntry {
                    name: rec.name.clone(),
                    source: rec.entry.source.label().to_owned(),
                    installed: rec.entry.installed_version.clone(),
                    available,
                };
                let ghost before = r.deep_view();
                r.push(entry);
                proof {
                    assert(r.deep_view() =~= before.push(r.deep_view().last()));
                }
            }
        }
        i = i + 1;
    }
    proof {
        assert(records.deep_view().take(records@.len() as int) =~= records.deep_view());
    }
    r
}

} // verus!
