//! Firmware update state: normalize the heterogeneous device/release data
//! the firmware manager reports (inconsistent field casing, several
//! checksum and trust spellings) into the library's data model, and select
//! pending firmware updates.
//!
//! A release whose version equals the installed version is never an update,
//! whatever its other metadata says.

use vstd::prelude::*;

verus! {

use vstd::string::StrSliceExecFns;
use vstd::string::StringExecFns;
use crate::manifest::{spec_truncate_hash, truncate_hash};
use crate::text;

/// A release as the firmware manager reports it, after JSON decoding:
/// every field optional, checksum and trust lists under either spelling.
#[derive(Debug)]
pub struct FwupdRawRelease {
    pub version: Option<String>,
    pub summary: Option<String>,
    pub description: Option<String>,
    pub checksum: Option<String>,
    pub checksums: Option<Vec<String>>,
    pub checksums_alt: Option<Vec<String>>,
    pub trust_flags: Option<Vec<String>>,
    pub trust_flags_alt: Option<Vec<String>>,
    pub signed: Option<bool>,
}

/// A device as the firmware manager reports it, after JSON decoding.
#[derive(Debug)]
pub struct FwupdRawDevice {
    pub id: Option<String>,
    pub device_id: Option<String>,
    pub name: Option<String>,
    pub version: Option<String>,
    pub version_bootloader: Option<String>,
    pub summary: Option<String>,
    pub description: Option<String>,
    pub checksum: Option<String>,
    pub checksums: Option<Vec<String>>,
    pub checksums_alt: Option<Vec<String>>,
    pub trust_flags: Option<Vec<String>>,
    pub trust_flags_alt: Option<Vec<String>>,
}

/// A device in the pending-updates report: its identity, the installed
/// version, and the offered releases.
#[derive(Debug)]
pub struct FwupdUpdateDevice {
    pub device_id: Option<String>,
    pub id: Option<String>,
    pub name: Option<String>,
    pub installed: Option<String>,
    pub releases: Option<Vec<FwupdRawRelease>>,
    pub releases_alt: Option<Vec<FwupdRawRelease>>,
}

/// One normalized firmware release.
#[derive(Debug)]
pub struct FwupdRelease {
    pub version: String,
    pub summary: String,
    pub checksum: String,
    pub trust: String,
}

/// One normalized firmware device for the manifest.
#[derive(Debug)]
pub struct FwupdDevice {
    pub device: String,
    pub name: String,
    pub installed: String,
    pub summary: String,
    pub checksum: String,
    pub trust: String,
    pub releases: Vec<FwupdRelease>,
}

/// Collected firmware state for the manifest.
#[derive(Debug)]
pub struct FwupdState {
    pub enabled: bool,
    pub device_count: usize,
    pub devices: Vec<FwupdDevice>,
    pub update_count: usize,
    pub updates: Vec<FwupdUpdate>,
}

/// One pending firmware update.
#[derive(Debug)]
pub struct FwupdUpdate {
    pub device: String,
    pub name: String,
    pub installed: String,
    pub available: String,
    pub summary: String,
    pub available_hash: String,
    pub trust: String,
}

/// Mathematical model of a `FwupdUpdate`.
pub ghost struct FwupdUpdateModel {
    pub device: Seq<char>,
    pub name: Seq<char>,
    pub installed: Seq<char>,
    pub available: Seq<char>,
    pub summary: Seq<char>,
    pub available_hash: Seq<char>,
    pub trust: Seq<char>,
}

impl View for FwupdUpdate {
    type V = FwupdUpdateModel;

    open spec fn view(&self) -> FwupdUpdateModel {
        FwupdUpdateModel {
            device: self.device@,
            name: self.name@,
            installed: self.installed@,
            available: self.available@,
            summary: self.summary@,
            available_hash: self.available_hash@,
            trust: self.trust@,
        }
    }
}

impl DeepView for FwupdUpdate {
    type V = FwupdUpdateModel;

    open spec fn deep_view(&self) -> FwupdUpdateModel {
        self.view()
    }
}

/// The view of an optional owned string, an absent one reading as a given
/// fallback.
pub open spec fn opt_or(v: Option<String>, fallback: Seq<char>) -> Seq<char> {
    match v {
        Some(s) => s@,
        None => fallback,
    }
}

/// The first of two optional strings, viewed; empty when both are absent.
pub open spec fn opt_first(a: Option<String>, b: Option<String>) -> Seq<char> {
    match a {
        Some(s) => s@,
        None => opt_or(b, Seq::empty()),
    }
}

/// Take the first of two optional strings, falling back to empty.
pub fn first_string(a: Option<String>, b: Option<String>) -> (r: String)
    ensures
        r@ == opt_first(a, b),
{
    match a {
        Some(s) => s,
        None => match b {
            Some(s) => s,
            None => String::new(),
        },
    }
}

/// The first non-empty string in a list, or empty.
pub open spec fn spec_first_non_empty(list: Seq<Seq<char>>) -> Seq<char>
    decreases list.len(),
{
    if list.len() == 0 {
        Seq::empty()
    } else if list[0].len() > 0 {
        list[0]
    } else {
        spec_first_non_empty(list.drop_first())
    }
}

/// Find the first non-empty string in a list.
fn first_non_empty(list: &Vec<String>) -> (r: String)
    ensures
        r@ == spec_first_non_empty(list.deep_view()),
{
    let mut i: usize = 0;
    proof {
        assert(list.deep_view().skip(0) =~= list.deep_view());
    }
    while i < list.len()
        invariant
            i <= list@.len(),
            spec_first_non_empty(list.deep_view()) == spec_first_non_empty(
                list.deep_view().skip(i as int),
            ),
        decreases list@.len() - i,
    {
        let s = &list[i];
        proof {
            let lv = list.deep_view();
            assert(lv.skip(i as int)[0] == lv[i as int]);
            assert(lv[i as int] == list@[i as int]@);
            assert(lv.skip(i as int).drop_first() =~= lv.skip(i + 1));
        }
        if s.as_str().unicode_len() > 0 {
            return s.clone();
        }
        i = i + 1;
    }
    proof {
        assert(list.deep_view().skip(list@.len() as int) =~= Seq::<Seq<char>>::empty());
    }
    String::new()
}

/// The checksum chosen for display: the first non-empty field in the
/// fallback order — the scalar checksum, then the first non-empty entry of
/// the primary list, then of the alternate list — else nothing. An empty
/// scalar falls through to the lists.
pub open spec fn spec_select_checksum(
    checksum: Option<String>,
    checksums: Option<Vec<String>>,
    checksums_alt: Option<Vec<String>>,
) -> Seq<char> {
    let scalar: Seq<char> = match checksum {
        Some(cs) => cs@,
        None => Seq::empty(),
    };
    if scalar.len() > 0 {
        scalar
    } else {
        let first = match checksums {
            Some(list) => spec_first_non_empty(list.deep_view()),
            None => Seq::empty(),
        };
        if first.len() > 0 {
            first
        } else {
            match checksums_alt {
                Some(list) => spec_first_non_empty(list.deep_view()),
                None => Seq::empty(),
            }
        }
    }
}

/// Select the first non-empty checksum among the spellings a release may
/// carry, in the fallback order.
pub fn select_checksum(
    checksum: Option<String>,
    checksums: Option<Vec<String>>,
    checksums_alt: Option<Vec<String>>,
) -> (r: String)
    ensures
        r@ == spec_select_checksum(checksum, checksums, checksums_alt),
{
    let scalar = match checksum {
        Some(cs) => cs,
        None => String::new(),
    };
    if scalar.as_str().unicode_len() > 0 {
        scalar
    } else {
        let first = match &checksums {
            Some(list) => first_non_empty(list),
            None => String::new(),
        };
        if first.as_str().unicode_len() > 0 {
            first
        } else {
            match &checksums_alt {
                Some(list) => first_non_empty(list),
                None => String::new(),
            }
        }
    }
}

/// The non-empty entries of a list, joined with commas.
pub open spec fn spec_join_non_empty(list: Seq<Seq<char>>) -> Seq<char>
    decreases list.len(),
{
    if list.len() == 0 {
        Seq::empty()
    } else {
        let rest = spec_join_non_empty(list.drop_first());
        if list[0].len() == 0 {
            rest
        } else if rest.len() == 0 {
            list[0]
        } else {
            list[0] + ","@ + rest
        }
    }
}

/// The trust flags joined for display: from the first list present, its
/// non-empty entries joined with commas; `None` when no list is present or
/// nothing is left.
pub open spec fn spec_join_trust(
    primary: Option<Vec<String>>,
    alt: Option<Vec<String>>,
) -> Option<Seq<char>> {
    let list = match primary {
        Some(l) => Some(l),
        None => alt,
    };
    match list {
        None => None,
        Some(l) => {
            let joined = spec_join_non_empty(l.deep_view());
            if joined.len() == 0 {
                None
            } else {
                Some(joined)
            }
        },
    }
}

/// Join the non-empty entries of a list with commas, back to front.
fn join_non_empty(list: &Vec<String>) -> (r: String)
    ensures
        r@ == spec_join_non_empty(list.deep_view()),
{
    let mut r = String::new();
    let mut i: usize = list.len();
    proof {
        assert(list.deep_view().skip(list@.len() as int) =~= Seq::<Seq<char>>::empty());
    }
    while i > 0
        invariant
            i <= list@.len(),
            r@ == spec_join_non_empty(list.deep_view().skip(i as int)),
        decreases i,
    {
        i = i - 1;
        let s = &list[i];
        proof {
            let lv = list.deep_view();
            assert(lv.skip(i as int)[0] == lv[i as int]);
            assert(lv[i as int] == list@[i as int]@);
            assert(lv.skip(i as int).drop_first() =~= lv.skip(i + 1));
        }
        if s.as_str().unicode_len() > 0 {
            if r.as_str().unicode_len() > 0 {
                let mut joined = s.clone();
                joined.append(",");
                joined.append(r.as_str());
                r = joined;
            } else {
                r = s.clone();
            }
        }
    }
    proof {
        assert(list.deep_view().skip(0) =~= list.deep_view());
    }
    r
}

/// Join the trust flags of a release for display.
pub fn join_trust(primary: Option<Vec<String>>, alt: Option<Vec<String>>) -> (r: Option<String>)
    ensures
        match spec_join_trust(primary, alt) {
            Some(j) => r matches Some(s) && s@ == j,
            None => r is None,
        },
{
    let list = match primary {
        Some(l) => Some(l),
        None => alt,
    };
    match list {
        None => None,
        Some(l) => {
            let joined = join_non_empty(&l);
            if joined.as_str().unicode_len() == 0 {
                None
            } else {
                Some(joined)
            }
        },
    }
}

/// The first of two optional strings, viewed, with a named fallback.
pub open spec fn opt_first_or(a: Option<String>, b: Option<String>, fallback: Seq<char>) -> Seq<
    char,
> {
    match a {
        Some(s) => s@,
        None => opt_or(b, fallback),
    }
}

/// Take the first of two optional strings, with a fallback.
pub fn first_string_or(a: Option<String>, b: Option<String>, fallback: &str) -> (r: String)
    ensures
        r@ == opt_first_or(a, b, fallback@),
{
    match a {
        Some(s) => s,
        None => match b {
            Some(s) => s,
            None => fallback.to_owned(),
        },
    }
}

/// The identity a device in the updates report goes by.
pub open spec fn spec_update_device_id(d: &FwupdUpdateDevice) -> Seq<char> {
    opt_first_or(d.device_id, d.id, "unknown"@)
}

/// The display name of a device in the updates report.
pub open spec fn spec_update_device_name(d: &FwupdUpdateDevice) -> Seq<char> {
    opt_or(d.name, spec_update_device_id(d))
}

/// The releases a device in the updates report offers, under either
/// spelling.
pub open spec fn spec_update_releases(d: &FwupdUpdateDevice) -> Seq<FwupdRawRelease> {
    match d.releases {
        Some(l) => l@,
        None => match d.releases_alt {
            Some(l) => l@,
            None => Seq::empty(),
        },
    }
}

/// The trust label of a release: its joined trust flags, else its signature
/// bit, else nothing.
pub open spec fn spec_release_trust(rel: &FwupdRawRelease) -> Seq<char> {
    match spec_join_trust(rel.trust_flags, rel.trust_flags_alt) {
        Some(j) => j,
        None => match rel.signed {
            Some(true) => "signed"@,
            Some(false) => "unsigned"@,
            None => Seq::empty(),
        },
    }
}

/// The update one release yields, if any: a release with no version, or
/// whose version equals the installed version, yields none.
pub open spec fn spec_release_update(
    device: Seq<char>,
    name: Seq<char>,
    installed: Seq<char>,
    rel: &FwupdRawRelease,
) -> Option<FwupdUpdateModel> {
    let available = opt_or(rel.version, Seq::empty());
    if available.len() == 0 || (installed.len() > 0 && installed == available) {
        None
    } else {
        Some(
            FwupdUpdateModel {
                device,
                name,
                installed,
                available,
                summary: opt_first(rel.summary, rel.description),
                available_hash: spec_truncate_hash(
                    spec_select_checksum(rel.checksum, rel.checksums, rel.checksums_alt),
                ),
                trust: spec_release_trust(rel),
            },
        )
    }
}

/// The updates a prefix of one device's release list yields, in order.
pub open spec fn spec_releases_updates(
    device: Seq<char>,
    name: Seq<char>,
    installed: Seq<char>,
    rels: Seq<FwupdRawRelease>,
) -> Seq<FwupdUpdateModel>
    decreases rels.len(),
{
    if rels.len() == 0 {
        Seq::empty()
    } else {
        let init = spec_releases_updates(device, name, installed, rels.drop_last());
        match spec_release_update(device, name, installed, &rels.last()) {
            Some(u) => init.push(u),
            None => init,
        }
    }
}

/// The updates one device yields.
pub open spec fn spec_device_updates(d: &FwupdUpdateDevice) -> Seq<FwupdUpdateModel> {
    spec_releases_updates(
        spec_update_device_id(d),
        spec_update_device_name(d),
        opt_or(d.installed, Seq::empty()),
        spec_update_releases(d),
    )
}

/// The updates a device list yields, devices in order.
pub open spec fn spec_all_updates(devs: Seq<FwupdUpdateDevice>) -> Seq<FwupdUpdateModel>
    decreases devs.len(),
{
    if devs.len() == 0 {
        Seq::empty()
    } else {
        spec_all_updates(devs.drop_last()) + spec_device_updates(&devs.last())
    }
}

/// A release whose version string equals the installed version never
/// appears in the update list, even when its other metadata differs; nor
/// does a release without a version.
pub proof fn lemma_release_filtering(devs: Seq<FwupdUpdateDevice>)
    ensures
        forall|k: int|
            0 <= k < spec_all_updates(devs).len() ==> (#[trigger] spec_all_updates(
                devs,
            )[k]).available.len() > 0 && !(spec_all_updates(devs)[k].installed.len() > 0
                && spec_all_updates(devs)[k].installed == spec_all_updates(devs)[k].available),
    decreases devs.len(),
{
    if devs.len() > 0 {
        lemma_release_filtering(devs.drop_last());
        let d = devs.last();
        lemma_device_release_filtering(
            spec_update_device_id(&d),
            spec_update_device_name(&d),
            opt_or(d.installed, Seq::empty()),
            spec_update_releases(&d),
        );
        let init = spec_all_updates(devs.drop_last());
        let tail = spec_device_updates(&d);
        let cur = spec_all_updates(devs);
        assert forall|k: int| 0 <= k < cur.len() implies (#[trigger] cur[k]).available.len() > 0
            && !(cur[k].installed.len() > 0 && cur[k].installed == cur[k].available) by {
            if k < init.len() {
                assert(cur[k] == init[k]);
            } else {
                assert(cur[k] == tail[k - init.len()]);
            }
        }
    }
}

proof fn lemma_device_release_filtering(
    device: Seq<char>,
    name: Seq<char>,
    installed: Seq<char>,
    rels: Seq<FwupdRawRelease>,
)
    ensures
        forall|k: int|
            0 <= k < spec_releases_updates(device, name, installed, rels).len() ==> ({
                let u = #[trigger] spec_releases_updates(device, name, installed, rels)[k];
                u.available.len() > 0 && !(u.installed.len() > 0 && u.installed == u.available)
            }),
    decreases rels.len(),
{
    if rels.len() > 0 {
        lemma_device_release_filtering(device, name, installed, rels.drop_last());
        let init = spec_releases_updates(device, name, installed, rels.drop_last());
        let cur = spec_releases_updates(device, name, installed, rels);
        assert forall|k: int| 0 <= k < cur.len() implies ({
            let u = #[trigger] cur[k];
            u.available.len() > 0 && !(u.installed.len() > 0 && u.installed == u.available)
        }) by {
            if k < init.len() {
                assert(cur[k] == init[k]);
            }
        }
    }
}

/// Turn one release into its update entry, if the release offers one.
fn release_update(
    device: &String,
    name: &String,
    installed: &String,
    rel: FwupdRawRelease,
) -> (r: Option<FwupdUpdate>)
    ensures
        match spec_release_update(device@, name@, installed@, &rel) {
            Some(u) => r matches Some(e) && e@ == u,
            None => r is None,
        },
{
    let ghost grel = rel;
    let FwupdRawRelease {
        version,
        summary,
        description,
        checksum,
        checksums,
        checksums_alt,
        trust_flags,
        trust_flags_alt,
        signed,
    } = rel;
    let available = match version {
        Some(v) => v,
        None => String::new(),
    };
    proof {
        assert(available@ == opt_or(grel.version, Seq::empty()));
    }
    if available.as_str().unicode_len() == 0 {
        return None;
    }
    if installed.as_str().unicode_len() > 0 && *installed == available {
        return None;
    }
    let summary = first_string(summary, description);
    let checksum = select_checksum(checksum, checksums, checksums_alt);
    let available_hash = truncate_hash(checksum.as_str());
    let trust = match join_trust(trust_flags, trust_flags_alt) {
        Some(j) => j,
        None => match signed {
            Some(true) => "signed".to_owned(),
            Some(false) => "unsigned".to_owned(),
            None => String::new(),
        },
    };
    Some(
        FwupdUpdate {
            device: device.clone(),
            name: name.clone(),
            installed: installed.clone(),
            available,
            summary,
            available_hash,
            trust,
        },
    )
}

/// The updates one device offers, releases in order.
fn device_updates(d: FwupdUpdateDevice) -> (r: Vec<FwupdUpdate>)
    ensures
        r.deep_view() == spec_device_updates(&d),
{
    let ghost dg = d;
    let FwupdUpdateDevice { device_id, id, name, installed, releases, releases_alt } = d;
    let ghost spec_id = spec_update_device_id(&dg);
    let device = first_string_or(device_id, id, "unknown");
    let name = match name {
        Some(n) => n,
        None => device.clone(),
    };
    let installed = match installed {
        Some(v) => v,
        None => String::new(),
    };
    let rels: Vec<FwupdRawRelease> = match releases {
        Some(l) => l,
        None => match releases_alt {
            Some(l) => l,
            None => Vec::new(),
        },
    };
    proof {
        assert(device@ == spec_update_device_id(&dg));
        assert(name@ == spec_update_device_name(&dg));
        assert(installed@ == opt_or(dg.installed, Seq::empty()));
        assert(rels@ =~= spec_update_releases(&dg));
    }
    releases_updates(&device, &name, &installed, rels)
}

/// The updates a release list offers, consumed from the back.
fn releases_updates(
    device: &String,
    name: &String,
    installed: &String,
    rels: Vec<FwupdRawRelease>,
) -> (r: Vec<FwupdUpdate>)
    ensures
        r.deep_view() == spec_releases_updates(device@, name@, installed@, rels@),
    decreases rels@.len(),
{
    let mut rels = rels;
    match rels.pop() {
        None => {
            let out: Vec<FwupdUpdate> = Vec::new();
            proof {
                assert(out.deep_view() =~= Seq::<FwupdUpdateModel>::empty());
            }
            out
        },
        Some(rel) => {
            let ghost full = rels@.push(rel);
            let mut out = releases_updates(device, name, installed, rels);
            let ghost before = out.deep_view();
            match release_update(device, name, installed, rel) {
                Some(u) => {
                    out.push(u);
                },
                None => {},
            }
            proof {
                assert(full.drop_last() =~= rels@);
                assert(out.deep_view() =~= spec_releases_updates(device@, name@, installed@,
                    full));
            }
            out
        },
    }
}

/// Mathematical model of a `FwupdRelease`.
pub ghost struct FwupdReleaseModel {
    pub version: Seq<char>,
    pub summary: Seq<char>,
    pub checksum: Seq<char>,
    pub trust: Seq<char>,
}

impl View for FwupdRelease {
    type V = FwupdReleaseModel;

    open spec fn view(&self) -> FwupdReleaseModel {
        FwupdReleaseModel {
            version: self.version@,
            summary: self.summary@,
            checksum: self.checksum@,
            trust: self.trust@,
        }
    }
}

impl DeepView for FwupdRelease {
    type V = FwupdReleaseModel;

    open spec fn deep_view(&self) -> FwupdReleaseModel {
        self.view()
    }
}

/// Mathematical model of a `FwupdDevice`.
pub ghost struct FwupdDeviceModel {
    pub device: Seq<char>,
    pub name: Seq<char>,
    pub installed: Seq<char>,
    pub summary: Seq<char>,
    pub checksum: Seq<char>,
    pub trust: Seq<char>,
    pub releases: Seq<FwupdReleaseModel>,
}

impl View for FwupdDevice {
    type V = FwupdDeviceModel;

    open spec fn view(&self) -> FwupdDeviceModel {
        FwupdDeviceModel {
            device: self.device@,
            name: self.name@,
            installed: self.installed@,
            summary: self.summary@,
            checksum: self.checksum@,
            trust: self.trust@,
            releases: self.releases.deep_view(),
        }
    }
}

impl DeepView for FwupdDevice {
    type V = FwupdDeviceModel;

    open spec fn deep_view(&self) -> FwupdDeviceModel {
        self.view()
    }
}

/// The manifest's record of one reported device: identity with fallbacks,
/// the installed firmware version, the chosen checksum cut to display
/// length, and the joined trust flags. The manifest reflects the current
/// state, so pending release data is left out.
pub open spec fn spec_manifest_device(d: &FwupdRawDevice) -> FwupdDeviceModel {
    let device = opt_first_or(d.id, d.device_id, "unknown"@);
    FwupdDeviceModel {
        device,
        name: opt_or(d.name, device),
        installed: opt_first(d.version, d.version_bootloader),
        summary: opt_first(d.summary, d.description),
        checksum: spec_truncate_hash(
            spec_select_checksum(d.checksum, d.checksums, d.checksums_alt),
        ),
        trust: match spec_join_trust(d.trust_flags, d.trust_flags_alt) {
            Some(j) => j,
            None => Seq::empty(),
        },
        releases: Seq::empty(),
    }
}

/// The manifest's records for a reported device list, in order.
pub open spec fn spec_manifest_devices(devs: Seq<FwupdRawDevice>) -> Seq<FwupdDeviceModel>
    decreases devs.len(),
{
    if devs.len() == 0 {
        Seq::empty()
    } else {
        spec_manifest_devices(devs.drop_last()).push(spec_manifest_device(&devs.last()))
    }
}

/// Normalize one reported device into its manifest record.
fn manifest_device(d: FwupdRawDevice) -> (r: FwupdDevice)
    ensures
        r@ == spec_manifest_device(&d),
{
    let ghost gd = d;
    let FwupdRawDevice {
        id,
        device_id,
        name,
        version,
        version_bootloader,
        summary,
        description,
        checksum,
        checksums,
        checksums_alt,
        trust_flags,
        trust_flags_alt,
    } = d;
    let device = first_string_or(id, device_id, "unknown");
    let name = match name {
        Some(n) => n,
        None => device.clone(),
    };
    let installed = first_string(version, version_bootloader);
    let summary = first_string(summary, description);
    let chosen = select_checksum(checksum, checksums, checksums_alt);
    let checksum = truncate_hash(chosen.as_str());
    let trust = match join_trust(trust_flags, trust_flags_alt) {
        Some(j) => j,
        None => String::new(),
    };
    let r = FwupdDevice { device, name, installed, summary, checksum, trust, releases: Vec::new() };
    proof {
        assert(r.releases.deep_view() =~= Seq::<FwupdReleaseModel>::empty());
    }
    r
}

/// Normalize the reported devices for the manifest, consumed from the back.
pub fn collect_fwupd(devices: Vec<FwupdRawDevice>) -> (r: Vec<FwupdDevice>)
    ensures
        r.deep_view() == spec_manifest_devices(devices@),
    decreases devices@.len(),
{
    let mut devices = devices;
    match devices.pop() {
        None => {
            let out: Vec<FwupdDevice> = Vec::new();
            proof {
                assert(out.deep_view() =~= Seq::<FwupdDeviceModel>::empty());
            }
            out
        },
        Some(d) => {
            let ghost full = devices@.push(d);
            let mut out = collect_fwupd(devices);
            let ghost before = out.deep_view();
            out.push(manifest_device(d));
            proof {
                assert(full.drop_last() =~= devices@);
                assert(out.deep_view() =~= spec_manifest_devices(full)) by {
                    assert forall|k: int| 0 <= k < out.deep_view().len() implies out.deep_view()[k]
                        == spec_manifest_devices(full)[k] by {
                        if k < before.len() {
                            assert(out.deep_view()[k] == before[k]);
                        }
                    }
                }
            }
            out
        },
    }
}

/// Assemble the firmware state the manifest records.
pub fn build_fwupd_state(devices: Vec<FwupdDevice>, updates: Vec<FwupdUpdate>) -> (r: FwupdState)
    ensures
        r.enabled,
        r.device_count == devices@.len(),
        r.update_count == updates@.len(),
        r.devices.deep_view() == devices.deep_view(),
        r.updates.deep_view() == updates.deep_view(),
{
    let device_count = devices.len();
    let update_count = updates.len();
    FwupdState { enabled: true, device_count, devices, update_count, updates }
}

/// Select the pending firmware updates from the devices the firmware
/// manager reported: one entry per offered release, skipping releases
/// without a version and releases already installed.
pub fn collect_fwupd_updates(devices: Vec<FwupdUpdateDevice>) -> (r: Vec<FwupdUpdate>)
    ensures
        r.deep_view() == spec_all_updates(devices@),
    decreases devices@.len(),
{
    let mut devices = devices;
    match devices.pop() {
        None => {
            let out: Vec<FwupdUpdate> = Vec::new();
            proof {
                assert(out.deep_view() =~= Seq::<FwupdUpdateModel>::empty());
            }
            out
        },
        Some(d) => {
            let ghost full = devices@.push(d);
            let mut out = collect_fwupd_updates(devices);
            let mut tail = device_updates(d);
            let ghost out_before = out.deep_view();
            let ghost tail_view = tail.deep_view();
            out.append(&mut tail);
            proof {
                assert(full.drop_last() =~= devices@);
                assert(out.deep_view() =~= out_before + tail_view) by {
                    assert forall|k: int| 0 <= k < out.deep_view().len() implies out.deep_view()[k]
                        == (out_before + tail_view)[k] by {
                        if k < out_before.len() {
                        } else {
                        }
                    }
                }
                assert(out.deep_view() =~= spec_all_updates(full));
            }
            out
        },
    }
}

} // verus!
