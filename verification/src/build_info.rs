//! Build provenance as recorded in logs and reports. The caller fills the
//! fields in at build time; the library only carries and formats them.

use vstd::prelude::*;

verus! {

use vstd::string::StrSliceExecFns;
use vstd::string::StringExecFns;

/// Provenance of the running binary.
#[derive(Debug)]
pub struct BuildInfo {
    pub source: String,
    pub git_commit: String,
    pub aur_commit: String,
    pub aur_pkgver: String,
    pub aur_pkgrel: String,
    pub aur_epoch: String,
    pub build_time: String,
    pub features: String,
    pub version: String,
    pub rustc_version: String,
    pub build_profile: String,
    pub target: String,
}

/// The packaged-version label: the package version, a dash and the release
/// when one is set, an epoch prefix when one other than zero is set; with
/// no package version at all, a placeholder.
pub open spec fn spec_aur_package_label(
    pkgver: Seq<char>,
    pkgrel: Seq<char>,
    epoch: Seq<char>,
) -> Seq<char> {
    if pkgver.len() == 0 {
        "n/a"@
    } else {
        let version = if pkgrel.len() == 0 {
            pkgver
        } else {
            pkgver + "-"@ + pkgrel
        };
        if epoch.len() > 0 && epoch != "0"@ {
            epoch + ":"@ + version
        } else {
            version
        }
    }
}

impl BuildInfo {
    /// The packaged-version label of this build.
    pub fn aur_package_label(&self) -> (r: String)
        ensures
            r@ == spec_aur_package_label(self.aur_pkgver@, self.aur_pkgrel@, self.aur_epoch@),
    {
        if self.aur_pkgver.as_str().unicode_len() == 0 {
            return "n/a".to_owned();
        }
        let mut version = self.aur_pkgver.clone();
        if self.aur_pkgrel.as_str().unicode_len() > 0 {
            version.append("-");
            version.append(self.aur_pkgrel.as_str());
        }
        let has_epoch = self.aur_epoch.as_str().unicode_len() > 0 && !crate::pacman::str_eq(
            self.aur_epoch.as_str(),
            "0",
        );
        if has_epoch {
            let mut r = self.aur_epoch.clone();
            r.append(":");
            r.append(version.as_str());
            r
        } else {
            version
        }
    }

    /// A non-empty field, or a placeholder.
    fn field_or(&self, value: &String, fallback: &'static str) -> (r: String)
        ensures
            r@ == spec_field_or(value@, fallback@),
    {
        if value.as_str().unicode_len() == 0 {
            fallback.to_owned()
        } else {
            value.clone()
        }
    }

    /// One line identifying the build, as the startup log records it.
    pub fn summary(&self) -> (r: String)
        ensures
            r@ == spec_build_summary(*self),
    {
        let mut r = self.version.clone();
        r.append(" (source=");
        r.append(self.source.as_str());
        r.append(" git=");
        r.append(self.git_commit.as_str());
        r.append(" aur_pkg=");
        let aur_pkg = self.aur_package_label();
        r.append(aur_pkg.as_str());
        r.append(" aur_commit=");
        let aur_commit = self.field_or(&self.aur_commit, "n/a");
        r.append(aur_commit.as_str());
        r.append(" rustc=");
        r.append(self.rustc_version.as_str());
        r.append(" profile=");
        r.append(self.build_profile.as_str());
        r.append(" target=");
        r.append(self.target.as_str());
        r.append(" built=");
        let built = self.field_or(&self.build_time, "unknown");
        r.append(built.as_str());
        r.append(" features=");
        let features = self.field_or(&self.features, "none");
        r.append(features.as_str());
        r.append(")");
        r
    }
}

/// A value, or a fallback when it is empty.
pub open spec fn spec_field_or(value: Seq<char>, fallback: Seq<char>) -> Seq<char> {
    if value.len() == 0 {
        fallback
    } else {
        value
    }
}

/// The startup log's build line.
pub open spec fn spec_build_summary(b: BuildInfo) -> Seq<char> {
    b.version@ + " (source="@ + b.source@ + " git="@ + b.git_commit@ + " aur_pkg="@
        + spec_aur_package_label(b.aur_pkgver@, b.aur_pkgrel@, b.aur_epoch@) + " aur_commit="@
        + spec_field_or(b.aur_commit@, "n/a"@) + " rustc="@ + b.rustc_version@ + " profile="@
        + b.build_profile@ + " target="@ + b.target@ + " built="@ + spec_field_or(
        b.build_time@,
        "unknown"@,
    ) + " features="@ + spec_field_or(b.features@, "none"@) + ")"@
}

} // verus!
