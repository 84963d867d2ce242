//! The local package inventory and the text the package manager's tools
//! emit: installed-package listings, repository metadata listings, and
//! pending-update lines, parsed into the library's data model.

use vstd::prelude::*;

verus! {

use vstd::string::StrSliceExecFns;
use vstd::string::StringSliceAdditionalSpecFns;
use crate::text;

/// A package currently installed on the system. Immutable snapshot captured
/// once per run; the name is the unique key.
#[derive(Debug)]
pub struct InstalledPackage {
    pub name: String,
    pub version: String,
    pub repository: Option<String>,
    pub installed_size: Option<u64>,
    pub install_date: Option<String>,
    pub validated_by: Option<String>,
    pub package_hash: Option<String>,
}

/// Mathematical model of an `InstalledPackage`.
pub ghost struct InstalledPackageModel {
    pub name: Seq<char>,
    pub version: Seq<char>,
    pub repository: Option<Seq<char>>,
    pub installed_size: Option<u64>,
    pub install_date: Option<Seq<char>>,
    pub validated_by: Option<Seq<char>>,
    pub package_hash: Option<Seq<char>>,
}

/// The view of an optional owned string.
pub open spec fn opt_string_view(v: Option<String>) -> Option<Seq<char>> {
    match v {
        Some(s) => Some(s@),
        None => None,
    }
}

impl DeepView for InstalledPackage {
    type V = InstalledPackageModel;

    open spec fn deep_view(&self) -> InstalledPackageModel {
        self.view()
    }
}

impl View for InstalledPackage {
    type V = InstalledPackageModel;

    open spec fn view(&self) -> InstalledPackageModel {
        InstalledPackageModel {
            name: self.name@,
            version: self.version@,
            repository: opt_string_view(self.repository),
            installed_size: self.installed_size,
            install_date: opt_string_view(self.install_date),
            validated_by: opt_string_view(self.validated_by),
            package_hash: opt_string_view(self.package_hash),
        }
    }
}

/// Copy an optional string.
pub fn clone_opt_string(v: &Option<String>) -> (r: Option<String>)
    ensures
        opt_string_view(r) == opt_string_view(*v),
{
    match v {
        Some(s) => Some(s.clone()),
        None => None,
    }
}

impl Clone for InstalledPackage {
    fn clone(&self) -> (r: Self)
        ensures
            r@ == self@,
    {
        InstalledPackage {
            name: self.name.clone(),
            version: self.version.clone(),
            repository: clone_opt_string(&self.repository),
            installed_size: self.installed_size,
            install_date: clone_opt_string(&self.install_date),
            validated_by: clone_opt_string(&self.validated_by),
            package_hash: clone_opt_string(&self.package_hash),
        }
    }
}

/// Ten to the power `k`.
pub open spec fn pow10(k: int) -> int
    decreases k,
{
    if k <= 0 {
        1
    } else {
        10 * pow10(k - 1)
    }
}

/// The byte multiplier of a size unit as the package tools print it; an
/// unrecognized unit counts as bytes.
pub open spec fn spec_unit_mult(unit: Seq<char>) -> int {
    if unit == "B"@ {
        1
    } else if unit == "KiB"@ {
        1024
    } else if unit == "MiB"@ {
        1048576
    } else if unit == "GiB"@ {
        1073741824
    } else if unit == "TiB"@ {
        1099511627776
    } else {
        1
    }
}

/// Scan a decimal number token: integer digits, an optional dot and
/// fraction digits, commas ignored as grouping. Yields the integer part,
/// the fraction value and the count of fraction digits. Rejected: a second
/// dot, any other character, no digit at all, more than eighteen integer
/// digits, or more than twelve fraction digits.
pub open spec fn spec_scan_number(
    t: Seq<char>,
    i: int,
    ip: int,
    fp: int,
    di: int,
    k: int,
    seen: bool,
    in_frac: bool,
) -> Option<(int, int, int)>
    decreases t.len() - i,
{
    if i < 0 || i >= t.len() {
        if seen {
            Some((ip, fp, k))
        } else {
            None
        }
    } else {
        let c = t[i];
        if c == ',' {
            spec_scan_number(t, i + 1, ip, fp, di, k, seen, in_frac)
        } else if text::is_digit(c) {
            if in_frac {
                if k >= 12 {
                    None
                } else {
                    spec_scan_number(t, i + 1, ip, fp * 10 + text::digit_val(c), di, k + 1, true,
                        true)
                }
            } else {
                if di >= 18 {
                    None
                } else {
                    spec_scan_number(t, i + 1, ip * 10 + text::digit_val(c), fp, di + 1, k, true,
                        false)
                }
            }
        } else if c == '.' {
            if in_frac {
                None
            } else {
                spec_scan_number(t, i + 1, ip, fp, di, k, seen, true)
            }
        } else {
            None
        }
    }
}

/// The byte count a size telemetry string denotes: a number token and an
/// optional unit token, the value rounded to whole bytes (halves up) and
/// saturating at the maximum.
pub open spec fn spec_parse_pacman_size(v: Seq<char>) -> Option<u64> {
    let tokens = text::split_ws(v);
    if tokens.len() == 0 {
        None
    } else {
        let unit = if tokens.len() >= 2 {
            tokens[1]
        } else {
            "B"@
        };
        match spec_scan_number(tokens[0], 0, 0, 0, 0, 0, false, false) {
            None => None,
            Some(p) => {
                let (ip, fp, k) = p;
                let mult = spec_unit_mult(unit);
                let d = pow10(k);
                Some(crate::reconcile::sat64(ip * mult + (2 * fp * mult + d) / (2 * d)))
            },
        }
    }
}

proof fn lemma_pow10_mono(a: int, b: int)
    requires
        0 <= a <= b,
    ensures
        1 <= pow10(a) <= pow10(b),
    decreases b,
{
    if b > a {
        lemma_pow10_mono(a, b - 1);
    } else if b > 0 {
        lemma_pow10_mono(a - 1, b - 1);
    }
}

proof fn lemma_pow10_bounds(k: int)
    requires
        0 <= k <= 12,
    ensures
        1 <= pow10(k) <= 1000000000000,
{
    lemma_pow10_mono(k, 12);
    reveal_with_fuel(pow10, 14);
    assert(pow10(12) == 1000000000000);
}

/// Scan one number token.
fn scan_number(t: &str) -> (r: Option<(u64, u64, u32)>)
    ensures
        match r {
            Some(p) => {
                let sp = spec_scan_number(t@, 0, 0, 0, 0, 0, false, false);
                sp matches Some(q) && q.0 == p.0 as int && q.1 == p.1 as int && q.2 == p.2 as int
                    && p.0 < 1000000000000000000 && p.1 < 1000000000000 && p.2 <= 12
            },
            None => spec_scan_number(t@, 0, 0, 0, 0, 0, false, false) is None,
        },
{
    let n = t.unicode_len();
    let mut i: usize = 0;
    let mut ip: u64 = 0;
    let mut fp: u64 = 0;
    let mut di: u32 = 0;
    let mut k: u32 = 0;
    let mut seen = false;
    let mut in_frac = false;
    loop
        invariant
            i <= n,
            n == t@.len(),
            spec_scan_number(t@, 0, 0, 0, 0, 0, false, false) == spec_scan_number(t@, i as int,
                ip as int, fp as int, di as int, k as int, seen, in_frac),
            di <= 18,
            k <= 12,
            (ip as int) < pow10(di as int),
            (fp as int) < pow10(k as int),
            ip < 1000000000000000000,
            fp < 1000000000000,
        decreases n - i,
    {
        proof {
            lemma_pow10_bounds(k as int);
            if di as int <= 12 {
                lemma_pow10_bounds(di as int);
            }
        }
        if i == n {
            if seen {
                return Some((ip, fp, k));
            } else {
                return None;
            }
        }
        let c = t.get_char(i);
        if c == ',' {
        } else if '0' <= c && c <= '9' {
            let d: u64 = (c as u32 as u64) - 48;
            if in_frac {
                if k >= 12 {
                    return None;
                }
                proof {
                    lemma_pow10_bounds(k + 1);
                    assert((fp as int) * 10 + d < pow10(k + 1));
                }
                fp = fp * 10 + d;
                k = k + 1;
                seen = true;
            } else {
                if di >= 18 {
                    return None;
                }
                proof {
                    lemma_pow10_18(di + 1);
                    assert((ip as int) * 10 + d < pow10(di + 1));
                }
                ip = ip * 10 + d;
                di = di + 1;
                seen = true;
            }
        } else if c == '.' {
            if in_frac {
                return None;
            }
            in_frac = true;
        } else {
            return None;
        }
        i = i + 1;
    }
}

proof fn lemma_pow10_18(k: int)
    requires
        0 <= k <= 18,
    ensures
        1 <= pow10(k) <= 1000000000000000000,
{
    lemma_pow10_mono(k, 18);
    reveal_with_fuel(pow10, 20);
    assert(pow10(18) == 1000000000000000000);
}

/// The multiplier of a unit token.
fn unit_mult(unit: &str) -> (r: u64)
    ensures
        r as int == spec_unit_mult(unit@),
        1 <= r <= 1099511627776,
{
    if str_eq(unit, "B") {
        1
    } else if str_eq(unit, "KiB") {
        1024
    } else if str_eq(unit, "MiB") {
        1048576
    } else if str_eq(unit, "GiB") {
        1073741824
    } else if str_eq(unit, "TiB") {
        1099511627776
    } else {
        1
    }
}

/// Compare two strings for exact equality.
pub fn str_eq(a: &str, b: &str) -> (r: bool)
    ensures
        r == (a@ == b@),
{
    let na = a.unicode_len();
    let nb = b.unicode_len();
    if na != nb {
        proof {
            assert(a@ != b@) by {
                if a@ == b@ {
                    assert(a@.len() == b@.len());
                }
            }
        }
        return false;
    }
    let mut i: usize = 0;
    while i < na
        invariant
            i <= na,
            na == a@.len(),
            na == b@.len(),
            forall|j: int| 0 <= j < i ==> a@[j] == b@[j],
        decreases na - i,
    {
        if a.get_char(i) != b.get_char(i) {
            return false;
        }
        i = i + 1;
    }
    proof {
        assert(a@ =~= b@);
    }
    true
}

/// Parse a size telemetry string such as the package tools print, to whole
/// bytes.
pub fn parse_pacman_size(value: &str) -> (r: Option<u64>)
    ensures
        r == spec_parse_pacman_size(value@),
{
    let tokens = text::split_str_ws(value);
    if tokens.len() == 0 {
        return None;
    }
    proof {
        assert(tokens.deep_view()[0] == tokens@[0]@);
        if tokens@.len() >= 2 {
            assert(tokens.deep_view()[1] == tokens@[1]@);
        }
    }
    let scanned = scan_number(tokens[0].as_str());
    match scanned {
        None => None,
        Some((ip, fp, k)) => {
            let mult: u64 = if tokens.len() >= 2 {
                unit_mult(tokens[1].as_str())
            } else {
                proof {
                    reveal_strlit("B");
                }
                1
            };
            proof {
                if tokens@.len() < 2 {
                    assert(spec_unit_mult("B"@) == 1) by {
                        reveal_strlit("B");
                        reveal_strlit("KiB");
                    }
                }
            }
            let d128: u128 = pow10_u128(k);
            proof {
                assert((ip as int) * (mult as int) < 1099511627776000000000000000000int) by (
                nonlinear_arith)
                    requires
                        0 <= ip < 1000000000000000000u64,
                        0 < mult <= 1099511627776u64,
                ;
                assert(2 * (fp as int) * (mult as int) < 2199023255552000000000000int) by (
                nonlinear_arith)
                    requires
                        0 <= fp < 1000000000000u64,
                        0 < mult <= 1099511627776u64,
                ;
            }
            let big_ip: u128 = (ip as u128) * (mult as u128);
            let frac_part: u128 = (2 * (fp as u128) * (mult as u128) + d128) / (2 * d128);
            let total: u128 = big_ip + frac_part;
            let r: u64 = if total > 0xFFFF_FFFF_FFFF_FFFFu128 {
                u64::MAX
            } else {
                total as u64
            };
            proof {
                let spec_total = ip as int * mult as int + (2 * (fp as int) * (mult as int)
                    + pow10(k as int)) / (2 * pow10(k as int));
                assert(2 * (fp as u128) * (mult as u128) == 2 * (fp as int) * (mult as int)) by (
                nonlinear_arith)
                    requires
                        fp < 1000000000000u64,
                        mult <= 1099511627776u64,
                ;
                assert(frac_part == (2 * (fp as int) * (mult as int) + pow10(k as int)) / (2
                    * pow10(k as int))) by {
                    assert(d128 == pow10(k as int));
                    assert(2 * d128 == 2 * pow10(k as int));
                }
                assert(total == spec_total);
                assert(r == crate::reconcile::sat64(spec_total));
            }
            Some(r)
        },
    }
}

/// Ten to the power `k`, executable.
fn pow10_u128(k: u32) -> (r: u128)
    requires
        k <= 12,
    ensures
        r as int == pow10(k as int),
        1 <= r <= 1000000000000,
    decreases k,
{
    proof {
        lemma_pow10_bounds(k as int);
    }
    if k == 0 {
        1
    } else {
        10 * pow10_u128(k - 1)
    }
}

/// Whether a name occurs in a list of names.
pub open spec fn name_in_list(fs: Seq<Seq<char>>, n: Seq<char>) -> bool {
    exists|i: int| 0 <= i < fs.len() && fs[i] == n
}

/// Test whether a name occurs in a list of names.
pub fn contains_name(list: &Vec<String>, name: &String) -> (r: bool)
    ensures
        r == name_in_list(list.deep_view(), name@),
{
    let mut i: usize = 0;
    while i < list.len()
        invariant
            i <= list@.len(),
            forall|j: int| 0 <= j < i ==> list.deep_view()[j] != name@,
        decreases list@.len() - i,
    {
        if str_eq(list[i].as_str(), name.as_str()) {
            proof {
                assert(list.deep_view()[i as int] == name@);
            }
            return true;
        }
        proof {
            assert(list.deep_view()[i as int] == list@[i as int]@);
        }
        i = i + 1;
    }
    false
}

/// The fields accumulated while reading one block of the installed-package
/// listing.
pub ghost struct QiFields {
    pub name: Option<Seq<char>>,
    pub version: Option<Seq<char>>,
    pub repository: Option<Seq<char>>,
    pub installed_size: Option<u64>,
    pub install_date: Option<Seq<char>>,
    pub validated_by: Option<Seq<char>>,
    pub package_hash: Option<Seq<char>>,
}

/// The empty field set at the start of a block.
pub open spec fn qi_empty() -> QiFields {
    QiFields {
        name: None,
        version: None,
        repository: None,
        installed_size: None,
        install_date: None,
        validated_by: None,
        package_hash: None,
    }
}

/// Apply one `key : value` line of the installed-package listing to the
/// accumulated fields; lines without a colon or with an unknown key change
/// nothing.
pub open spec fn qi_apply_line(st: QiFields, line: Seq<char>) -> QiFields {
    match text::find_char(line, ':') {
        None => st,
        Some(i) => {
            let key = text::spec_trim(line.take(i));
            let value = text::spec_trim(line.skip(i + 1));
            if key == "Name"@ {
                QiFields { name: Some(value), ..st }
            } else if key == "Version"@ {
                QiFields { version: Some(value), ..st }
            } else if key == "Repository"@ {
                QiFields { repository: Some(value), ..st }
            } else if key == "Install Date"@ {
                QiFields { install_date: Some(value), ..st }
            } else if key == "Installed Size"@ {
                QiFields { installed_size: spec_parse_pacman_size(value), ..st }
            } else if key == "Validated By"@ {
                QiFields { validated_by: Some(value), ..st }
            } else if key == "SHA-256 Sum"@ {
                QiFields { package_hash: Some(value), ..st }
            } else {
                st
            }
        },
    }
}

/// The package one completed block yields, if its name and version are
/// both present. A package without a repository tag is attributed to the
/// local tag when its name is in the foreign list, else to the repository
/// tag.
pub open spec fn qi_emit(st: QiFields, foreign: Seq<Seq<char>>) -> Option<InstalledPackageModel> {
    match (st.name, st.version) {
        (Some(n), Some(v)) => Some(
            InstalledPackageModel {
                name: n,
                version: v,
                repository: match st.repository {
                    Some(r) => Some(r),
                    None => Some(
                        if name_in_list(foreign, n) {
                            "local"@
                        } else {
                            "pacman"@
                        },
                    ),
                },
                installed_size: st.installed_size,
                install_date: st.install_date,
                validated_by: st.validated_by,
                package_hash: st.package_hash,
            },
        ),
        _ => None,
    }
}

/// Fold the listing's lines: an empty line completes a block, the end of
/// input completes the last block.
pub open spec fn qi_fold(lines: Seq<Seq<char>>, st: QiFields, foreign: Seq<Seq<char>>) -> Seq<
    InstalledPackageModel,
>
    decreases lines.len(),
{
    if lines.len() == 0 {
        match qi_emit(st, foreign) {
            Some(p) => seq![p],
            None => Seq::empty(),
        }
    } else if lines[0].len() == 0 {
        let emitted: Seq<InstalledPackageModel> = match qi_emit(st, foreign) {
            Some(p) => seq![p],
            None => Seq::empty(),
        };
        emitted + qi_fold(lines.drop_first(), qi_empty(), foreign)
    } else {
        qi_fold(lines.drop_first(), qi_apply_line(st, lines[0]), foreign)
    }
}

/// A package list ordered by name, duplicates adjacent.
pub open spec fn packages_sorted(ps: Seq<InstalledPackageModel>) -> bool {
    forall|i: int|
        0 <= i < ps.len() - 1 ==> !text::lex_lt(ps[i + 1].name, (#[trigger] ps[i]).name)
}

/// A package list with `p` placed at its ordered position, after any
/// package with the same name.
pub open spec fn spec_insert_pkg(
    ps: Seq<InstalledPackageModel>,
    p: InstalledPackageModel,
) -> Seq<InstalledPackageModel>
    decreases ps.len(),
{
    if ps.len() == 0 {
        seq![p]
    } else if text::lex_lt(p.name, ps[0].name) {
        seq![p] + ps
    } else {
        seq![ps[0]] + spec_insert_pkg(ps.drop_first(), p)
    }
}

/// The listing's packages sorted by name.
pub open spec fn spec_sort_pkgs(ps: Seq<InstalledPackageModel>, n: int) -> Seq<
    InstalledPackageModel,
>
    decreases n,
{
    if n <= 0 {
        Seq::empty()
    } else {
        spec_insert_pkg(spec_sort_pkgs(ps, n - 1), ps[n - 1])
    }
}

/// Inserting into an ordered package list keeps it ordered.
pub proof fn lemma_insert_pkg_sorted(ps: Seq<InstalledPackageModel>, p: InstalledPackageModel)
    requires
        packages_sorted(ps),
    ensures
        packages_sorted(spec_insert_pkg(ps, p)),
    decreases ps.len(),
{
    let news = spec_insert_pkg(ps, p);
    if ps.len() == 0 {
    } else if text::lex_lt(p.name, ps[0].name) {
        assert forall|i: int| 0 <= i < news.len() - 1 implies !text::lex_lt(
            news[i + 1].name,
            (#[trigger] news[i]).name,
        ) by {
            if i == 0 {
                text::lemma_lex_lt_trichotomy(p.name, ps[0].name);
            } else {
                assert(news[i] == ps[i - 1]);
                assert(news[i + 1] == ps[i]);
            }
        }
    } else {
        let rest = ps.drop_first();
        assert forall|i: int| 0 <= i < rest.len() - 1 implies !text::lex_lt(
            rest[i + 1].name,
            (#[trigger] rest[i]).name,
        ) by {
            assert(rest[i] == ps[i + 1]);
            assert(rest[i + 1] == ps[i + 2]);
        }
        lemma_insert_pkg_sorted(rest, p);
        let tail = spec_insert_pkg(rest, p);
        assert(tail[0] == p || (rest.len() > 0 && tail[0] == rest[0]));
        assert forall|i: int| 0 <= i < news.len() - 1 implies !text::lex_lt(
            news[i + 1].name,
            (#[trigger] news[i]).name,
        ) by {
            if i == 0 {
                assert(news[0] == ps[0]);
                assert(news[1] == tail[0]);
                if tail[0] == p {
                    assert(!text::lex_lt(p.name, ps[0].name));
                } else {
                    assert(rest[0] == ps[1]);
                    assert(!text::lex_lt(ps[1].name, ps[0].name));
                }
            } else {
                assert(news[i] == tail[i - 1]);
                assert(news[i + 1] == tail[i]);
            }
        }
    }
}

/// The sorted listing is ordered by name.
pub proof fn lemma_sort_pkgs_sorted(ps: Seq<InstalledPackageModel>, n: int)
    ensures
        packages_sorted(spec_sort_pkgs(ps, n)),
    decreases n,
{
    if n > 0 {
        lemma_sort_pkgs_sorted(ps, n - 1);
        lemma_insert_pkg_sorted(spec_sort_pkgs(ps, n - 1), ps[n - 1]);
    }
}

/// Place a package at its ordered position, after any package of the same
/// name.
fn insert_pkg(packages: Vec<InstalledPackage>, p: InstalledPackage) -> (r: Vec<InstalledPackage>)
    ensures
        r.deep_view() == spec_insert_pkg(packages.deep_view(), p@),
    decreases packages@.len(),
{
    let ghost olds = packages.deep_view();
    let mut packages = packages;
    if packages.len() == 0 {
        packages.push(p);
        proof {
            assert(packages.deep_view() =~= spec_insert_pkg(olds, p@));
        }
        packages
    } else if text::str_lt(p.name.as_str(), packages[0].name.as_str()) {
        proof {
            assert(olds[0].name == packages@[0].name@);
        }
        packages.insert(0, p);
        proof {
            assert(packages.deep_view() =~= seq![p@] + olds);
        }
        packages
    } else {
        proof {
            assert(olds[0].name == packages@[0].name@);
        }
        let first = packages.remove(0);
        proof {
            assert(packages.deep_view() =~= olds.drop_first());
            assert(first@ == olds[0]);
        }
        let mut rest = insert_pkg(packages, p);
        rest.insert(0, first);
        proof {
            assert(rest.deep_view() =~= seq![olds[0]] + spec_insert_pkg(olds.drop_first(), p@));
        }
        rest
    }
}

/// The installed packages listed by the package manager's query output,
/// sorted by name. The caller supplies the names of foreign packages, used
/// to attribute packages without a repository tag.
pub fn enumerate_installed_packages(output: &str, foreign: &Vec<String>) -> (r: Vec<
    InstalledPackage,
>)
    ensures
        ({
            let parsed = qi_fold(text::split_char(output@, '\n'), qi_empty(),
                foreign.deep_view());
            r.deep_view() == spec_sort_pkgs(parsed, parsed.len() as int) && packages_sorted(
                r.deep_view(),
            )
        }),
{
    let lines = text::lines_of(output);
    let ghost fv = foreign.deep_view();
    let mut name: Option<String> = None;
    let mut version: Option<String> = None;
    let mut repository: Option<String> = None;
    let mut installed_size: Option<u64> = None;
    let mut install_date: Option<String> = None;
    let mut validated_by: Option<String> = None;
    let mut package_hash: Option<String> = None;
    let mut parsed: Vec<InstalledPackage> = Vec::new();
    let mut i: usize = 0;
    proof {
        assert(parsed.deep_view() =~= Seq::<InstalledPackageModel>::empty());
        assert(lines.deep_view().skip(0) =~= lines.deep_view());
    }
    while i < lines.len()
        invariant
            i <= lines@.len(),
            lines.deep_view() == text::split_char(output@, '\n'),
            fv == foreign.deep_view(),
            qi_fold(lines.deep_view(), qi_empty(), fv) == parsed.deep_view() + qi_fold(
                lines.deep_view().skip(i as int),
                QiFields {
                    name: opt_string_view(name),
                    version: opt_string_view(version),
                    repository: opt_string_view(repository),
                    installed_size,
                    install_date: opt_string_view(install_date),
                    validated_by: opt_string_view(validated_by),
                    package_hash: opt_string_view(package_hash),
                },
                fv,
            ),
        decreases lines@.len() - i,
    {
        let ghost st = QiFields {
            name: opt_string_view(name),
            version: opt_string_view(version),
            repository: opt_string_view(repository),
            installed_size,
            install_date: opt_string_view(install_date),
            validated_by: opt_string_view(validated_by),
            package_hash: opt_string_view(package_hash),
        };
        proof {
            let lv = lines.deep_view();
            assert(lv.skip(i as int)[0] == lv[i as int]);
            assert(lv.skip(i as int).drop_first() =~= lv.skip(i + 1));
            assert(lines@[i as int]@ == lv[i as int]);
        }
        let line = &lines[i];
        let n = line.as_str().unicode_len();
        if n == 0 {
            // an empty line completes the block
            match (name.take(), version.take()) {
                (Some(nm), Some(vr)) => {
                    let repo = match repository.take() {
                        Some(r) => Some(r),
                        None => {
                            if contains_name(foreign, &nm) {
                                Some("local".to_owned())
                            } else {
                                Some("pacman".to_owned())
                            }
                        },
                    };
                    let pkg = InstalledPackage {
                        name: nm,
                        version: vr,
                        repository: repo,
                        installed_size,
                        install_date: install_date.take(),
                        validated_by: validated_by.take(),
                        package_hash: package_hash.take(),
                    };
                    proof {
                        assert(qi_emit(st, fv) == Some(pkg@));
                    }
                    let ghost before = parsed.deep_view();
                    parsed.push(pkg);
                    proof {
                        assert(parsed.deep_view() =~= before + seq![parsed.deep_view().last()]);
                    }
                },
                _ => {
                    proof {
                        assert(qi_emit(st, fv) is None);
                    }
                },
            }
            name = None;
            version = None;
            repository = None;
            installed_size = None;
            install_date = None;
            validated_by = None;
            package_hash = None;
        } else {
            let found = text::find_char_in(line.as_str(), n, 0, ':');
            match found {
                None => {
                    proof {
                        let lv = lines.deep_view();
                        text::lemma_find_char(lv[i as int], ':');
                        match text::find_char(lv[i as int], ':') {
                            Some(ci) => {
                                assert(lv[i as int][ci] == ':');
                            },
                            None => {},
                        }
                        assert(text::find_char(lv[i as int], ':') is None);
                    }
                },
                Some(ci) => {
                    let key = text::trim_ascii(line.as_str().substring_char(0, ci));
                    let value = text::trim_ascii(line.as_str().substring_char(ci + 1, n));
                    proof {
                        let lv = lines.deep_view();
                        text::lemma_find_char(lv[i as int], ':');
                        match text::find_char(lv[i as int], ':') {
                            Some(si) => {
                                assert(si == ci) by {
                                    if si < ci {
                                        assert(lv[i as int][si] != ':');
                                    } else if si > ci {
                                        assert(lv[i as int][ci as int] != ':');
                                    }
                                }
                            },
                            None => {
                                assert(lv[i as int][ci as int] != ':');
                            },
                        }
                        assert(key@ == text::spec_trim(lv[i as int].take(ci as int)));
                        assert(value@ == text::spec_trim(lv[i as int].skip(ci + 1)));
                    }
                    if str_eq(key.as_str(), "Name") {
                        name = Some(value);
                    } else if str_eq(key.as_str(), "Version") {
                        version = Some(value);
                    } else if str_eq(key.as_str(), "Repository") {
                        repository = Some(value);
                    } else if str_eq(key.as_str(), "Install Date") {
                        install_date = Some(value);
                    } else if str_eq(key.as_str(), "Installed Size") {
                        installed_size = parse_pacman_size(value.as_str());
                    } else if str_eq(key.as_str(), "Validated By") {
                        validated_by = Some(value);
                    } else if str_eq(key.as_str(), "SHA-256 Sum") {
                        package_hash = Some(value);
                    }
                },
            }
        }
        i = i + 1;
    }
    // the end of input completes the last block
    proof {
        assert(lines.deep_view().skip(lines@.len() as int) =~= Seq::<Seq<char>>::empty());
    }
    let ghost st = QiFields {
        name: opt_string_view(name),
        version: opt_string_view(version),
        repository: opt_string_view(repository),
        installed_size,
        install_date: opt_string_view(install_date),
        validated_by: opt_string_view(validated_by),
        package_hash: opt_string_view(package_hash),
    };
    match (name.take(), version.take()) {
        (Some(nm), Some(vr)) => {
            let repo = match repository.take() {
                Some(r) => Some(r),
                None => {
                    if contains_name(foreign, &nm) {
                        Some("local".to_owned())
                    } else {
                        Some("pacman".to_owned())
                    }
                },
            };
            let pkg = InstalledPackage {
                name: nm,
                version: vr,
                repository: repo,
                installed_size,
                install_date: install_date.take(),
                validated_by: validated_by.take(),
                package_hash: package_hash.take(),
            };
            proof {
                assert(qi_emit(st, fv) == Some(pkg@));
            }
            let ghost before = parsed.deep_view();
            parsed.push(pkg);
            proof {
                assert(parsed.deep_view() =~= before + seq![parsed.deep_view().last()]);
            }
        },
        _ => {
            proof {
                assert(qi_emit(st, fv) is None);
                assert(parsed.deep_view() + Seq::<InstalledPackageModel>::empty()
                    =~= parsed.deep_view());
            }
        },
    }
    // sort by name
    let ghost pv = parsed.deep_view();
    let mut sorted: Vec<InstalledPackage> = Vec::new();
    let mut j: usize = 0;
    proof {
        assert(sorted.deep_view() =~= Seq::<InstalledPackageModel>::empty());
    }
    while j < parsed.len()
        invariant
            j <= parsed@.len(),
            pv == parsed.deep_view(),
            sorted.deep_view() == spec_sort_pkgs(pv, j as int),
        decreases parsed@.len() - j,
    {
        let p = parsed[j].clone();
        proof {
            assert(p@ == pv[j as int]);
        }
        sorted = insert_pkg(sorted, p);
        j = j + 1;
    }
    proof {
        lemma_sort_pkgs_sorted(pv, pv.len() as int);
    }
    sorted
}

/// One package's repository version info, keyed by name.
#[derive(Debug)]
pub struct RepoVersion {
    pub name: String,
    pub info: crate::reconcile::VersionInfo,
}

/// Mathematical model of a `RepoVersion`.
pub ghost struct RepoVersionModel {
    pub name: Seq<char>,
    pub info: crate::reconcile::VersionInfoModel,
}

impl View for RepoVersion {
    type V = RepoVersionModel;

    open spec fn view(&self) -> RepoVersionModel {
        RepoVersionModel { name: self.name@, info: self.info@ }
    }
}

impl DeepView for RepoVersion {
    type V = RepoVersionModel;

    open spec fn deep_view(&self) -> RepoVersionModel {
        self.view()
    }
}

/// The fields accumulated while reading one block of the repository
/// metadata listing.
pub ghost struct SiFields {
    pub name: Option<Seq<char>>,
    pub version: Option<Seq<char>>,
    pub download: Option<u64>,
    pub installed: Option<u64>,
}

pub open spec fn si_empty() -> SiFields {
    SiFields { name: None, version: None, download: None, installed: None }
}

/// Apply one `key : value` line of the repository metadata listing: a new
/// name starts a fresh block.
pub open spec fn si_apply_line(st: SiFields, line: Seq<char>) -> SiFields {
    match text::find_char(line, ':') {
        None => st,
        Some(i) => {
            let key = text::spec_trim(line.take(i));
            let value = text::spec_trim(line.skip(i + 1));
            if key == "Name"@ {
                SiFields { name: Some(value), version: None, download: None, installed: None }
            } else if key == "Version"@ {
                SiFields { version: Some(value), ..st }
            } else if key == "Download Size"@ {
                SiFields { download: spec_parse_pacman_size(value), ..st }
            } else if key == "Installed Size"@ {
                SiFields { installed: spec_parse_pacman_size(value), ..st }
            } else {
                st
            }
        },
    }
}

/// The entry one completed block yields, when both name and version are
/// present.
pub open spec fn si_emit(st: SiFields) -> Seq<RepoVersionModel> {
    match (st.name, st.version) {
        (Some(n), Some(v)) => seq![
            RepoVersionModel {
                name: n,
                info: crate::reconcile::VersionInfoModel {
                    version: v,
                    download_size: st.download,
                    installed_size: st.installed,
                },
            },
        ],
        _ => Seq::empty(),
    }
}

/// Fold the repository listing's lines: a line of only whitespace
/// completes a block, as does the end of input.
pub open spec fn si_fold(lines: Seq<Seq<char>>, st: SiFields) -> Seq<RepoVersionModel>
    decreases lines.len(),
{
    if lines.len() == 0 {
        si_emit(st)
    } else if text::spec_trim(lines[0]).len() == 0 {
        si_emit(st) + si_fold(lines.drop_first(), si_empty())
    } else {
        si_fold(lines.drop_first(), si_apply_line(st, lines[0]))
    }
}

/// The per-package version info in the repository metadata listing, in
/// listing order.
pub fn query_repo_versions(output: &str) -> (r: Vec<RepoVersion>)
    ensures
        r.deep_view() == si_fold(text::split_char(output@, '\n'), si_empty()),
{
    let lines = text::lines_of(output);
    let mut name: Option<String> = None;
    let mut version: Option<String> = None;
    let mut download: Option<u64> = None;
    let mut installed: Option<u64> = None;
    let mut out: Vec<RepoVersion> = Vec::new();
    let mut i: usize = 0;
    proof {
        assert(out.deep_view() =~= Seq::<RepoVersionModel>::empty());
        assert(lines.deep_view().skip(0) =~= lines.deep_view());
    }
    while i < lines.len()
        invariant
            i <= lines@.len(),
            lines.deep_view() == text::split_char(output@, '\n'),
            si_fold(lines.deep_view(), si_empty()) == out.deep_view() + si_fold(
                lines.deep_view().skip(i as int),
                SiFields {
                    name: opt_string_view(name),
                    version: opt_string_view(version),
                    download,
                    installed,
                },
            ),
        decreases lines@.len() - i,
    {
        let ghost st = SiFields {
            name: opt_string_view(name),
            version: opt_string_view(version),
            download,
            installed,
        };
        proof {
            let lv = lines.deep_view();
            assert(lv.skip(i as int)[0] == lv[i as int]);
            assert(lv.skip(i as int).drop_first() =~= lv.skip(i + 1));
            assert(lines@[i as int]@ == lv[i as int]);
        }
        let line = &lines[i];
        let n = line.as_str().unicode_len();
        let found = text::find_char_in(line.as_str(), n, 0, ':');
        match found {
            Some(ci) => {
                let key = text::trim_ascii(line.as_str().substring_char(0, ci));
                let value = text::trim_ascii(line.as_str().substring_char(ci + 1, n));
                proof {
                    let lv = lines.deep_view();
                    text::lemma_find_char(lv[i as int], ':');
                    match text::find_char(lv[i as int], ':') {
                        Some(si) => {
                            assert(si == ci) by {
                                if si < ci {
                                    assert(lv[i as int][si] != ':');
                                } else if si > ci {
                                    assert(lv[i as int][ci as int] != ':');
                                }
                            }
                        },
                        None => {
                            assert(lv[i as int][ci as int] != ':');
                        },
                    }
                    assert(key@ == text::spec_trim(lv[i as int].take(ci as int)));
                    assert(value@ == text::spec_trim(lv[i as int].skip(ci + 1)));
                    // a line holding a colon is not all whitespace
                    assert(text::spec_trim(lv[i as int]).len() != 0) by {
                        let t = lv[i as int];
                        if text::spec_trim(t).len() == 0 {
                            lemma_trim_empty_all_ws(t);
                            assert(text::is_ws(t[ci as int]));
                        }
                    }
                }
                if str_eq(key.as_str(), "Name") {
                    name = Some(value);
                    version = None;
                    download = None;
                    installed = None;
                } else if str_eq(key.as_str(), "Version") {
                    version = Some(value);
                } else if str_eq(key.as_str(), "Download Size") {
                    download = parse_pacman_size(value.as_str());
                } else if str_eq(key.as_str(), "Installed Size") {
                    installed = parse_pacman_size(value.as_str());
                }
            },
            None => {
                proof {
                    let lv = lines.deep_view();
                    text::lemma_find_char(lv[i as int], ':');
                    match text::find_char(lv[i as int], ':') {
                        Some(k2) => {
                            assert(lv[i as int][k2] == ':');
                            assert(false);
                        },
                        None => {},
                    }
                }
                let trimmed = text::trim_ascii(line.as_str());
                if trimmed.as_str().unicode_len() == 0 {
                    match (name.take(), version.take()) {
                        (Some(nm), Some(vr)) => {
                            let entry = RepoVersion {
                                name: nm,
                                info: crate::reconcile::VersionInfo {
                                    version: vr,
                                    download_size: download,
                                    installed_size: installed,
                                },
                            };
                            proof {
                                assert(si_emit(st) =~= seq![entry@]);
                            }
                            let ghost before = out.deep_view();
                            out.push(entry);
                            proof {
                                assert(out.deep_view() =~= before + seq![
                                    out.deep_view().last(),
                                ]);
                            }
                        },
                        _ => {
                            proof {
                                assert(si_emit(st) =~= Seq::<RepoVersionModel>::empty());
                                assert(out.deep_view() + Seq::<RepoVersionModel>::empty()
                                    =~= out.deep_view());
                            }
                        },
                    }
                    download = None;
                    installed = None;
                }
            },
        }
        i = i + 1;
    }
    proof {
        assert(lines.deep_view().skip(lines@.len() as int) =~= Seq::<Seq<char>>::empty());
    }
    let ghost st = SiFields {
        name: opt_string_view(name),
        version: opt_string_view(version),
        download,
        installed,
    };
    match (name.take(), version.take()) {
        (Some(nm), Some(vr)) => {
            let entry = RepoVersion {
                name: nm,
                info: crate::reconcile::VersionInfo {
                    version: vr,
                    download_size: download,
                    installed_size: installed,
                },
            };
            proof {
                assert(si_emit(st) =~= seq![entry@]);
            }
            let ghost before = out.deep_view();
            out.push(entry);
            proof {
                assert(out.deep_view() =~= before + seq![out.deep_view().last()]);
            }
        },
        _ => {
            proof {
                assert(si_emit(st) =~= Seq::<RepoVersionModel>::empty());
                assert(out.deep_view() + Seq::<RepoVersionModel>::empty() =~= out.deep_view());
            }
        },
    }
    out
}

/// A string that trims to nothing is all whitespace.
proof fn lemma_trim_empty_all_ws(s: Seq<char>)
    requires
        text::spec_trim(s).len() == 0,
    ensures
        forall|j: int| 0 <= j < s.len() ==> text::is_ws(s[j]),
    decreases s.len(),
{
    if s.len() > 0 {
        if text::is_ws(s[0]) {
            lemma_trim_empty_all_ws(s.drop_first());
            assert forall|j: int| 0 <= j < s.len() implies text::is_ws(s[j]) by {
                if j > 0 {
                    assert(text::is_ws(s.drop_first()[j - 1]));
                }
            }
        } else if text::is_ws(s.last()) {
            lemma_trim_empty_all_ws(s.drop_last());
            assert forall|j: int| 0 <= j < s.len() implies text::is_ws(s[j]) by {
                if j < s.len() - 1 {
                    assert(text::is_ws(s.drop_last()[j]));
                }
            }
        } else {
            assert(text::spec_trim(s) == s);
        }
    }
}

/// Look up the last entry with a name in a repository version list: a
/// later listing block for the same name overrides an earlier one.
pub open spec fn spec_find_repo(list: Seq<RepoVersionModel>, name: Seq<char>) -> Option<
    crate::reconcile::VersionInfoModel,
>
    decreases list.len(),
{
    if list.len() == 0 {
        None
    } else if list.last().name == name {
        Some(list.last().info)
    } else {
        spec_find_repo(list.drop_last(), name)
    }
}

/// Find the version info recorded for a package name, if any; with several
/// entries of one name, the last wins.
pub fn find_repo_version(list: &Vec<RepoVersion>, name: &str) -> (r: Option<
    crate::reconcile::VersionInfo,
>)
    ensures
        match spec_find_repo(list.deep_view(), name@) {
            Some(info) => r matches Some(i) && i@ == info,
            None => r is None,
        },
{
    let mut i: usize = list.len();
    proof {
        assert(list.deep_view().take(list@.len() as int) =~= list.deep_view());
    }
    while i > 0
        invariant
            i <= list@.len(),
            spec_find_repo(list.deep_view(), name@) == spec_find_repo(
                list.deep_view().take(i as int),
                name@,
            ),
        decreases i,
    {
        i = i - 1;
        proof {
            let lv = list.deep_view();
            assert(lv.take(i + 1).last() == lv[i as int]);
            assert(lv[i as int] == list@[i as int]@);
            assert(lv.take(i + 1).drop_last() =~= lv.take(i as int));
        }
        if str_eq(list[i].name.as_str(), name) {
            return Some(list[i].info.clone());
        }
    }
    proof {
        assert(list.deep_view().take(0) =~= Seq::<RepoVersionModel>::empty());
    }
    None
}

/// Whether a byte passes through percent-encoding unchanged.
pub open spec fn url_unreserved(b: u8) -> bool {
    (48 <= b <= 57) || (65 <= b <= 90) || (97 <= b <= 122) || b == 45 || b == 46 || b == 95 || b
        == 126
}

/// The character for one uppercase hexadecimal digit.
pub open spec fn hex_char_upper(d: int) -> char {
    if d < 10 {
        text::digit_char(d)
    } else if d == 10 {
        'A'
    } else if d == 11 {
        'B'
    } else if d == 12 {
        'C'
    } else if d == 13 {
        'D'
    } else if d == 14 {
        'E'
    } else {
        'F'
    }
}

/// A byte string percent-encoded: every byte except ASCII alphanumerics
/// and `-`, `.`, `_`, `~` becomes a percent sign and two uppercase
/// hexadecimal digits.
pub open spec fn spec_urlencode(bs: Seq<u8>) -> Seq<char>
    decreases bs.len(),
{
    if bs.len() == 0 {
        Seq::empty()
    } else {
        let b = bs.last();
        spec_urlencode(bs.drop_last()) + (if url_unreserved(b) {
            seq![b as char]
        } else {
            seq!['%', hex_char_upper(b as int / 16), hex_char_upper(b as int % 16)]
        })
    }
}

/// Relies on `urlencoding::encode`: it percent-encodes every byte of the
/// string's UTF-8 form except alphanumerics and `-`, `.`, `_`, `~`, using
/// uppercase hexadecimal.
#[verifier::external_body]
fn url_encode(s: &str) -> (r: String)
    ensures
        r@ == spec_urlencode(s.spec_bytes()),
{
    urlencoding::encode(s).into_owned()
}

/// The archive info query for a batch of names: the base, the fixed info
/// arguments, then one encoded argument per name.
pub open spec fn spec_aur_query(base: Seq<char>, names: Seq<Seq<u8>>) -> Seq<char>
    decreases names.len(),
{
    if names.len() == 0 {
        base + "?v=5&type=info"@
    } else {
        spec_aur_query(base, names.drop_last()) + "&arg[]="@ + spec_urlencode(names.last())
    }
}

/// The UTF-8 bytes of each name in a list.
pub open spec fn names_bytes(names: Seq<String>) -> Seq<Seq<u8>> {
    names.map_values(|n: String| vstd::utf8::encode_utf8(n@))
}

/// Build the archive info query for one batch of package names.
pub fn build_aur_query(base: &str, names: &Vec<String>) -> (r: String)
    ensures
        r@ == spec_aur_query(base@, names_bytes(names@)),
{
    let mut r = base.to_owned();
    r.append("?v=5&type=info");
    let mut i: usize = 0;
    proof {
        assert(names_bytes(names@.take(0)) =~= Seq::<Seq<u8>>::empty());
    }
    while i < names.len()
        invariant
            i <= names@.len(),
            r@ == spec_aur_query(base@, names_bytes(names@.take(i as int))),
        decreases names@.len() - i,
    {
        r.append("&arg[]=");
        let enc = url_encode(names[i].as_str());
        r.append(enc.as_str());
        proof {
            let nb = names_bytes(names@.take(i + 1));
            assert(nb.drop_last() =~= names_bytes(names@.take(i as int)));
            assert(nb.last() == vstd::utf8::encode_utf8(names@[i as int]@));
        }
        i = i + 1;
    }
    proof {
        assert(names@.take(names@.len() as int) =~= names@);
        assert(names_bytes(names@.take(names@.len() as int)) =~= names_bytes(names@));
    }
    r
}

/// Whether a package's origin tag is absent or marks a local build.
pub open spec fn tag_missing_or_local(repo: Option<Seq<char>>) -> bool {
    match repo {
        Some(t) => text::eq_ignore_case(t, "local"@),
        None => true,
    }
}

/// The names worth asking the archive about: packages whose origin tag is
/// absent or local.
pub open spec fn spec_aur_candidates(ps: Seq<InstalledPackageModel>) -> Seq<Seq<char>>
    decreases ps.len(),
{
    if ps.len() == 0 {
        Seq::empty()
    } else {
        let init = spec_aur_candidates(ps.drop_last());
        if tag_missing_or_local(ps.last().repository) {
            init.push(ps.last().name)
        } else {
            init
        }
    }
}

/// Collect the names whose origin the archive should be asked about.
pub fn aur_candidates(packages: &Vec<InstalledPackage>) -> (r: Vec<String>)
    ensures
        r.deep_view() == spec_aur_candidates(packages.deep_view()),
{
    let mut r: Vec<String> = Vec::new();
    let mut i: usize = 0;
    proof {
        assert(packages.deep_view().take(0) =~= Seq::<InstalledPackageModel>::empty());
        assert(r.deep_view() =~= Seq::<Seq<char>>::empty());
    }
    while i < packages.len()
        invariant
            i <= packages@.len(),
            r.deep_view() =~= spec_aur_candidates(packages.deep_view().take(i as int)),
        decreases packages@.len() - i,
    {
        proof {
            let pv = packages.deep_view();
            assert(pv.take(i + 1).drop_last() =~= pv.take(i as int));
            assert(pv.take(i + 1).last() == pv[i as int]);
            assert(packages@[i as int]@ == pv[i as int]);
        }
        let candidate = match &packages[i].repository {
            Some(t) => text::str_eq_ignore_case(t.as_str(), "local"),
            None => true,
        };
        if candidate {
            let ghost before = r.deep_view();
            r.push(packages[i].name.clone());
            proof {
                assert(r.deep_view() =~= before.push(r.deep_view().last()));
            }
        }
        i = i + 1;
    }
    proof {
        assert(packages.deep_view().take(packages@.len() as int) =~= packages.deep_view());
    }
    r
}

/// The package list with archive membership applied: a package whose
/// origin tag is absent or local, and whose name the archive knows, gets
/// the archive tag.
pub open spec fn spec_classified(
    ps: Seq<InstalledPackageModel>,
    found: Seq<Seq<char>>,
    i: int,
) -> InstalledPackageModel {
    let p = ps[i];
    if tag_missing_or_local(p.repository) && name_in_list(found, p.name) {
        InstalledPackageModel { repository: Some("aur"@), ..p }
    } else {
        p
    }
}

/// Reclassify foreign packages the archive knows: their origin tag becomes
/// the archive tag; everything else is untouched.
pub fn classify_aur_packages(packages: &mut Vec<InstalledPackage>, found: &Vec<String>)
    ensures
        final(packages)@.len() == old(packages)@.len(),
        forall|i: int|
            0 <= i < final(packages)@.len() ==> (#[trigger] final(packages).deep_view()[i])
                == spec_classified(old(packages).deep_view(), found.deep_view(), i),
{
    let ghost olds = packages.deep_view();
    let n = packages.len();
    let mut i: usize = 0;
    while i < n
        invariant
            i <= n,
            n == packages@.len(),
            packages@.len() == olds.len(),
            forall|k: int|
                i <= k < packages@.len() ==> #[trigger] packages.deep_view()[k] == olds[k],
            forall|k: int|
                0 <= k < i ==> (#[trigger] packages.deep_view()[k]) == spec_classified(olds,
                    found.deep_view(), k),
        decreases n - i,
    {
        proof {
            assert(packages.deep_view()[i as int] == packages@[i as int]@);
        }
        let candidate = match &packages[i].repository {
            Some(t) => text::str_eq_ignore_case(t.as_str(), "local"),
            None => true,
        };
        if candidate && contains_name(found, &packages[i].name) {
            let ghost before = packages.deep_view();
            let p = &mut packages[i];
            p.repository = Some("aur".to_owned());
            proof {
                assert forall|k: int| 0 <= k < packages@.len() && k != i implies
                    #[trigger] packages.deep_view()[k] == before[k] by {}
                assert(packages.deep_view()[i as int] == spec_classified(olds, found.deep_view(),
                    i as int));
            }
        }
        i = i + 1;
    }
}

/// The packages selected for manifest generation: all of them when no
/// explicit request is given, else those whose names were requested, in
/// sorted order.
pub open spec fn spec_filter_packages(
    ps: Seq<InstalledPackageModel>,
    requested: Seq<Seq<char>>,
) -> Seq<InstalledPackageModel>
    decreases ps.len(),
{
    if ps.len() == 0 {
        Seq::empty()
    } else {
        let init = spec_filter_packages(ps.drop_last(), requested);
        if requested.len() == 0 || name_in_list(requested, ps.last().name) {
            init.push(ps.last())
        } else {
            init
        }
    }
}

/// The requested names that are not installed.
pub open spec fn spec_missing_names(
    requested: Seq<Seq<char>>,
    ps: Seq<InstalledPackageModel>,
) -> Seq<Seq<char>>
    decreases requested.len(),
{
    if requested.len() == 0 {
        Seq::empty()
    } else {
        let init = spec_missing_names(requested.drop_last(), ps);
        if exists|i: int| 0 <= i < ps.len() && (#[trigger] ps[i]).name == requested.last() {
            init
        } else {
            init.push(requested.last())
        }
    }
}

/// Whether some package in the list carries a name.
fn any_package_named(ps: &Vec<InstalledPackage>, name: &String) -> (r: bool)
    ensures
        r == (exists|i: int|
            0 <= i < ps.deep_view().len() && (#[trigger] ps.deep_view()[i]).name == name@),
{
    let mut i: usize = 0;
    while i < ps.len()
        invariant
            i <= ps@.len(),
            forall|j: int| 0 <= j < i ==> (#[trigger] ps.deep_view()[j]).name != name@,
        decreases ps@.len() - i,
    {
        proof {
            assert(ps.deep_view()[i as int] == ps@[i as int]@);
        }
        if str_eq(ps[i].name.as_str(), name.as_str()) {
            return true;
        }
        i = i + 1;
    }
    false
}

/// Select the packages the caller asked for, in sorted order, and name the
/// requested packages that are not installed. An empty request selects
/// everything.
pub fn filter_packages(installed: &Vec<InstalledPackage>, requested: &Vec<String>) -> (r: (
    Vec<InstalledPackage>,
    Vec<String>,
))
    ensures
        ({
            let sorted = spec_sort_pkgs(installed.deep_view(), installed.deep_view().len() as int);
            r.0.deep_view() == spec_filter_packages(sorted, requested.deep_view())
                && r.1.deep_view() == spec_missing_names(requested.deep_view(),
                installed.deep_view())
        }),
{
    // sort by name, as the manifest expects
    let ghost pv = installed.deep_view();
    let mut sorted: Vec<InstalledPackage> = Vec::new();
    let mut j: usize = 0;
    proof {
        assert(sorted.deep_view() =~= Seq::<InstalledPackageModel>::empty());
    }
    while j < installed.len()
        invariant
            j <= installed@.len(),
            pv == installed.deep_view(),
            sorted.deep_view() == spec_sort_pkgs(pv, j as int),
        decreases installed@.len() - j,
    {
        let p = installed[j].clone();
        proof {
            assert(p@ == pv[j as int]);
        }
        sorted = insert_pkg(sorted, p);
        j = j + 1;
    }
    let ghost sv = sorted.deep_view();
    // keep the requested packages, or everything without a request
    let mut selected: Vec<InstalledPackage> = Vec::new();
    let mut i: usize = 0;
    proof {
        assert(sv.take(0) =~= Seq::<InstalledPackageModel>::empty());
        assert(selected.deep_view() =~= Seq::<InstalledPackageModel>::empty());
    }
    while i < sorted.len()
        invariant
            i <= sorted@.len(),
            sv == sorted.deep_view(),
            selected.deep_view() =~= spec_filter_packages(sv.take(i as int),
                requested.deep_view()),
        decreases sorted@.len() - i,
    {
        proof {
            assert(sv.take(i + 1).drop_last() =~= sv.take(i as int));
            assert(sv.take(i + 1).last() == sv[i as int]);
            assert(sorted@[i as int]@ == sv[i as int]);
        }
        let keep = if requested.len() == 0 {
            true
        } else {
            contains_name(requested, &sorted[i].name)
        };
        if keep {
            let ghost before = selected.deep_view();
            selected.push(sorted[i].clone());
            proof {
                assert(selected.deep_view() =~= before.push(selected.deep_view().last()));
            }
        }
        i = i + 1;
    }
    proof {
        assert(sv.take(sorted@.len() as int) =~= sv);
    }
    // name what was requested but is not installed
    let mut missing: Vec<String> = Vec::new();
    let mut k: usize = 0;
    proof {
        assert(requested.deep_view().take(0) =~= Seq::<Seq<char>>::empty());
        assert(missing.deep_view() =~= Seq::<Seq<char>>::empty());
    }
    while k < requested.len()
        invariant
            k <= requested@.len(),
            missing.deep_view() =~= spec_missing_names(requested.deep_view().take(k as int),
                installed.deep_view()),
        decreases requested@.len() - k,
    {
        proof {
            let rv = requested.deep_view();
            assert(rv.take(k + 1).drop_last() =~= rv.take(k as int));
            assert(rv.take(k + 1).last() == rv[k as int]);
            assert(requested@[k as int]@ == rv[k as int]);
        }
        if !any_package_named(installed, &requested[k]) {
            let ghost before = missing.deep_view();
            missing.push(requested[k].clone());
            proof {
                assert(missing.deep_view() =~= before.push(missing.deep_view().last()));
            }
        }
        k = k + 1;
    }
    proof {
        assert(requested.deep_view().take(requested@.len() as int) =~= requested.deep_view());
    }
    (selected, missing)
}

} // verus!





