//! Deterministic JSON rendering of the manifest and plan documents.
//!
//! The output is a pure function of the document: identical documents
//! render to identical bytes, so two runs over identical input differ only
//! where their documents do (the generation timestamp). Keys appear in a
//! fixed order, package names in their map's lexicographic order, and no
//! discretionary whitespace is emitted.

use vstd::prelude::*;

verus! {

use vstd::string::StrSliceExecFns;
use crate::manifest::{
    ManifestDocument,
    ManifestEntryModel,
    ManifestMetadata,
    PackageGroupModel,
    PackageRecordModel,
    Applications,
};
use crate::text;

/// One character as JSON emits it inside a string: quote and backslash are
/// escaped, control characters become four-digit escapes, everything else
/// stands as itself.
pub open spec fn esc_char(c: char) -> Seq<char> {
    if c == '"' {
        seq!['\\', '"']
    } else if c == '\\' {
        seq!['\\', '\\']
    } else if (c as int) < 32 {
        seq!['\\', 'u', '0', '0', text::hex_char(c as int / 16), text::hex_char(c as int % 16)]
    } else {
        seq![c]
    }
}

/// A character sequence escaped for a JSON string body.
pub open spec fn esc(s: Seq<char>) -> Seq<char>
    decreases s.len(),
{
    if s.len() == 0 {
        Seq::empty()
    } else {
        esc(s.drop_last()) + esc_char(s.last())
    }
}

/// A JSON string.
pub open spec fn jstr(s: Seq<char>) -> Seq<char> {
    seq!['"'] + esc(s) + seq!['"']
}

/// A JSON unsigned number.
pub open spec fn jnum(n: u64) -> Seq<char> {
    text::spec_digits(n as int)
}

/// A JSON boolean.
pub open spec fn jbool(b: bool) -> Seq<char> {
    if b {
        "true"@
    } else {
        "false"@
    }
}

/// An optional JSON string; absent is null.
pub open spec fn jopt_str(o: Option<Seq<char>>) -> Seq<char> {
    match o {
        Some(s) => jstr(s),
        None => "null"@,
    }
}

/// An optional JSON number; absent is null.
pub open spec fn jopt_num(o: Option<u64>) -> Seq<char> {
    match o {
        Some(n) => jnum(n),
        None => "null"@,
    }
}

/// Append the characters of a literal.
fn push_lit(out: &mut Vec<char>, s: &str)
    ensures
        final(out)@ == old(out)@ + s@,
{
    let n = s.unicode_len();
    let mut i: usize = 0;
    proof {
        assert(out@ + s@.take(0) =~= out@);
    }
    while i < n
        invariant
            i <= n,
            n == s@.len(),
            out@ == old(out)@ + s@.take(i as int),
        decreases n - i,
    {
        let c = s.get_char(i);
        out.push(c);
        proof {
            assert(old(out)@ + s@.take(i + 1) =~= (old(out)@ + s@.take(i as int)).push(
                s@[i as int],
            ));
        }
        i = i + 1;
    }
    proof {
        assert(s@.take(n as int) =~= s@);
    }
}

/// The character of one hexadecimal digit.
fn hex_char_of(d: u8) -> (r: char)
    requires
        d < 16,
    ensures
        r == text::hex_char(d as int),
{
    if d == 0 {
        '0'
    } else if d == 1 {
        '1'
    } else if d == 2 {
        '2'
    } else if d == 3 {
        '3'
    } else if d == 4 {
        '4'
    } else if d == 5 {
        '5'
    } else if d == 6 {
        '6'
    } else if d == 7 {
        '7'
    } else if d == 8 {
        '8'
    } else if d == 9 {
        '9'
    } else if d == 10 {
        'a'
    } else if d == 11 {
        'b'
    } else if d == 12 {
        'c'
    } else if d == 13 {
        'd'
    } else if d == 14 {
        'e'
    } else {
        'f'
    }
}

/// Append a JSON string.
fn emit_jstr(out: &mut Vec<char>, s: &str)
    ensures
        final(out)@ == old(out)@ + jstr(s@),
{
    out.push('"');
    let n = s.unicode_len();
    let mut i: usize = 0;
    proof {
        assert(esc(s@.take(0)) =~= Seq::<char>::empty());
        assert(out@ =~= old(out)@ + seq!['"'] + esc(s@.take(0)));
    }
    while i < n
        invariant
            i <= n,
            n == s@.len(),
            out@ == old(out)@ + seq!['"'] + esc(s@.take(i as int)),
        decreases n - i,
    {
        let c = s.get_char(i);
        let ghost before = out@;
        if c == '"' {
            out.push('\\');
            out.push('"');
        } else if c == '\\' {
            out.push('\\');
            out.push('\\');
        } else if (c as u32) < 32 {
            out.push('\\');
            out.push('u');
            out.push('0');
            out.push('0');
            out.push(hex_char_of((c as u32 / 16) as u8));
            out.push(hex_char_of((c as u32 % 16) as u8));
        } else {
            out.push(c);
        }
        proof {
            let t = s@.take(i + 1);
            assert(t.drop_last() =~= s@.take(i as int));
            assert(t.last() == s@[i as int]);
            assert(out@ =~= before + esc_char(s@[i as int]));
            assert(old(out)@ + seq!['"'] + esc(s@.take(i + 1)) =~= before + esc_char(
                s@[i as int],
            ));
        }
        i = i + 1;
    }
    out.push('"');
    proof {
        assert(s@.take(n as int) =~= s@);
        assert(out@ =~= old(out)@ + jstr(s@));
    }
}

/// Append a JSON number.
fn emit_num(out: &mut Vec<char>, n: u64)
    ensures
        final(out)@ == old(out)@ + jnum(n),
{
    let s = text::u64_to_string(n);
    push_lit(out, s.as_str());
}

/// Append a JSON boolean.
fn emit_bool(out: &mut Vec<char>, b: bool)
    ensures
        final(out)@ == old(out)@ + jbool(b),
{
    if b {
        push_lit(out, "true");
    } else {
        push_lit(out, "false");
    }
}

/// Append an optional JSON string.
fn emit_opt_str(out: &mut Vec<char>, o: &Option<String>)
    ensures
        final(out)@ == old(out)@ + jopt_str(crate::pacman::opt_string_view(*o)),
{
    match o {
        Some(s) => emit_jstr(out, s.as_str()),
        None => push_lit(out, "null"),
    }
}

/// Append an optional JSON number.
fn emit_opt_num(out: &mut Vec<char>, o: Option<u64>)
    ensures
        final(out)@ == old(out)@ + jopt_num(o),
{
    match o {
        Some(n) => emit_num(out, n),
        None => push_lit(out, "null"),
    }
}

/// One manifest entry as JSON, keyed by its name.
pub open spec fn spec_render_entry(name: Seq<char>, e: ManifestEntryModel) -> Seq<char> {
    jstr(name) + ":{\"installed_version\":"@ + jstr(e.installed_version) + ",\"repository\":"@
        + jopt_str(e.repository) + ",\"repo_version\":"@ + jopt_str(e.repo_version)
        + ",\"archive_version\":"@ + jopt_str(e.archive_version) + ",\"source\":"@ + jstr(
        e.source.spec_label(),
    )
        + ",\"newer_version\":"@ + jopt_str(e.newer_version) + ",\"update_available\":"@ + jbool(
        e.update_available,
    ) + ",\"notes\":"@ + jopt_str(e.notes) + ",\"installed_size\":"@ + jopt_num(e.installed_size)
        + ",\"install_date\":"@ + jopt_str(e.install_date) + ",\"validated_by\":"@ + jopt_str(
        e.validated_by,
    ) + ",\"package_hash\":"@ + jopt_str(e.package_hash) + ",\"download_size_selected\":"@
        + jopt_num(e.download_size_selected) + ",\"installed_size_selected\":"@ + jopt_num(
        e.installed_size_selected,
    ) + ",\"install_size_estimate\":"@ + jopt_num(e.install_size_estimate)
        + ",\"build_size_estimate\":"@ + jopt_num(e.build_size_estimate)
        + ",\"transient_size_estimate\":"@ + jopt_num(e.transient_size_estimate) + "}"@
}

/// The packages object's body: the entries in record order, joined by
/// commas.
pub open spec fn spec_render_records(rs: Seq<PackageRecordModel>) -> Seq<char>
    decreases rs.len(),
{
    if rs.len() == 0 {
        Seq::empty()
    } else if rs.len() == 1 {
        spec_render_entry(rs[0].name, rs[0].entry)
    } else {
        spec_render_records(rs.drop_last()) + ","@ + spec_render_entry(
            rs.last().name,
            rs.last().entry,
        )
    }
}

/// Append one manifest entry.
#[verifier::spinoff_prover]
#[verifier::rlimit(100)]
fn emit_entry(out: &mut Vec<char>, name: &str, e: &crate::manifest::ManifestEntry)
    ensures
        final(out)@ == old(out)@ + spec_render_entry(name@, e@),
{
    let ghost base = old(out)@;
    emit_jstr(out, name);
    let ghost mut acc: Seq<char> = jstr(name@);
    proof {
        assert(out@ =~= base + acc);
    }
    push_lit(out, ":{\"installed_version\":");
    proof {
        vstd::seq_lib::lemma_concat_associative(base, acc, ":{\"installed_version\":"@);
        acc = acc + (":{\"installed_version\":"@);
        assert(out@ == base + acc);
    }
    emit_jstr(out, e.installed_version.as_str());
    proof {
        vstd::seq_lib::lemma_concat_associative(base, acc, jstr(e@.installed_version));
        acc = acc + (jstr(e@.installed_version));
        assert(out@ == base + acc);
    }
    push_lit(out, ",\"repository\":");
    proof {
        vstd::seq_lib::lemma_concat_associative(base, acc, ",\"repository\":"@);
        acc = acc + (",\"repository\":"@);
        assert(out@ == base + acc);
    }
    emit_opt_str(out, &e.repository);
    proof {
        vstd::seq_lib::lemma_concat_associative(base, acc, jopt_str(e@.repository));
        acc = acc + (jopt_str(e@.repository));
        assert(out@ == base + acc);
    }
    push_lit(out, ",\"repo_version\":");
    proof {
        vstd::seq_lib::lemma_concat_associative(base, acc, ",\"repo_version\":"@);
        acc = acc + (",\"repo_version\":"@);
        assert(out@ == base + acc);
    }
    emit_opt_str(out, &e.repo_version);
    proof {
        vstd::seq_lib::lemma_concat_associative(base, acc, jopt_str(e@.repo_version));
        acc = acc + (jopt_str(e@.repo_version));
        assert(out@ == base + acc);
    }
    push_lit(out, ",\"archive_version\":");
    proof {
        vstd::seq_lib::lemma_concat_associative(base, acc, ",\"archive_version\":"@);
        acc = acc + (",\"archive_version\":"@);
        assert(out@ == base + acc);
    }
    emit_opt_str(out, &e.archive_version);
    proof {
        vstd::seq_lib::lemma_concat_associative(base, acc, jopt_str(e@.archive_version));
        acc = acc + (jopt_str(e@.archive_version));
        assert(out@ == base + acc);
    }
    push_lit(out, ",\"source\":");
    proof {
        vstd::seq_lib::lemma_concat_associative(base, acc, ",\"source\":"@);
        acc = acc + (",\"source\":"@);
        assert(out@ == base + acc);
    }
    emit_jstr(out, e.source.label());
    proof {
        vstd::seq_lib::lemma_concat_associative(base, acc, jstr(e@.source.spec_label()));
        acc = acc + (jstr(e@.source.spec_label()));
        assert(out@ == base + acc);
    }
    push_lit(out, ",\"newer_version\":");
    proof {
        vstd::seq_lib::lemma_concat_associative(base, acc, ",\"newer_version\":"@);
        acc = acc + (",\"newer_version\":"@);
        assert(out@ == base + acc);
    }
    emit_opt_str(out, &e.newer_version);
    proof {
        vstd::seq_lib::lemma_concat_associative(base, acc, jopt_str(e@.newer_version));
        acc = acc + (jopt_str(e@.newer_version));
        assert(out@ == base + acc);
    }
    push_lit(out, ",\"update_available\":");
    proof {
        vstd::seq_lib::lemma_concat_associative(base, acc, ",\"update_available\":"@);
        acc = acc + (",\"update_available\":"@);
        assert(out@ == base + acc);
    }
    emit_bool(out, e.update_available);
    proof {
        vstd::seq_lib::lemma_concat_associative(base, acc, jbool(e@.update_available));
        acc = acc + (jbool(e@.update_available));
        assert(out@ == base + acc);
    }
    push_lit(out, ",\"notes\":");
    proof {
        vstd::seq_lib::lemma_concat_associative(base, acc, ",\"notes\":"@);
        acc = acc + (",\"notes\":"@);
        assert(out@ == base + acc);
    }
    emit_opt_str(out, &e.notes);
    proof {
        vstd::seq_lib::lemma_concat_associative(base, acc, jopt_str(e@.notes));
        acc = acc + (jopt_str(e@.notes));
        assert(out@ == base + acc);
    }
    push_lit(out, ",\"installed_size\":");
    proof {
        vstd::seq_lib::lemma_concat_associative(base, acc, ",\"installed_size\":"@);
        acc = acc + (",\"installed_size\":"@);
        assert(out@ == base + acc);
    }
    emit_opt_num(out, e.installed_size);
    proof {
        vstd::seq_lib::lemma_concat_associative(base, acc, jopt_num(e@.installed_size));
        acc = acc + (jopt_num(e@.installed_size));
        assert(out@ == base + acc);
    }
    push_lit(out, ",\"install_date\":");
    proof {
        vstd::seq_lib::lemma_concat_associative(base, acc, ",\"install_date\":"@);
        acc = acc + (",\"install_date\":"@);
        assert(out@ == base + acc);
    }
    emit_opt_str(out, &e.install_date);
    proof {
        vstd::seq_lib::lemma_concat_associative(base, acc, jopt_str(e@.install_date));
        acc = acc + (jopt_str(e@.install_date));
        assert(out@ == base + acc);
    }
    push_lit(out, ",\"validated_by\":");
    proof {
        vstd::seq_lib::lemma_concat_associative(base, acc, ",\"validated_by\":"@);
        acc = acc + (",\"validated_by\":"@);
        assert(out@ == base + acc);
    }
    emit_opt_str(out, &e.validated_by);
    proof {
        vstd::seq_lib::lemma_concat_associative(base, acc, jopt_str(e@.validated_by));
        acc = acc + (jopt_str(e@.validated_by));
        assert(out@ == base + acc);
    }
    push_lit(out, ",\"package_hash\":");
    proof {
        vstd::seq_lib::lemma_concat_associative(base, acc, ",\"package_hash\":"@);
        acc = acc + (",\"package_hash\":"@);
        assert(out@ == base + acc);
    }
    emit_opt_str(out, &e.package_hash);
    proof {
        vstd::seq_lib::lemma_concat_associative(base, acc, jopt_str(e@.package_hash));
        acc = acc + (jopt_str(e@.package_hash));
        assert(out@ == base + acc);
    }
    push_lit(out, ",\"download_size_selected\":");
    proof {
        vstd::seq_lib::lemma_concat_associative(base, acc, ",\"download_size_selected\":"@);
        acc = acc + (",\"download_size_selected\":"@);
        assert(out@ == base + acc);
    }
    emit_opt_num(out, e.download_size_selected);
    proof {
        vstd::seq_lib::lemma_concat_associative(base, acc, jopt_num(e@.download_size_selected));
        acc = acc + (jopt_num(e@.download_size_selected));
        assert(out@ == base + acc);
    }
    push_lit(out, ",\"installed_size_selected\":");
    proof {
        vstd::seq_lib::lemma_concat_associative(base, acc, ",\"installed_size_selected\":"@);
        acc = acc + (",\"installed_size_selected\":"@);
        assert(out@ == base + acc);
    }
    emit_opt_num(out, e.installed_size_selected);
    proof {
        vstd::seq_lib::lemma_concat_associative(base, acc, jopt_num(e@.installed_size_selected));
        acc = acc + (jopt_num(e@.installed_size_selected));
        assert(out@ == base + acc);
    }
    push_lit(out, ",\"install_size_estimate\":");
    proof {
        vstd::seq_lib::lemma_concat_associative(base, acc, ",\"install_size_estimate\":"@);
        acc = acc + (",\"install_size_estimate\":"@);
        assert(out@ == base + acc);
    }
    emit_opt_num(out, e.install_size_estimate);
    proof {
        vstd::seq_lib::lemma_concat_associative(base, acc, jopt_num(e@.install_size_estimate));
        acc = acc + (jopt_num(e@.install_size_estimate));
        assert(out@ == base + acc);
    }
    push_lit(out, ",\"build_size_estimate\":");
    proof {
        vstd::seq_lib::lemma_concat_associative(base, acc, ",\"build_size_estimate\":"@);
        acc = acc + (",\"build_size_estimate\":"@);
        assert(out@ == base + acc);
    }
    emit_opt_num(out, e.build_size_estimate);
    proof {
        vstd::seq_lib::lemma_concat_associative(base, acc, jopt_num(e@.build_size_estimate));
        acc = acc + (jopt_num(e@.build_size_estimate));
        assert(out@ == base + acc);
    }
    push_lit(out, ",\"transient_size_estimate\":");
    proof {
        vstd::seq_lib::lemma_concat_associative(base, acc, ",\"transient_size_estimate\":"@);
        acc = acc + (",\"transient_size_estimate\":"@);
        assert(out@ == base + acc);
    }
    emit_opt_num(out, e.transient_size_estimate);
    proof {
        vstd::seq_lib::lemma_concat_associative(base, acc, jopt_num(e@.transient_size_estimate));
        acc = acc + (jopt_num(e@.transient_size_estimate));
        assert(out@ == base + acc);
    }
    push_lit(out, "}");
    proof {
        vstd::seq_lib::lemma_concat_associative(base, acc, "}"@);
        acc = acc + ("}"@);
        assert(out@ == base + acc);
    }
    proof {
        assert(acc == spec_render_entry(name@, e@));
    }
}

/// Append the packages object's body.
#[verifier::spinoff_prover]
#[verifier::rlimit(100)]
fn emit_records(out: &mut Vec<char>, records: &Vec<crate::manifest::PackageRecord>)
    ensures
        final(out)@ == old(out)@ + spec_render_records(records.deep_view()),
{
    let mut i: usize = 0;
    proof {
        assert(records.deep_view().take(0) =~= Seq::<PackageRecordModel>::empty());
        assert(out@ + Seq::<char>::empty() =~= out@);
    }
    while i < records.len()
        invariant
            i <= records@.len(),
            out@ == old(out)@ + spec_render_records(records.deep_view().take(i as int)),
        decreases records@.len() - i,
    {
        proof {
            let rv = records.deep_view();
            assert(rv.take(i + 1).drop_last() =~= rv.take(i as int));
            assert(rv.take(i + 1).last() == rv[i as int]);
            assert(records@[i as int]@ == rv[i as int]);
            if i >= 1 {
                assert(rv.take(i + 1).len() > 1);
            } else {
                assert(rv.take(1)[0] == rv[0]);
            }
        }
        if i > 0 {
            push_lit(out, ",");
        }
        emit_entry(out, records[i].name.as_str(), &records[i].entry);
        i = i + 1;
    }
    proof {
        assert(records.deep_view().take(records@.len() as int) =~= records.deep_view());
    }
}

/// The manifest metadata as JSON. The optional application summaries
/// appear only once collected.
pub open spec fn spec_render_metadata(m: ManifestMetadata) -> Seq<char> {
    "{\"generated_at\":"@ + jstr(m.generated_at@) + ",\"generated_by\":"@ + jstr(m.generated_by@)
        + ",\"total_packages\":"@ + jnum(m.total_packages as u64) + ",\"pacman_packages\":"@
        + jnum(m.pacman_packages as u64) + ",\"aur_packages\":"@ + jnum(m.aur_packages as u64)
        + ",\"local_packages\":"@ + jnum(m.local_packages as u64) + ",\"unknown_packages\":"@
        + jnum(m.unknown_packages as u64) + ",\"download_size_total\":"@ + jnum(
        m.download_size_total,
    ) + ",\"build_size_total\":"@ + jnum(m.build_size_total) + ",\"install_size_total\":"@ + jnum(
        m.install_size_total,
    ) + ",\"transient_size_total\":"@ + jnum(m.transient_size_total) + (match m.apps_flatpak {
        Some(b) => ",\"apps_flatpak\":"@ + jbool(b),
        None => Seq::<char>::empty(),
    }) + (match m.apps_fwupd {
        Some(b) => ",\"apps_fwupd\":"@ + jbool(b),
        None => Seq::<char>::empty(),
    }) + (match m.application_state {
        Some(s) => ",\"application_state\":{\"flatpak\":"@ + jnum(s.flatpak as u64)
            + ",\"fwupd\":"@ + jnum(s.fwupd as u64) + "}"@,
        None => Seq::<char>::empty(),
    }) + "}"@
}

/// Append the manifest metadata.
#[verifier::spinoff_prover]
#[verifier::rlimit(100)]
fn emit_metadata(out: &mut Vec<char>, m: &ManifestMetadata)
    ensures
        final(out)@ == old(out)@ + spec_render_metadata(*m),
{
    let ghost base = old(out)@;
    push_lit(out, "{\"generated_at\":");
    let ghost mut acc: Seq<char> = "{\"generated_at\":"@;
    proof {
        assert(out@ =~= base + acc);
    }
    emit_jstr(out, m.generated_at.as_str());
    proof {
        vstd::seq_lib::lemma_concat_associative(base, acc, jstr(m.generated_at@));
        acc = acc + (jstr(m.generated_at@));
        assert(out@ == base + acc);
    }
    push_lit(out, ",\"generated_by\":");
    proof {
        vstd::seq_lib::lemma_concat_associative(base, acc, ",\"generated_by\":"@);
        acc = acc + (",\"generated_by\":"@);
        assert(out@ == base + acc);
    }
    emit_jstr(out, m.generated_by.as_str());
    proof {
        vstd::seq_lib::lemma_concat_associative(base, acc, jstr(m.generated_by@));
        acc = acc + (jstr(m.generated_by@));
        assert(out@ == base + acc);
    }
    push_lit(out, ",\"total_packages\":");
    proof {
        vstd::seq_lib::lemma_concat_associative(base, acc, ",\"total_packages\":"@);
        acc = acc + (",\"total_packages\":"@);
        assert(out@ == base + acc);
    }
    emit_num(out, m.total_packages as u64);
    proof {
        vstd::seq_lib::lemma_concat_associative(base, acc, jnum(m.total_packages as u64));
        acc = acc + (jnum(m.total_packages as u64));
        assert(out@ == base + acc);
    }
    push_lit(out, ",\"pacman_packages\":");
    proof {
        vstd::seq_lib::lemma_concat_associative(base, acc, ",\"pacman_packages\":"@);
        acc = acc + (",\"pacman_packages\":"@);
        assert(out@ == base + acc);
    }
    emit_num(out, m.pacman_packages as u64);
    proof {
        vstd::seq_lib::lemma_concat_associative(base, acc, jnum(m.pacman_packages as u64));
        acc = acc + (jnum(m.pacman_packages as u64));
        assert(out@ == base + acc);
    }
    push_lit(out, ",\"aur_packages\":");
    proof {
        vstd::seq_lib::lemma_concat_associative(base, acc, ",\"aur_packages\":"@);
        acc = acc + (",\"aur_packages\":"@);
        assert(out@ == base + acc);
    }
    emit_num(out, m.aur_packages as u64);
    proof {
        vstd::seq_lib::lemma_concat_associative(base, acc, jnum(m.aur_packages as u64));
        acc = acc + (jnum(m.aur_packages as u64));
        assert(out@ == base + acc);
    }
    push_lit(out, ",\"local_packages\":");
    proof {
        vstd::seq_lib::lemma_concat_associative(base, acc, ",\"local_packages\":"@);
        acc = acc + (",\"local_packages\":"@);
        assert(out@ == base + acc);
    }
    emit_num(out, m.local_packages as u64);
    proof {
        vstd::seq_lib::lemma_concat_associative(base, acc, jnum(m.local_packages as u64));
        acc = acc + (jnum(m.local_packages as u64));
        assert(out@ == base + acc);
    }
    push_lit(out, ",\"unknown_packages\":");
    proof {
        vstd::seq_lib::lemma_concat_associative(base, acc, ",\"unknown_packages\":"@);
        acc = acc + (",\"unknown_packages\":"@);
        assert(out@ == base + acc);
    }
    emit_num(out, m.unknown_packages as u64);
    proof {
        vstd::seq_lib::lemma_concat_associative(base, acc, jnum(m.unknown_packages as u64));
        acc = acc + (jnum(m.unknown_packages as u64));
        assert(out@ == base + acc);
    }
    push_lit(out, ",\"download_size_total\":");
    proof {
        vstd::seq_lib::lemma_concat_associative(base, acc, ",\"download_size_total\":"@);
        acc = acc + (",\"download_size_total\":"@);
        assert(out@ == base + acc);
    }
    emit_num(out, m.download_size_total);
    proof {
        vstd::seq_lib::lemma_concat_associative(base, acc, jnum(m.download_size_total));
        acc = acc + (jnum(m.download_size_total));
        assert(out@ == base + acc);
    }
    push_lit(out, ",\"build_size_total\":");
    proof {
        vstd::seq_lib::lemma_concat_associative(base, acc, ",\"build_size_total\":"@);
        acc = acc + (",\"build_size_total\":"@);
        assert(out@ == base + acc);
    }
    emit_num(out, m.build_size_total);
    proof {
        vstd::seq_lib::lemma_concat_associative(base, acc, jnum(m.build_size_total));
        acc = acc + (jnum(m.build_size_total));
        assert(out@ == base + acc);
    }
    push_lit(out, ",\"install_size_total\":");
    proof {
        vstd::seq_lib::lemma_concat_associative(base, acc, ",\"install_size_total\":"@);
        acc = acc + (",\"install_size_total\":"@);
        assert(out@ == base + acc);
    }
    emit_num(out, m.install_size_total);
    proof {
        vstd::seq_lib::lemma_concat_associative(base, acc, jnum(m.install_size_total));
        acc = acc + (jnum(m.install_size_total));
        assert(out@ == base + acc);
    }
    push_lit(out, ",\"transient_size_total\":");
    proof {
        vstd::seq_lib::lemma_concat_associative(base, acc, ",\"transient_size_total\":"@);
        acc = acc + (",\"transient_size_total\":"@);
        assert(out@ == base + acc);
    }
    emit_num(out, m.transient_size_total);
    proof {
        vstd::seq_lib::lemma_concat_associative(base, acc, jnum(m.transient_size_total));
        acc = acc + (jnum(m.transient_size_total));
        assert(out@ == base + acc);
    }
    match m.apps_flatpak {
        Some(b) => {
            let ghost inner = base + acc;
            push_lit(out, ",\"apps_flatpak\":");
            let ghost mut seg: Seq<char> = ",\"apps_flatpak\":"@;
            proof {
                assert(out@ =~= inner + seg);
            }
            emit_bool(out, b);
            proof {
                vstd::seq_lib::lemma_concat_associative(inner, seg, jbool(b));
                seg = seg + (jbool(b));
                assert(out@ == inner + seg);
            }
            proof {
                vstd::seq_lib::lemma_concat_associative(base, acc, seg);
                acc = acc + seg;
                assert(out@ == base + acc);
            }
        },
        None => {
            proof {
                assert(acc + Seq::<char>::empty() =~= acc);
                acc = acc + Seq::<char>::empty();
            }
        },
    }
    match m.apps_fwupd {
        Some(b) => {
            let ghost inner = base + acc;
            push_lit(out, ",\"apps_fwupd\":");
            let ghost mut seg: Seq<char> = ",\"apps_fwupd\":"@;
            proof {
                assert(out@ =~= inner + seg);
            }
            emit_bool(out, b);
            proof {
                vstd::seq_lib::lemma_concat_associative(inner, seg, jbool(b));
                seg = seg + (jbool(b));
                assert(out@ == inner + seg);
            }
            proof {
                vstd::seq_lib::lemma_concat_associative(base, acc, seg);
                acc = acc + seg;
                assert(out@ == base + acc);
            }
        },
        None => {
            proof {
                assert(acc + Seq::<char>::empty() =~= acc);
                acc = acc + Seq::<char>::empty();
            }
        },
    }
    match m.application_state {
        Some(st) => {
            let ghost inner = base + acc;
            push_lit(out, ",\"application_state\":{\"flatpak\":");
            let ghost mut seg: Seq<char> = ",\"application_state\":{\"flatpak\":"@;
            proof {
                assert(out@ =~= inner + seg);
            }
            emit_num(out, st.flatpak as u64);
            proof {
                vstd::seq_lib::lemma_concat_associative(inner, seg, jnum(st.flatpak as u64));
                seg = seg + (jnum(st.flatpak as u64));
                assert(out@ == inner + seg);
            }
            push_lit(out, ",\"fwupd\":");
            proof {
                vstd::seq_lib::lemma_concat_associative(inner, seg, ",\"fwupd\":"@);
                seg = seg + (",\"fwupd\":"@);
                assert(out@ == inner + seg);
            }
            emit_num(out, st.fwupd as u64);
            proof {
                vstd::seq_lib::lemma_concat_associative(inner, seg, jnum(st.fwupd as u64));
                seg = seg + (jnum(st.fwupd as u64));
                assert(out@ == inner + seg);
            }
            push_lit(out, "}");
            proof {
                vstd::seq_lib::lemma_concat_associative(inner, seg, "}"@);
                seg = seg + ("}"@);
                assert(out@ == inner + seg);
            }
            proof {
                vstd::seq_lib::lemma_concat_associative(base, acc, seg);
                acc = acc + seg;
                assert(out@ == base + acc);
            }
        },
        None => {
            proof {
                assert(acc + Seq::<char>::empty() =~= acc);
                acc = acc + Seq::<char>::empty();
            }
        },
    }
    push_lit(out, "}");
    proof {
        vstd::seq_lib::lemma_concat_associative(base, acc, "}"@);
        acc = acc + ("}"@);
        assert(out@ == base + acc);
        assert(acc == spec_render_metadata(*m));
    }
}

/// A string list as a JSON array.
pub open spec fn spec_render_names(ns: Seq<Seq<char>>) -> Seq<char>
    decreases ns.len(),
{
    if ns.len() == 0 {
        Seq::empty()
    } else if ns.len() == 1 {
        jstr(ns[0])
    } else {
        spec_render_names(ns.drop_last()) + ","@ + jstr(ns.last())
    }
}

/// Append a string list's body.
fn emit_names(out: &mut Vec<char>, names: &Vec<String>)
    ensures
        final(out)@ == old(out)@ + spec_render_names(names.deep_view()),
{
    let mut i: usize = 0;
    proof {
        assert(names.deep_view().take(0) =~= Seq::<Seq<char>>::empty());
        assert(out@ + Seq::<char>::empty() =~= out@);
    }
    while i < names.len()
        invariant
            i <= names@.len(),
            out@ == old(out)@ + spec_render_names(names.deep_view().take(i as int)),
        decreases names@.len() - i,
    {
        proof {
            let nv = names.deep_view();
            assert(nv.take(i + 1).drop_last() =~= nv.take(i as int));
            assert(nv.take(i + 1).last() == nv[i as int]);
            assert(names@[i as int]@ == nv[i as int]);
            if i == 0 {
                assert(nv.take(1)[0] == nv[0]);
            }
        }
        if i > 0 {
            push_lit(out, ",");
        }
        emit_jstr(out, names[i].as_str());
        i = i + 1;
    }
    proof {
        assert(names.deep_view().take(names@.len() as int) =~= names.deep_view());
    }
}

/// One per-source group as JSON.
pub open spec fn spec_render_group(g: PackageGroupModel) -> Seq<char> {
    "{\"source\":"@ + jstr(g.source.spec_label()) + ",\"count\":"@ + text::spec_digits(g.count)
        + ",\"packages\":["@ + spec_render_names(g.packages) + "]}"@
}

/// The group list's body.
pub open spec fn spec_render_groups(gs: Seq<PackageGroupModel>) -> Seq<char>
    decreases gs.len(),
{
    if gs.len() == 0 {
        Seq::empty()
    } else if gs.len() == 1 {
        spec_render_group(gs[0])
    } else {
        spec_render_groups(gs.drop_last()) + ","@ + spec_render_group(gs.last())
    }
}

/// Append the group list's body.
fn emit_groups(out: &mut Vec<char>, groups: &Vec<crate::manifest::PackageGroup>)
    ensures
        final(out)@ == old(out)@ + spec_render_groups(groups.deep_view()),
{
    let mut i: usize = 0;
    proof {
        assert(groups.deep_view().take(0) =~= Seq::<PackageGroupModel>::empty());
        assert(out@ + Seq::<char>::empty() =~= out@);
    }
    while i < groups.len()
        invariant
            i <= groups@.len(),
            out@ == old(out)@ + spec_render_groups(groups.deep_view().take(i as int)),
        decreases groups@.len() - i,
    {
        proof {
            let gv = groups.deep_view();
            assert(gv.take(i + 1).drop_last() =~= gv.take(i as int));
            assert(gv.take(i + 1).last() == gv[i as int]);
            assert(groups@[i as int]@ == gv[i as int]);
            if i == 0 {
                assert(gv.take(1)[0] == gv[0]);
            }
        }
        if i > 0 {
            push_lit(out, ",");
        }
        let g = &groups[i];
        push_lit(out, "{\"source\":");
        emit_jstr(out, g.source.label());
        push_lit(out, ",\"count\":");
        emit_num(out, g.count as u64);
        push_lit(out, ",\"packages\":[");
        emit_names(out, &g.packages);
        push_lit(out, "]}");
        i = i + 1;
    }
    proof {
        assert(groups.deep_view().take(groups@.len() as int) =~= groups.deep_view());
    }
}

/// The whole manifest document as JSON. Application state is summarized by
/// its counts; the full listings live with their collectors.
pub open spec fn spec_render_manifest(doc: ManifestDocument) -> Seq<char> {
    "{\"metadata\":"@ + spec_render_metadata(doc.metadata) + ",\"packages\":{"@
        + spec_render_records(doc.packages.deep_view()) + "},\"packages_by_source\":["@
        + spec_render_groups(doc.packages_by_source.deep_view()) + "],\"applications\":"@
        + spec_render_applications(doc.applications) + "}"@
}

/// The application state block: each collected state appears under its
/// key with its enablement and counts.
pub open spec fn spec_render_applications(a: Applications) -> Seq<char> {
    "{"@ + (match a.flatpak {
        Some(f) => "\"flatpak\":{\"enabled\":"@ + jbool(f.enabled) + ",\"installed_count\":"@
            + jnum(f.installed_count as u64) + ",\"update_count\":"@ + jnum(f.update_count as u64)
            + "}"@,
        None => Seq::<char>::empty(),
    }) + (match (a.flatpak, a.fwupd) {
        (Some(_), Some(_)) => ","@,
        _ => Seq::<char>::empty(),
    }) + (match a.fwupd {
        Some(f) => "\"fwupd\":{\"enabled\":"@ + jbool(f.enabled) + ",\"device_count\":"@ + jnum(
            f.device_count as u64,
        ) + ",\"update_count\":"@ + jnum(f.update_count as u64) + "}"@,
        None => Seq::<char>::empty(),
    }) + "}"@
}

/// Append the application state block.
#[verifier::spinoff_prover]
#[verifier::rlimit(100)]
fn emit_applications(out: &mut Vec<char>, a: &Applications)
    ensures
        final(out)@ == old(out)@ + spec_render_applications(*a),
{
    let ghost base = old(out)@;
    push_lit(out, "{");
    let ghost mut acc: Seq<char> = "{"@;
    proof {
        assert(out@ =~= base + acc);
    }
    match &a.flatpak {
        Some(f) => {
            let ghost inner = base + acc;
            push_lit(out, "\"flatpak\":{\"enabled\":");
            let ghost mut seg: Seq<char> = "\"flatpak\":{\"enabled\":"@;
            proof {
                assert(out@ =~= inner + seg);
            }
            emit_bool(out, f.enabled);
            proof {
                vstd::seq_lib::lemma_concat_associative(inner, seg, jbool(f.enabled));
                seg = seg + (jbool(f.enabled));
                assert(out@ == inner + seg);
            }
            push_lit(out, ",\"installed_count\":");
            proof {
                vstd::seq_lib::lemma_concat_associative(inner, seg, ",\"installed_count\":"@);
                seg = seg + (",\"installed_count\":"@);
                assert(out@ == inner + seg);
            }
            emit_num(out, f.installed_count as u64);
            proof {
                vstd::seq_lib::lemma_concat_associative(inner, seg, jnum(f.installed_count as u64));
                seg = seg + (jnum(f.installed_count as u64));
                assert(out@ == inner + seg);
            }
            push_lit(out, ",\"update_count\":");
            proof {
                vstd::seq_lib::lemma_concat_associative(inner, seg, ",\"update_count\":"@);
                seg = seg + (",\"update_count\":"@);
                assert(out@ == inner + seg);
            }
            emit_num(out, f.update_count as u64);
            proof {
                vstd::seq_lib::lemma_concat_associative(inner, seg, jnum(f.update_count as u64));
                seg = seg + (jnum(f.update_count as u64));
                assert(out@ == inner + seg);
            }
            push_lit(out, "}");
            proof {
                vstd::seq_lib::lemma_concat_associative(inner, seg, "}"@);
                seg = seg + ("}"@);
                assert(out@ == inner + seg);
            }
            proof {
                vstd::seq_lib::lemma_concat_associative(base, acc, seg);
                acc = acc + seg;
                assert(out@ == base + acc);
            }
        },
        None => {
            proof {
                assert(acc + Seq::<char>::empty() =~= acc);
                acc = acc + Seq::<char>::empty();
            }
        },
    }
    match (&a.flatpak, &a.fwupd) {
        (Some(_), Some(_)) => {
            push_lit(out, ",");
            proof {
                vstd::seq_lib::lemma_concat_associative(base, acc, ","@);
                acc = acc + (","@);
                assert(out@ == base + acc);
            }
        },
        _ => {
            proof {
                assert(acc + Seq::<char>::empty() =~= acc);
                acc = acc + Seq::<char>::empty();
            }
        },
    }
    match &a.fwupd {
        Some(f) => {
            let ghost inner = base + acc;
            push_lit(out, "\"fwupd\":{\"enabled\":");
            let ghost mut seg: Seq<char> = "\"fwupd\":{\"enabled\":"@;
            proof {
                assert(out@ =~= inner + seg);
            }
            emit_bool(out, f.enabled);
            proof {
                vstd::seq_lib::lemma_concat_associative(inner, seg, jbool(f.enabled));
                seg = seg + (jbool(f.enabled));
                assert(out@ == inner + seg);
            }
            push_lit(out, ",\"device_count\":");
            proof {
                vstd::seq_lib::lemma_concat_associative(inner, seg, ",\"device_count\":"@);
                seg = seg + (",\"device_count\":"@);
                assert(out@ == inner + seg);
            }
            emit_num(out, f.device_count as u64);
            proof {
                vstd::seq_lib::lemma_concat_associative(inner, seg, jnum(f.device_count as u64));
                seg = seg + (jnum(f.device_count as u64));
                assert(out@ == inner + seg);
            }
            push_lit(out, ",\"update_count\":");
            proof {
                vstd::seq_lib::lemma_concat_associative(inner, seg, ",\"update_count\":"@);
                seg = seg + (",\"update_count\":"@);
                assert(out@ == inner + seg);
            }
            emit_num(out, f.update_count as u64);
            proof {
                vstd::seq_lib::lemma_concat_associative(inner, seg, jnum(f.update_count as u64));
                seg = seg + (jnum(f.update_count as u64));
                assert(out@ == inner + seg);
            }
            push_lit(out, "}");
            proof {
                vstd::seq_lib::lemma_concat_associative(inner, seg, "}"@);
                seg = seg + ("}"@);
                assert(out@ == inner + seg);
            }
            proof {
                vstd::seq_lib::lemma_concat_associative(base, acc, seg);
                acc = acc + seg;
                assert(out@ == base + acc);
            }
        },
        None => {
            proof {
                assert(acc + Seq::<char>::empty() =~= acc);
                acc = acc + Seq::<char>::empty();
            }
        },
    }
    push_lit(out, "}");
    proof {
        vstd::seq_lib::lemma_concat_associative(base, acc, "}"@);
        acc = acc + ("}"@);
        assert(out@ == base + acc);
        assert(acc == spec_render_applications(*a));
    }
}

/// Render the manifest document to its canonical JSON characters.
pub fn render_manifest(doc: &ManifestDocument) -> (r: Vec<char>)
    ensures
        r@ == spec_render_manifest(*doc),
{
    let mut out: Vec<char> = Vec::new();
    proof {
        assert(out@ =~= Seq::<char>::empty());
    }
    push_lit(&mut out, "{\"metadata\":");
    emit_metadata(&mut out, &doc.metadata);
    push_lit(&mut out, ",\"packages\":{");
    emit_records(&mut out, &doc.packages);
    push_lit(&mut out, "},\"packages_by_source\":[");
    emit_groups(&mut out, &doc.packages_by_source);
    push_lit(&mut out, "],\"applications\":");
    emit_applications(&mut out, &doc.applications);
    push_lit(&mut out, "}");
    proof {
        assert(out@ =~= spec_render_manifest(*doc));
    }
    out
}

/// Relies on `String`'s `FromIterator` over characters: the collected
/// string holds exactly the characters of the vector, in order.
#[verifier::external_body]
fn chars_to_string(v: Vec<char>) -> (r: String)
    ensures
        r@ == v@,
{
    v.into_iter().collect()
}

/// Render the manifest document to its canonical JSON text.
pub fn render_manifest_string(doc: &ManifestDocument) -> (r: String)
    ensures
        r@ == spec_render_manifest(*doc),
{
    chars_to_string(render_manifest(doc))
}

/// Rendering is deterministic: two equal documents render to the same
/// text, whatever run produced them; the rendering depends on nothing but
/// the document.
pub proof fn lemma_render_deterministic(a: ManifestDocument, b: ManifestDocument)
    requires
        a == b,
    ensures
        spec_render_manifest(a) == spec_render_manifest(b),
{
}

/// The value of one lowercase hexadecimal digit character; sixteen for
/// anything else.
pub open spec fn hex_val(c: char) -> int {
    if '0' <= c && c <= '9' {
        c as int - '0' as int
    } else if 'a' <= c && c <= 'f' {
        c as int - 'a' as int + 10
    } else {
        16
    }
}

/// Scan the body of a canonical JSON string from `p`, decoding exactly the
/// escapes the renderer writes, up to the closing quote.
pub open spec fn spec_scan_jstr(t: Seq<char>, p: int) -> Option<(Seq<char>, int)>
    decreases t.len() - p,
{
    if p < 0 || p >= t.len() {
        None
    } else if t[p] == '"' {
        Some((Seq::empty(), p + 1))
    } else if t[p] == '\\' {
        if p + 1 >= t.len() {
            None
        } else if t[p + 1] == '"' {
            match spec_scan_jstr(t, p + 2) {
                Some(r) => Some((seq!['"'] + r.0, r.1)),
                None => None,
            }
        } else if t[p + 1] == '\\' {
            match spec_scan_jstr(t, p + 2) {
                Some(r) => Some((seq!['\\'] + r.0, r.1)),
                None => None,
            }
        } else if t[p + 1] == 'u' {
            if p + 6 > t.len() {
                None
            } else if t[p + 2] == '0' && t[p + 3] == '0' && hex_val(t[p + 4]) < 16 && hex_val(
                t[p + 5],
            ) < 16 && hex_val(t[p + 4]) * 16 + hex_val(t[p + 5]) < 32 {
                match spec_scan_jstr(t, p + 6) {
                    Some(r) => Some(
                        (seq![((hex_val(t[p + 4]) * 16 + hex_val(t[p + 5])) as u8) as char] + r.0,
                        r.1),
                    ),
                    None => None,
                }
            } else {
                None
            }
        } else {
            None
        }
    } else {
        match spec_scan_jstr(t, p + 1) {
            Some(r) => Some((seq![t[p]] + r.0, r.1)),
            None => None,
        }
    }
}

/// Parse a canonical JSON string at `p`: an opening quote, the body, the
/// closing quote.
pub open spec fn spec_parse_jstr(t: Seq<char>, p: int) -> Option<(Seq<char>, int)> {
    if 0 <= p < t.len() && t[p] == '"' {
        spec_scan_jstr(t, p + 1)
    } else {
        None
    }
}

/// Escaping reads the same from the front as from the back.
proof fn lemma_esc_front(s: Seq<char>)
    requires
        s.len() > 0,
    ensures
        esc(s) == esc_char(s[0]) + esc(s.drop_first()),
    decreases s.len(),
{
    if s.len() == 1 {
        assert(s.drop_last() =~= Seq::<char>::empty());
        assert(s.drop_first() =~= Seq::<char>::empty());
        assert(esc(s) == esc(s.drop_last()) + esc_char(s.last()));
        assert(esc_char(s[0]) + esc(s.drop_first()) =~= esc(s));
    } else {
        let init = s.drop_last();
        lemma_esc_front(init);
        assert(init[0] == s[0]);
        assert(init.drop_first() =~= s.drop_first().drop_last());
        assert(s.drop_first().last() == s.last());
        assert(esc(s) == esc(init) + esc_char(s.last()));
        assert(esc(init) == esc_char(s[0]) + esc(init.drop_first()));
        assert(esc(s.drop_first()) == esc(s.drop_first().drop_last()) + esc_char(
            s.drop_first().last(),
        ));
        assert(esc(s) =~= esc_char(s[0]) + esc(s.drop_first()));
    }
}

/// The value of a rendered hexadecimal digit is the digit.
proof fn lemma_hex_val_of_hex_char(d: int)
    requires
        0 <= d < 16,
    ensures
        hex_val(text::hex_char(d)) == d,
{
}

/// Scanning the escaped body of `s` followed by a closing quote recovers
/// `s` exactly and stops after the quote.
#[verifier::spinoff_prover]
#[verifier::rlimit(100)]
proof fn lemma_scan_esc_round_trip(t: Seq<char>, p: int, s: Seq<char>)
    requires
        0 <= p,
        p + esc(s).len() + 1 <= t.len(),
        t.subrange(p, p + esc(s).len() + 1) == esc(s) + seq!['"'],
    ensures
        spec_scan_jstr(t, p) == Some((s, p + esc(s).len() + 1)),
    decreases s.len(),
{
    let body = esc(s) + seq!['"'];
    if s.len() == 0 {
        assert(esc(s).len() == 0);
        assert(t[p] == body[0]);
        assert(t[p] == '"');
    } else {
        lemma_esc_front(s);
        let c = s[0];
        let e = esc_char(c);
        let rest = s.drop_first();
        assert(esc(s) == e + esc(rest));
        assert forall|k: int| 0 <= k < e.len() implies t[p + k] == e[k] by {
            assert(t[p + k] == body[k]);
            assert(body[k] == (e + esc(rest))[k]);
        }
        assert(t[p + 0] == e[0]);
        if e.len() > 1 {
            assert(t[p + 1] == e[1]);
        }
        if e.len() > 5 {
            assert(t[p + 2] == e[2]);
            assert(t[p + 3] == e[3]);
            assert(t[p + 4] == e[4]);
            assert(t[p + 5] == e[5]);
        }
        let p2 = p + e.len();
        assert(t.subrange(p2, p2 + esc(rest).len() + 1) =~= esc(rest) + seq!['"']) by {
            assert forall|k: int| 0 <= k < esc(rest).len() + 1 implies t.subrange(
                p2,
                p2 + esc(rest).len() + 1,
            )[k] == (esc(rest) + seq!['"'])[k] by {
                assert(t[p2 + k] == body[e.len() + k]);
            }
        }
        lemma_scan_esc_round_trip(t, p2 as int, rest);
        if c == '"' {
            assert(e == seq!['\\', '"']);
            assert(t[p] == '\\' && t[p + 1] == '"');
            assert(spec_scan_jstr(t, p + 2) == Some((rest, p + esc(s).len() + 1)));
            assert(seq!['"'] + rest =~= s);
        } else if c == '\\' {
            assert(e == seq!['\\', '\\']);
            assert(t[p] == '\\' && t[p + 1] == '\\');
            assert(spec_scan_jstr(t, p + 2) == Some((rest, p + esc(s).len() + 1)));
            assert(seq!['\\'] + rest =~= s);
        } else if (c as int) < 32 {
            text::lemma_char_nonneg(c);
            assert(e == seq!['\\', 'u', '0', '0', text::hex_char(c as int / 16), text::hex_char(
                c as int % 16,
            )]);
            assert(t[p] == '\\' && t[p + 1] == 'u' && t[p + 2] == '0' && t[p + 3] == '0');
            assert(t[p + 4] == text::hex_char(c as int / 16));
            assert(t[p + 5] == text::hex_char(c as int % 16));
            lemma_hex_val_of_hex_char(c as int / 16);
            lemma_hex_val_of_hex_char(c as int % 16);
            assert(hex_val(t[p + 4]) * 16 + hex_val(t[p + 5]) == c as int);
            assert(spec_scan_jstr(t, p + 6) == Some((rest, p + esc(s).len() + 1)));
            assert(((c as int) as u8) as char == c);
            assert(seq![c] + rest =~= s);
        } else {
            assert(e == seq![c]);
            assert(t[p] == c);
            assert(spec_scan_jstr(t, p + 1) == Some((rest, p + esc(s).len() + 1)));
            assert(seq![c] + rest =~= s);
        }
    }
}

/// The canonical JSON rendering of a string parses back to it: wherever
/// `jstr(s)` stands in a text, the parse at its opening quote yields `s`
/// and stops at its end. One building block of the document round trip.
pub proof fn lemma_jstr_round_trip(t: Seq<char>, p: int, s: Seq<char>)
    requires
        0 <= p,
        p + jstr(s).len() <= t.len(),
        t.subrange(p, p + jstr(s).len() as int) == jstr(s),
    ensures
        spec_parse_jstr(t, p) == Some((s, p + jstr(s).len())),
{
    assert(t[p] == jstr(s)[0]);
    assert(jstr(s)[0] == '"');
    assert(t.subrange(p + 1, p + 1 + esc(s).len() + 1) =~= esc(s) + seq!['"']) by {
        assert forall|k: int| 0 <= k < esc(s).len() + 1 implies t.subrange(
            p + 1,
            p + 1 + esc(s).len() + 1,
        )[k] == (esc(s) + seq!['"'])[k] by {
            assert(t[p + 1 + k] == jstr(s)[1 + k]);
            assert(jstr(s)[1 + k] == (seq!['"'] + esc(s) + seq!['"'])[1 + k]);
        }
    }
    lemma_scan_esc_round_trip(t, p + 1, s);
}

} // verus!

