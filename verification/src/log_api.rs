//! Log file support: the line format, the digest line written beside each
//! log, and the retention-pruning decisions. Opening, writing and deleting
//! files is the caller's concern; this module decides what the bytes and
//! the selections are.

use vstd::prelude::*;

verus! {

use vstd::string::StrSliceExecFns;
use vstd::string::StringExecFns;
use sha2::Digest;
use crate::text;

/// Where logging writes, as reported to the caller.
#[derive(Debug)]
pub struct LogInit {
    pub path: String,
    pub level: String,
    pub directory: String,
}

/// One log line: timestamp, level, code, and message.
pub open spec fn spec_log_line(
    timestamp: Seq<char>,
    level: Seq<char>,
    code: Seq<char>,
    message: Seq<char>,
) -> Seq<char> {
    timestamp + " ["@ + level + "] ["@ + code + "] "@ + message + "\n"@
}

/// Format one log line.
pub fn log_line(timestamp: &str, level: &str, code: &str, message: &str) -> (r: String)
    ensures
        r@ == spec_log_line(timestamp@, level@, code@, message@),
{
    let mut r = timestamp.to_owned();
    r.append(" [");
    r.append(level);
    r.append("] [");
    r.append(code);
    r.append("] ");
    r.append(message);
    r.append("\n");
    r
}

/// The digest of a byte string under the log-hashing function.
pub uninterp spec fn sha256_of(data: Seq<u8>) -> Seq<u8>;

/// Relies on `sha2::Sha256::digest`: the digest is a function of the input
/// bytes alone and is exactly thirty-two bytes long.
#[verifier::external_body]
fn sha256(data: &[u8]) -> (r: Vec<u8>)
    ensures
        r@ == sha256_of(data@),
        r@.len() == 32,
{
    sha2::Sha256::digest(data).to_vec()
}

/// The line written beside a log: the digest in lowercase hexadecimal, two
/// spaces, and the log's file name.
pub open spec fn spec_hash_line(data: Seq<u8>, file_name: Seq<char>) -> Seq<char> {
    text::spec_hex(sha256_of(data)) + "  "@ + file_name + "\n"@
}

/// Compute the digest line for a log's contents.
pub fn log_hash_line(data: &Vec<u8>, file_name: &str) -> (r: String)
    ensures
        r@ == spec_hash_line(data@, file_name@),
{
    let digest = sha256(data.as_slice());
    let mut r = text::hex_lower(&digest);
    r.append("  ");
    r.append(file_name);
    r.append("\n");
    r
}

/// One log file as the caller found it on disk.
#[derive(Debug)]
pub struct LogFileMeta {
    pub name: String,
    pub mtime: u64,
    pub size: u64,
}

/// Mathematical model of a `LogFileMeta`.
pub ghost struct LogFileMetaModel {
    pub name: Seq<char>,
    pub mtime: u64,
    pub size: u64,
}

impl View for LogFileMeta {
    type V = LogFileMetaModel;

    open spec fn view(&self) -> LogFileMetaModel {
        LogFileMetaModel { name: self.name@, mtime: self.mtime, size: self.size }
    }
}

impl DeepView for LogFileMeta {
    type V = LogFileMetaModel;

    open spec fn deep_view(&self) -> LogFileMetaModel {
        self.view()
    }
}

/// Whether a file name carries the log suffix.
pub open spec fn spec_is_log_name(name: Seq<char>) -> bool {
    name.len() >= 4 && name.skip(name.len() - 4) == ".log"@
}

/// Test whether a file name carries the log suffix.
pub fn is_log_name(name: &str) -> (r: bool)
    ensures
        r == spec_is_log_name(name@),
{
    let n = name.unicode_len();
    if n < 4 {
        return false;
    }
    let tail = name.substring_char(n - 4, n);
    proof {
        assert(tail@ =~= name@.skip(name@.len() - 4));
    }
    crate::pacman::str_eq(tail, ".log")
}

/// The names of the log files last modified strictly before the cutoff.
pub open spec fn spec_prune_by_age(fs: Seq<LogFileMetaModel>, cutoff: u64) -> Seq<Seq<char>>
    decreases fs.len(),
{
    if fs.len() == 0 {
        Seq::empty()
    } else {
        let init = spec_prune_by_age(fs.drop_last(), cutoff);
        if fs.last().mtime < cutoff && spec_is_log_name(fs.last().name) {
            init.push(fs.last().name)
        } else {
            init
        }
    }
}

/// Select the log files to delete under the age retention policy: those
/// last modified strictly before the cutoff.
pub fn prune_by_age(files: &Vec<LogFileMeta>, cutoff: u64) -> (r: Vec<String>)
    ensures
        r.deep_view() == spec_prune_by_age(files.deep_view(), cutoff),
{
    let mut r: Vec<String> = Vec::new();
    let mut i: usize = 0;
    proof {
        assert(files.deep_view().take(0) =~= Seq::<LogFileMetaModel>::empty());
        assert(r.deep_view() =~= Seq::<Seq<char>>::empty());
    }
    while i < files.len()
        invariant
            i <= files@.len(),
            r.deep_view() =~= spec_prune_by_age(files.deep_view().take(i as int), cutoff),
        decreases files@.len() - i,
    {
        proof {
            let fv = files.deep_view();
            assert(fv.take(i + 1).drop_last() =~= fv.take(i as int));
            assert(fv.take(i + 1).last() == fv[i as int]);
            assert(files@[i as int]@ == fv[i as int]);
        }
        if files[i].mtime < cutoff && is_log_name(files[i].name.as_str()) {
            let ghost before = r.deep_view();
            r.push(files[i].name.clone());
            proof {
                assert(r.deep_view() =~= before.push(r.deep_view().last()));
            }
        }
        i = i + 1;
    }
    proof {
        assert(files.deep_view().take(files@.len() as int) =~= files.deep_view());
    }
    r
}

/// The saturating total size of a file list.
pub open spec fn spec_total_size(fs: Seq<LogFileMetaModel>) -> u64
    decreases fs.len(),
{
    if fs.len() == 0 {
        0
    } else {
        crate::reconcile::sat64(fs[0].size + spec_total_size(fs.drop_first()))
    }
}

/// How many of the oldest files must go for the remainder to fit the byte
/// limit.
pub open spec fn spec_prune_count(fs: Seq<LogFileMetaModel>, limit: u64) -> int
    decreases fs.len(),
{
    if spec_total_size(fs) <= limit {
        0
    } else if fs.len() == 0 {
        0
    } else {
        1 + spec_prune_count(fs.drop_first(), limit)
    }
}

/// The total size of the files from position `j` on.
fn suffix_total(files: &Vec<LogFileMeta>, j: usize) -> (t: u64)
    requires
        j <= files@.len(),
    ensures
        t == spec_total_size(files.deep_view().skip(j as int)),
{
    let mut t: u64 = 0;
    let mut k: usize = files.len();
    proof {
        assert(files.deep_view().skip(files@.len() as int) =~= Seq::<LogFileMetaModel>::empty());
    }
    while k > j
        invariant
            j <= k <= files@.len(),
            t == spec_total_size(files.deep_view().skip(k as int)),
        decreases k,
    {
        k = k - 1;
        proof {
            let fv = files.deep_view();
            let suf = fv.skip(k as int);
            assert(suf[0] == fv[k as int]);
            assert(suf.drop_first() =~= fv.skip(k + 1));
            assert(files@[k as int]@ == fv[k as int]);
        }
        t = crate::reconcile::sat_add(files[k].size, t);
    }
    t
}

/// Select the log files to delete under the size retention policy: walking
/// from the front of the list (the caller passes it ordered oldest first),
/// delete until the remaining total size fits the limit.
pub fn prune_by_size(files: &Vec<LogFileMeta>, limit: u64) -> (r: Vec<String>)
    ensures
        r.deep_view().len() == spec_prune_count(files.deep_view(), limit),
        forall|k: int|
            0 <= k < r.deep_view().len() ==> #[trigger] r.deep_view()[k]
                == files.deep_view()[k].name,
{
    let mut r: Vec<String> = Vec::new();
    let mut j: usize = 0;
    proof {
        assert(files.deep_view().skip(0) =~= files.deep_view());
        assert(r.deep_view() =~= Seq::<Seq<char>>::empty());
    }
    while j < files.len()
        invariant
            j <= files@.len(),
            r.deep_view().len() == j,
            spec_prune_count(files.deep_view(), limit) == j as int + spec_prune_count(
                files.deep_view().skip(j as int),
                limit,
            ),
            forall|k: int|
                0 <= k < j ==> #[trigger] r.deep_view()[k] == files.deep_view()[k].name,
        decreases files@.len() - j,
    {
        let t = suffix_total(files, j);
        if t <= limit {
            proof {
                assert(spec_prune_count(files.deep_view().skip(j as int), limit) == 0);
            }
            return r;
        }
        proof {
            let fv = files.deep_view();
            let suf = fv.skip(j as int);
            assert(suf.drop_first() =~= fv.skip(j + 1));
            assert(files@[j as int]@ == fv[j as int]);
        }
        let ghost before = r.deep_view();
        r.push(files[j].name.clone());
        proof {
            assert(r.deep_view() =~= before.push(r.deep_view().last()));
            assert(r.deep_view()[j as int] == files.deep_view()[j as int].name);
        }
        j = j + 1;
    }
    proof {
        assert(files.deep_view().skip(files@.len() as int) =~= Seq::<LogFileMetaModel>::empty());
    }
    r
}

} // verus!
