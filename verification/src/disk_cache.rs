//! Layout of the on-disk pipeline cache: where the cache directory is, the
//! file that holds each key, how often a failed file operation is retried,
//! and which reads and writes count.

use vstd::prelude::*;
use crate::text::{hex_char, push_decimal, push_hex_fixed, spec_decimal, spec_hex_fixed};

verus! {

/// Format version written into every cache file name.
pub const CACHE_VERSION: u64 = 1;
/// Attempts of a file operation before giving up.
pub const MAX_RETRIES: u32 = 3;
/// Pause between attempts, in milliseconds.
pub const RETRY_DELAY_MS: u64 = 50;

/// `name` appended to the directory `dir` as a path component: with a `/`
/// between them unless `dir` is empty or already ends in `/`.
pub open spec fn spec_join(dir: Seq<char>, name: Seq<char>) -> Seq<char> {
    if dir.len() == 0 {
        name
    } else if dir.last() == '/' {
        dir + name
    } else {
        dir + "/"@ + name
    }
}

/// File name of the entry for `key`: `pipeline_v1_` and the key as sixteen
/// lower-case hexadecimal digits, then `.bin`.
pub open spec fn spec_cache_file_name(key: u64) -> Seq<char> {
    "pipeline_v"@ + spec_decimal(CACHE_VERSION as nat) + "_"@ + spec_hex_fixed(key as nat, 16) + ".bin"@
}

/// The view of an optional string.
pub open spec fn opt_seq(v: &Option<String>) -> Option<Seq<char>> {
    match v {
        Some(s) => Some(s@),
        None => None,
    }
}

/// Cache directory from `XDG_CACHE_HOME` and `HOME` (absent when unset or
/// not Unicode): `$XDG_CACHE_HOME`, else `$HOME/.cache`, else `.`, followed
/// by `nexora/pipeline-cache`.
pub open spec fn spec_default_cache_dir(xdg: Option<Seq<char>>, home: Option<Seq<char>>) -> Seq<char> {
    let base = match xdg {
        Some(d) => d,
        None => match home {
            Some(h) => spec_join(h, ".cache"@),
            None => "."@,
        },
    };
    spec_join(spec_join(base, "nexora"@), "pipeline-cache"@)
}

/// `16` to the power `w`.
pub open spec fn pow16(w: nat) -> nat
    decreases w,
{
    if w == 0 {
        1
    } else {
        16 * pow16((w - 1) as nat)
    }
}

proof fn lemma_hex_fixed_len(n: nat, w: nat)
    ensures
        spec_hex_fixed(n, w).len() == w,
    decreases w,
{
    if w > 0 {
        lemma_hex_fixed_len(n / 16, (w - 1) as nat);
    }
}

proof fn lemma_hex_char_injective(a: int, b: int)
    requires
        0 <= a < 16,
        0 <= b < 16,
        hex_char(a) == hex_char(b),
    ensures
        a == b,
{
}

proof fn lemma_hex_fixed_injective(a: nat, b: nat, w: nat)
    requires
        a < pow16(w),
        b < pow16(w),
        spec_hex_fixed(a, w) == spec_hex_fixed(b, w),
    ensures
        a == b,
    decreases w,
{
    if w > 0 {
        let p = pow16((w - 1) as nat);
        let sa = spec_hex_fixed(a, w);
        let sb = spec_hex_fixed(b, w);
        lemma_hex_fixed_len(a / 16, (w - 1) as nat);
        lemma_hex_fixed_len(b / 16, (w - 1) as nat);
        assert(sa.last() == hex_char((a % 16) as int));
        assert(sb.last() == hex_char((b % 16) as int));
        lemma_hex_char_injective((a % 16) as int, (b % 16) as int);
        assert(sa.drop_last() =~= spec_hex_fixed(a / 16, (w - 1) as nat));
        assert(sb.drop_last() =~= spec_hex_fixed(b / 16, (w - 1) as nat));
        assert(a / 16 < p) by (nonlinear_arith)
            requires
                a < 16 * p,
        ;
        assert(b / 16 < p) by (nonlinear_arith)
            requires
                b < 16 * p,
        ;
        lemma_hex_fixed_injective(a / 16, b / 16, (w - 1) as nat);
        assert(a == 16 * (a / 16) + a % 16) by (nonlinear_arith);
        assert(b == 16 * (b / 16) + b % 16) by (nonlinear_arith);
    }
}

/// Distinct keys are stored in distinct files: the file name determines the
/// key.
pub proof fn lemma_cache_file_name_injective(a: u64, b: u64)
    requires
        spec_cache_file_name(a) == spec_cache_file_name(b),
    ensures
        a == b,
{
    let pre = "pipeline_v"@ + spec_decimal(CACHE_VERSION as nat) + "_"@;
    let ha = spec_hex_fixed(a as nat, 16);
    let hb = spec_hex_fixed(b as nat, 16);
    lemma_hex_fixed_len(a as nat, 16);
    lemma_hex_fixed_len(b as nat, 16);
    let na = pre + ha + ".bin"@;
    let nb = pre + hb + ".bin"@;
    assert(na == spec_cache_file_name(a));
    assert(nb == spec_cache_file_name(b));
    assert(na.subrange(pre.len() as int, pre.len() as int + 16) =~= ha);
    assert(nb.subrange(pre.len() as int, pre.len() as int + 16) =~= hb);
    assert(pow16(16) == 0x1_0000_0000_0000_0000) by {
        reveal_with_fuel(pow16, 17);
    }
    lemma_hex_fixed_injective(a as nat, b as nat, 16);
}

/// Appends `name` to the path `dir` as a component.
pub fn join_path(dir: &str, name: &str) -> (r: String)
    ensures
        r@ == spec_join(dir@, name@),
{
    let n = dir.unicode_len();
    let mut out = dir.to_owned();
    if n == 0 {
        let r = name.to_owned();
        return r;
    }
    let last = dir.get_char(n - 1);
    if last != '/' {
        out.append("/");
    }
    out.append(name);
    proof {
        assert(dir@.last() == last);
    }
    out
}

/// The file name of the entry for `key`.
pub fn cache_file_name(key: u64) -> (r: String)
    ensures
        r@ == spec_cache_file_name(key),
{
    let mut s = String::from_str("pipeline_v");
    push_decimal(&mut s, CACHE_VERSION);
    s.append("_");
    push_hex_fixed(&mut s, key, 16);
    s.append(".bin");
    s
}

/// The cache directory for the given values of `XDG_CACHE_HOME` and `HOME`.
pub fn default_cache_dir(xdg: &Option<String>, home: &Option<String>) -> (r: String)
    ensures
        r@ == spec_default_cache_dir(opt_seq(xdg), opt_seq(home)),
{
    let base = match xdg {
        Some(d) => d.clone(),
        None => match home {
            Some(h) => join_path(h.as_str(), ".cache"),
            None => String::from_str("."),
        },
    };
    let with_app = join_path(base.as_str(), "nexora");
    join_path(with_app.as_str(), "pipeline-cache")
}

/// What to do after attempt `attempt` (counting from 1) of a file operation
/// failed.
#[derive(Debug, Clone, Copy, PartialEq, Eq, Structural)]
pub enum RetryDecision {
    /// Wait the given milliseconds, then try again.
    RetryAfter(u64),
    /// Give up and report the last error.
    GiveUp,
}

/// After failed attempt `attempt`: retry after the delay while attempts
/// remain, else give up.
pub fn after_failed_attempt(attempt: u32) -> (r: RetryDecision)
    ensures
        attempt < MAX_RETRIES ==> r == RetryDecision::RetryAfter(RETRY_DELAY_MS),
        attempt >= MAX_RETRIES ==> r == RetryDecision::GiveUp,
{
    if attempt < MAX_RETRIES {
        RetryDecision::RetryAfter(RETRY_DELAY_MS)
    } else {
        RetryDecision::GiveUp
    }
}

/// A read entry counts only when it is not empty.
pub fn accept_loaded(data: Vec<u8>) -> (r: Option<Vec<u8>>)
    ensures
        data@.len() == 0 ==> r is None,
        data@.len() > 0 ==> (r matches Some(d) && d@ == data@),
{
    if data.len() == 0 {
        None
    } else {
        Some(data)
    }
}

/// Disk-backed store of compiled pipeline data, one file per key.
#[derive(Debug)]
pub struct PipelineDiskCache {
    cache_dir: String,
}

impl PipelineDiskCache {
    /// The directory of the cache.
    pub closed spec fn spec_dir(&self) -> Seq<char> {
        self.cache_dir@
    }

    /// A cache in the directory `cache_dir`.
    pub fn with_dir(cache_dir: String) -> (r: Self)
        ensures
            r.spec_dir() == cache_dir@,
    {
        PipelineDiskCache { cache_dir }
    }

    /// A cache in the default directory for the given values of
    /// `XDG_CACHE_HOME` and `HOME`.
    pub fn new(xdg: &Option<String>, home: &Option<String>) -> (r: Self)
        ensures
            r.spec_dir() == spec_default_cache_dir(opt_seq(xdg), opt_seq(home)),
    {
        PipelineDiskCache { cache_dir: default_cache_dir(xdg, home) }
    }

    /// The directory of the cache.
    pub fn cache_dir(&self) -> (r: &str)
        ensures
            r@ == self.spec_dir(),
    {
        self.cache_dir.as_str()
    }

    /// Path of the entry for `key`.
    pub fn cache_path(&self, key: u64) -> (r: String)
        ensures
            r@ == spec_join(self.spec_dir(), spec_cache_file_name(key)),
    {
        let name = cache_file_name(key);
        join_path(self.cache_dir.as_str(), name.as_str())
    }

    /// Path an entry for `key` is first written to, then renamed from: the
    /// entry's path with its `.bin` extension replaced by `.bin.tmp`.
    pub fn temp_path(&self, key: u64) -> (r: String)
        ensures
            r@ == spec_join(self.spec_dir(), spec_cache_file_name(key)) + ".tmp"@,
    {
        let mut p = self.cache_path(key);
        p.append(".tmp");
        p
    }

    /// Whether `data` is written at all: empty data is not.
    pub fn should_save(&self, data: &[u8]) -> (r: bool)
        ensures
            r == (data@.len() > 0),
    {
        data.len() > 0
    }
}

} // verus!
