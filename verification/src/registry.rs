//! Registry bookkeeping: operation counters and what push, pull, diff and
//! search report for a request.

use vstd::prelude::*;
use vstd::string::*;
use vstd::utf8::encode_utf8;

use crate::hash::{fnv1a, fnv1a_spec, FNV_PRIME};
use crate::metrics::{
    compressed_size_spec, estimate_compressed_size, similarity_half_percent,
    similarity_half_percent_spec,
};
use crate::text::{
    colon_join2, colon_join3, colon_joined, decimal, first_word, first_word_spec, fixed_digits,
    hex16, lemma_fixed_digits_len, push_char, push_decimal, push_fixed_digits,
};

verus! {

/// Operation counters of a running registry.
pub struct Stats {
    pub total_pushes: u64,
    pub total_pulls: u64,
    pub total_diffs: u64,
    pub models_stored: u64,
}

/// An operation that the counters book.
pub enum StatsOp {
    Push,
    Pull,
    Search,
    Diff,
}

/// The counters of a registry that has served nothing yet.
pub open spec fn initial_stats() -> Stats {
    Stats { total_pushes: 0, total_pulls: 0, total_diffs: 0, models_stored: 0 }
}

/// The counters after booking `op`: a push adds a push and a stored model,
/// a pull or a search adds a pull, a diff adds a diff.
pub open spec fn stats_after(s: Stats, op: StatsOp) -> Stats {
    match op {
        StatsOp::Push => Stats {
            total_pushes: (s.total_pushes + 1) as u64,
            models_stored: (s.models_stored + 1) as u64,
            ..s
        },
        StatsOp::Pull => Stats { total_pulls: (s.total_pulls + 1) as u64, ..s },
        StatsOp::Search => Stats { total_pulls: (s.total_pulls + 1) as u64, ..s },
        StatsOp::Diff => Stats { total_diffs: (s.total_diffs + 1) as u64, ..s },
    }
}

/// The counters after booking `ops` in order, starting from none.
pub open spec fn stats_after_all(ops: Seq<StatsOp>) -> Stats
    decreases ops.len(),
{
    if ops.len() == 0 {
        initial_stats()
    } else {
        stats_after(stats_after_all(ops.drop_last()), ops.last())
    }
}

/// How many operations of `ops` are pushes, pulls, searches and diffs.
pub open spec fn op_counts(ops: Seq<StatsOp>) -> (int, int, int, int)
    decreases ops.len(),
{
    if ops.len() == 0 {
        (0, 0, 0, 0)
    } else {
        let (p, l, q, d) = op_counts(ops.drop_last());
        match ops.last() {
            StatsOp::Push => (p + 1, l, q, d),
            StatsOp::Pull => (p, l + 1, q, d),
            StatsOp::Search => (p, l, q + 1, d),
            StatsOp::Diff => (p, l, q, d + 1),
        }
    }
}

/// Starting from `Stats::new()`, any sequence of pushes, pulls, searches and
/// diffs (short enough for the counters not to overflow) leaves the counters
/// at: pushes = stored models = number of pushes, pulls = number of pulls plus
/// searches, diffs = number of diffs, and the operation total at their sum.
pub proof fn lemma_stats_count_operations(ops: Seq<StatsOp>)
    requires
        ops.len() < u64::MAX,
    ensures
        ({
            let s = stats_after_all(ops);
            let (p, l, q, d) = op_counts(ops);
            &&& s.total_pushes == p
            &&& s.models_stored == p
            &&& s.models_stored == s.total_pushes
            &&& s.total_pulls == l + q
            &&& s.total_diffs == d
            &&& s.total_ops_spec() == p + l + q + d
        }),
    decreases ops.len(),
{
    let (p, l, q, d) = op_counts(ops);
    assert(p >= 0 && l >= 0 && q >= 0 && d >= 0 && p + l + q + d == ops.len()) by {
        lemma_op_counts_total(ops);
    }
    if ops.len() > 0 {
        lemma_stats_count_operations(ops.drop_last());
        lemma_op_counts_total(ops.drop_last());
    }
}

proof fn lemma_op_counts_total(ops: Seq<StatsOp>)
    ensures
        ({
            let (p, l, q, d) = op_counts(ops);
            p >= 0 && l >= 0 && q >= 0 && d >= 0 && p + l + q + d == ops.len()
        }),
    decreases ops.len(),
{
    if ops.len() > 0 {
        lemma_op_counts_total(ops.drop_last());
    }
}

impl Stats {
    /// Number of operations counted in the health report: pushes, pulls and diffs.
    pub open spec fn total_ops_spec(&self) -> int {
        self.total_pushes + self.total_pulls + self.total_diffs
    }

    /// Counters of a registry that has served nothing yet.
    pub fn new() -> (s: Self)
        ensures
            s == initial_stats(),
            s.total_pushes == 0,
            s.total_pulls == 0,
            s.total_diffs == 0,
            s.models_stored == 0,
    {
        Stats { total_pushes: 0, total_pulls: 0, total_diffs: 0, models_stored: 0 }
    }

    /// Counts a push: one more push and one more stored model.
    pub fn record_push(&mut self)
        requires
            old(self).total_pushes < u64::MAX,
            old(self).models_stored < u64::MAX,
        ensures
            *final(self) == stats_after(*old(self), StatsOp::Push),
            final(self).total_pushes == old(self).total_pushes + 1,
            final(self).models_stored == old(self).models_stored + 1,
            final(self).total_pulls == old(self).total_pulls,
            final(self).total_diffs == old(self).total_diffs,
            final(self).total_ops_spec() == old(self).total_ops_spec() + 1,
    {
        self.total_pushes = self.total_pushes + 1;
        self.models_stored = self.models_stored + 1;
    }

    /// Counts a pull.
    pub fn record_pull(&mut self)
        requires
            old(self).total_pulls < u64::MAX,
        ensures
            *final(self) == stats_after(*old(self), StatsOp::Pull),
            final(self).total_pulls == old(self).total_pulls + 1,
            final(self).total_pushes == old(self).total_pushes,
            final(self).total_diffs == old(self).total_diffs,
            final(self).models_stored == old(self).models_stored,
            final(self).total_ops_spec() == old(self).total_ops_spec() + 1,
    {
        self.total_pulls = self.total_pulls + 1;
    }

    /// Counts a search, which the registry books as a pull.
    pub fn record_search(&mut self)
        requires
            old(self).total_pulls < u64::MAX,
        ensures
            *final(self) == stats_after(*old(self), StatsOp::Search),
            final(self).total_pulls == old(self).total_pulls + 1,
            final(self).total_pushes == old(self).total_pushes,
            final(self).total_diffs == old(self).total_diffs,
            final(self).models_stored == old(self).models_stored,
            final(self).total_ops_spec() == old(self).total_ops_spec() + 1,
    {
        self.record_pull();
    }

    /// Counts a diff.
    pub fn record_diff(&mut self)
        requires
            old(self).total_diffs < u64::MAX,
        ensures
            *final(self) == stats_after(*old(self), StatsOp::Diff),
            final(self).total_diffs == old(self).total_diffs + 1,
            final(self).total_pushes == old(self).total_pushes,
            final(self).total_pulls == old(self).total_pulls,
            final(self).models_stored == old(self).models_stored,
            final(self).total_ops_spec() == old(self).total_ops_spec() + 1,
    {
        self.total_diffs = self.total_diffs + 1;
    }

    /// Pushes, pulls and diffs counted so far.
    pub fn total_ops(&self) -> (n: u64)
        requires
            self.total_ops_spec() <= u64::MAX,
        ensures
            n == self.total_ops_spec(),
    {
        self.total_pushes + self.total_pulls + self.total_diffs
    }
}

/// `value` when given, else `default`.
pub open spec fn text_or(value: Option<Seq<char>>, default: Seq<char>) -> Seq<char> {
    match value {
        Some(v) => v,
        None => default,
    }
}

/// The tag of a request, `latest` when none is given.
pub open spec fn resolved_tag(tag: Option<Seq<char>>) -> Seq<char> {
    text_or(tag, "latest"@)
}

/// The format of an artifact, `sdf-binary` when none is given.
pub open spec fn resolved_format(format: Option<Seq<char>>) -> Seq<char> {
    text_or(format, "sdf-binary"@)
}

/// The content hash of a repository and tag: FNV-1a of `repo:tag`.
pub open spec fn tag_hash(repo: Seq<char>, tag: Seq<char>) -> u64 {
    fnv1a_spec(colon_joined(seq![repo, tag]))
}

/// The version derived from a content hash: `v1.<h mod 100>.<(h >> 8) mod 100>`.
pub open spec fn version_text(h: u64) -> Seq<char> {
    seq!['v', '1', '.'] + decimal((h % 100) as nat) + seq!['.'] + decimal(((h >> 8u64) % 100) as nat)
}

/// The digest reported for a push: the hash and the hash times the FNV prime
/// (mod 2^64), each as 16 hexadecimal digits.
pub open spec fn digest_text(h: u64) -> Seq<char> {
    hex16(h) + hex16(vstd::wrapping::u64_specs::wrapping_mul(h, FNV_PRIME))
}

/// The version a push of `repo` at `tag` reports.
pub open spec fn push_version(repo: Seq<char>, tag: Option<Seq<char>>) -> Seq<char> {
    version_text(tag_hash(repo, resolved_tag(tag)))
}

/// The version a pull of `repo` at `tag` reports: the one asked for, else the
/// version derived from the content hash.
pub open spec fn pull_version(
    repo: Seq<char>,
    tag: Option<Seq<char>>,
    version: Option<Seq<char>>,
) -> Seq<char> {
    text_or(version, version_text(tag_hash(repo, resolved_tag(tag))))
}

/// Size assumed for a push that names none: 1 MiB.
pub const DEFAULT_PUSH_SIZE: u64 = 1_048_576;

/// What a push reports.
pub struct PushSummary {
    pub tag: String,
    pub version: String,
    pub format: String,
    pub size_bytes: u64,
    pub compressed_bytes: u64,
    pub sha256: String,
}

/// What a pull reports.
pub struct PullSummary {
    pub tag: String,
    pub version: String,
    pub format: String,
    pub size_bytes: u64,
    pub download_url: String,
}

/// What a diff between two versions reports.
pub struct DiffSummary {
    pub added_nodes: u32,
    pub removed_nodes: u32,
    pub modified_nodes: u32,
    pub diff_size_bytes: u64,
    /// Similarity in half-percent units (200 is 100%).
    pub similarity_half_percent: u32,
}

fn string_or(value: Option<String>, default: &str) -> (s: String)
    ensures
        s@ == text_or(value.deep_view(), default@),
{
    match value {
        Some(v) => v,
        None => String::from_str(default),
    }
}

fn version_string(h: u64) -> (s: String)
    ensures
        s@ == version_text(h),
{
    let mut s = String::new();
    push_char(&mut s, 'v');
    push_char(&mut s, '1');
    push_char(&mut s, '.');
    push_decimal(&mut s, h % 100);
    push_char(&mut s, '.');
    push_decimal(&mut s, (h >> 8u64) % 100);
    proof {
        assert(s@ =~= version_text(h));
    }
    s
}

fn digest_string(h: u64) -> (s: String)
    ensures
        s@ == digest_text(h),
{
    let mut s = String::new();
    push_fixed_digits(&mut s, h, 16, 16);
    push_fixed_digits(&mut s, h.wrapping_mul(FNV_PRIME), 16, 16);
    proof {
        assert(s@ =~= digest_text(h));
    }
    s
}

/// Computes what a push of `repo` reports: the tag (default `latest`), the
/// format (default `sdf-binary`), the size (default 1 MiB) and its compressed
/// estimate, and the version and digest derived from the hash of `repo:tag`.
pub fn summarize_push(
    repo: &str,
    tag: Option<String>,
    format: Option<String>,
    size_bytes: Option<u64>,
) -> (out: PushSummary)
    ensures
        out.tag@ == resolved_tag(tag.deep_view()),
        out.format@ == resolved_format(format.deep_view()),
        out.size_bytes == match size_bytes {
            Some(n) => n,
            None => DEFAULT_PUSH_SIZE,
        },
        out.compressed_bytes == compressed_size_spec(out.size_bytes as int),
        out.version@ == push_version(repo@, tag.deep_view()),
        out.version@ == seq!['v', '1', '.'] + decimal((tag_hash(repo@, out.tag@) % 100) as nat)
            + seq!['.'] + decimal((tag_hash(repo@, out.tag@) / 256 % 100) as nat),
        out.sha256@ == digest_text(tag_hash(repo@, out.tag@)),
        out.sha256@ == hex16(tag_hash(repo@, out.tag@)) + hex16(
            ((tag_hash(repo@, out.tag@) as nat * 0x0100_0000_01b3) % 0x1_0000_0000_0000_0000) as u64,
        ),
{
    let tag = string_or(tag, "latest");
    let format = string_or(format, "sdf-binary");
    let size = match size_bytes {
        Some(n) => n,
        None => DEFAULT_PUSH_SIZE,
    };
    let key = colon_join2(repo, tag.as_str());
    let h = fnv1a(key.as_slice());
    let compressed = estimate_compressed_size(size);
    let version = version_string(h);
    proof {
        lemma_version_text_numbers(h);
        lemma_digest_halves(h);
    }
    let sha256 = digest_string(h);
    PushSummary { tag, version, format, size_bytes: size, compressed_bytes: compressed, sha256 }
}

/// The download location of a repository.
pub open spec fn download_url_text(repo: Seq<char>) -> Seq<char> {
    "https://cdn.alice-registry.io/"@ + repo + "/download"@
}

/// Computes what a pull of `repo` reports: the tag (default `latest`), the
/// version asked for or else the one derived from the hash of `repo:tag`, a
/// size derived from that hash, and the download location.
pub fn summarize_pull(repo: &str, tag: Option<String>, version: Option<String>) -> (out:
    PullSummary)
    ensures
        out.tag@ == resolved_tag(tag.deep_view()),
        out.version@ == pull_version(repo@, tag.deep_view(), version.deep_view()),
        match version {
            Some(v) => out.version@ == v@,
            None => out.version@ == version_text(tag_hash(repo@, out.tag@)),
        },
        out.format@ == "sdf-binary"@,
        out.size_bytes == tag_hash(repo@, out.tag@) % 10_000_000 + 1024,
        out.download_url@ == download_url_text(repo@),
{
    let tag = string_or(tag, "latest");
    let key = colon_join2(repo, tag.as_str());
    let h = fnv1a(key.as_slice());
    let version = match version {
        Some(v) => v,
        None => version_string(h),
    };
    let size = h % 10_000_000 + 1024;
    let mut url = String::from_str("https://cdn.alice-registry.io/");
    url.append(repo);
    url.append("/download");
    PullSummary { tag, version, format: String::from_str("sdf-binary"), size_bytes: size, download_url: url }
}

/// The content hash of a diff request: FNV-1a of `repo:version_a:version_b`.
pub open spec fn diff_hash(repo: Seq<char>, version_a: Seq<char>, version_b: Seq<char>) -> u64 {
    fnv1a_spec(colon_joined(seq![repo, version_a, version_b]))
}

/// Computes what a diff between two versions of `repo` reports: node counts
/// taken from the hash of `repo:version_a:version_b` (added below 50,
/// removed below 30, modified below 40), 128 bytes per changed node, and the
/// similarity of that many changes.
pub fn summarize_diff(repo: &str, version_a: &str, version_b: &str) -> (out: DiffSummary)
    ensures
        ({
            let h = diff_hash(repo@, version_a@, version_b@);
            &&& out.added_nodes == h % 50
            &&& out.removed_nodes == (h >> 8u64) % 30
            &&& out.modified_nodes == (h >> 16u64) % 40
        }),
        out.diff_size_bytes == (out.added_nodes + out.removed_nodes + out.modified_nodes) * 128,
        out.similarity_half_percent == similarity_half_percent_spec(
            out.added_nodes + out.removed_nodes + out.modified_nodes,
        ),
{
    let key = colon_join3(repo, version_a, version_b);
    let h = fnv1a(key.as_slice());
    let added = (h % 50) as u32;
    let removed = ((h >> 8u64) % 30) as u32;
    let modified = ((h >> 16u64) % 40) as u32;
    let total = added + removed + modified;
    let similarity = similarity_half_percent(added, removed, modified);
    DiffSummary {
        added_nodes: added,
        removed_nodes: removed,
        modified_nodes: modified,
        diff_size_bytes: total as u64 * 128,
        similarity_half_percent: similarity,
    }
}

/// Number of results a search returns at most.
pub const MAX_LISTED_RESULTS: u32 = 20;

/// Number of results a search asks for when it names none.
pub const DEFAULT_MAX_RESULTS: u32 = 10;

/// One search hit.
pub struct SearchEntry {
    pub repo: String,
    pub tag: String,
    pub description: String,
    pub format: String,
    pub downloads: u64,
}

/// What a search reports: the number of hits, and the first (at most 20) of them.
pub struct SearchSummary {
    pub total_results: u32,
    pub results: Vec<SearchEntry>,
}

/// The hash of a search query: FNV-1a of its UTF-8 bytes.
pub open spec fn query_hash(query: Seq<char>) -> u64 {
    fnv1a_spec(encode_utf8(query))
}

/// The number of hits a search reports: the query hash modulo the maximum,
/// but at least one.
pub open spec fn hit_count(query: Seq<char>, max_results: u32) -> int {
    let c = query_hash(query) % (max_results as u64);
    if c < 1 {
        1
    } else {
        c as int
    }
}

/// The word that names the hits of a query: its first white-space separated
/// word, or `sdf` when it has none.
pub open spec fn query_stem(query: Seq<char>) -> Seq<char> {
    match first_word_spec(query) {
        Some(w) => w,
        None => "sdf"@,
    }
}

/// Hit number `rank` of a search for `query`: `alice/<stem>-model-<nnnn>`
/// where `nnnn` is the rank's hash modulo 9999 in four digits, tag `latest`,
/// a description naming the query, the format asked for, and a download
/// count taken from the rank's hash.
pub open spec fn search_entry_matches(
    e: SearchEntry,
    query: Seq<char>,
    format: Seq<char>,
    rank: int,
) -> bool {
    let rh = vstd::wrapping::u64_specs::wrapping_add(query_hash(query), rank as u64);
    &&& e.repo@ == "alice/"@ + query_stem(query) + "-model-"@ + fixed_digits(
        (rh % 9999) as nat,
        10,
        4,
    )
    &&& e.tag@ == "latest"@
    &&& e.description@ == "SDF model for "@ + query
    &&& e.format@ == format
    &&& e.downloads == rh % 50_000
}

fn search_entry(query: &str, stem: &str, format: &String, h: u64, rank: u32) -> (e: SearchEntry)
    ensures
        e.repo@ == "alice/"@ + stem@ + "-model-"@ + fixed_digits(
            (vstd::wrapping::u64_specs::wrapping_add(h, rank as u64) % 9999) as nat,
            10,
            4,
        ),
        e.tag@ == "latest"@,
        e.description@ == "SDF model for "@ + query@,
        e.format@ == format@,
        e.downloads == vstd::wrapping::u64_specs::wrapping_add(h, rank as u64) % 50_000,
{
    let rh = h.wrapping_add(rank as u64);
    let mut repo = String::from_str("alice/");
    repo.append(stem);
    repo.append("-model-");
    push_fixed_digits(&mut repo, rh % 9999, 10, 4);
    let mut description = String::from_str("SDF model for ");
    description.append(query);
    SearchEntry {
        repo,
        tag: String::from_str("latest"),
        description,
        format: format.clone(),
        downloads: rh % 50_000,
    }
}

/// Computes what a search for `query` reports: a hit count taken from the
/// query hash (at least one, below the maximum asked for, 10 by default) and
/// the first (at most 20) hits. A maximum of zero is refused.
pub fn summarize_search(query: &str, format: Option<String>, max_results: Option<u32>) -> (out:
    SearchSummary)
    requires
        max_results != Some(0u32),
    ensures
        ({
            let max = match max_results {
                Some(m) => m,
                None => DEFAULT_MAX_RESULTS,
            };
            let fmt = resolved_format(format.deep_view());
            &&& out.total_results == hit_count(query@, max)
            &&& out.total_results == if fnv1a_spec(encode_utf8(query@)) % (max as u64) == 0 {
                1
            } else {
                fnv1a_spec(encode_utf8(query@)) % (max as u64)
            }
            &&& 1 <= out.total_results <= max
            &&& out.results@.len() == if out.total_results < MAX_LISTED_RESULTS {
                out.total_results
            } else {
                MAX_LISTED_RESULTS
            }
            &&& forall|i: int|
                0 <= i < out.results@.len() ==> search_entry_matches(
                    #[trigger] out.results@[i],
                    query@,
                    fmt,
                    i,
                )
            &&& forall|i: int|
                0 <= i < out.results@.len() ==> {
                    let rh = ((fnv1a_spec(encode_utf8(query@)) as int + i) % 0x1_0000_0000_0000_0000);
                    &&& (#[trigger] out.results@[i]).downloads == rh % 50_000
                    &&& out.results@[i].repo@ == "alice/"@ + query_stem(query@) + "-model-"@
                        + fixed_digits((rh % 9999) as nat, 10, 4)
                    &&& out.results@[i].format@ == fmt
                    &&& out.results@[i].description@ == "SDF model for "@ + query@
                    &&& out.results@[i].tag@ == "latest"@
                }
        }),
{
    let max = match max_results {
        Some(m) => m,
        None => DEFAULT_MAX_RESULTS,
    };
    let ghost fmt = resolved_format(format.deep_view());
    let format = string_or(format, "sdf-binary");
    let h = fnv1a(query.as_bytes());
    let c = h % (max as u64);
    let count: u32 = if c < 1 {
        1
    } else {
        c as u32
    };
    let stem: &str = match first_word(query) {
        Some(w) => w,
        None => "sdf",
    };
    let listed = if count < MAX_LISTED_RESULTS {
        count
    } else {
        MAX_LISTED_RESULTS
    };
    let mut results: Vec<SearchEntry> = Vec::new();
    let mut i: u32 = 0;
    while i < listed
        invariant
            i <= listed,
            results@.len() == i,
            h == query_hash(query@),
            stem@ == query_stem(query@),
            format@ == fmt,
            forall|j: int|
                0 <= j < i ==> search_entry_matches(#[trigger] results@[j], query@, format@, j),
        decreases listed - i,
    {
        let e = search_entry(query, stem, &format, h, i);
        results.push(e);
        i += 1;
    }
    SearchSummary { total_results: count, results }
}

/// The version of a content hash `h` is `v1.` followed by `h mod 100` in
/// decimal, a dot, and `(h / 256) mod 100` in decimal; read back, the two
/// numbers are those remainders.
pub proof fn lemma_version_text_numbers(h: u64)
    ensures
        version_text(h) == seq!['v', '1', '.'] + decimal((h % 100) as nat) + seq!['.'] + decimal(
            (h / 256 % 100) as nat,
        ),
        crate::text::digits_value(decimal((h % 100) as nat), 10) == h % 100,
        crate::text::digits_value(decimal((h / 256 % 100) as nat), 10) == h / 256 % 100,
{
    assert(h >> 8u64 == h / 256) by (bit_vector);
    crate::text::lemma_decimal_value((h % 100) as nat);
    crate::text::lemma_decimal_value((h / 256 % 100) as nat);
}

/// The content hash of a repository and tag is FNV-1a of the UTF-8 bytes of
/// the repository, a `:` byte, and the UTF-8 bytes of the tag; that of a diff
/// joins the repository and both versions the same way.
pub proof fn lemma_request_keys(repo: Seq<char>, a: Seq<char>, b: Seq<char>)
    ensures
        tag_hash(repo, a) == fnv1a_spec(encode_utf8(repo) + seq![0x3Au8] + encode_utf8(a)),
        diff_hash(repo, a, b) == fnv1a_spec(
            encode_utf8(repo) + seq![0x3Au8] + encode_utf8(a) + seq![0x3Au8] + encode_utf8(b),
        ),
{
    let two = seq![repo, a];
    let three = seq![repo, a, b];
    assert(two.drop_last() =~= seq![repo]);
    assert(three.drop_last() =~= two);
    assert(colon_joined(seq![repo]) == encode_utf8(repo));
    assert(colon_joined(two) == encode_utf8(repo) + seq![0x3Au8] + encode_utf8(a));
}

/// A pull that names a version reports exactly that version, whether or not
/// it names a tag.
pub proof fn lemma_pull_reports_requested_version(
    repo: Seq<char>,
    tag: Option<Seq<char>>,
    version: Seq<char>,
)
    ensures
        pull_version(repo, tag, Some(version)) == version,
{
}

/// The digest of a content hash is the 16 hex digits of the hash followed by
/// the 16 hex digits of the hash times the FNV prime modulo 2^64.
pub proof fn lemma_digest_halves(h: u64)
    ensures
        digest_text(h) == hex16(h) + hex16(((h as nat * 0x0100_0000_01b3) % 0x1_0000_0000_0000_0000) as u64),
        digest_text(h).subrange(0, 16) == hex16(h),
        digest_text(h).subrange(16, 32) == hex16(((h as nat * 0x0100_0000_01b3) % 0x1_0000_0000_0000_0000) as u64),
{
    lemma_fixed_digits_len(h as nat, 16, 16);
    let g = ((h as nat * 0x0100_0000_01b3) % 0x1_0000_0000_0000_0000) as u64;
    lemma_fixed_digits_len(g as nat, 16, 16);
    assert(digest_text(h).subrange(0, 16) =~= hex16(h));
    assert(digest_text(h).subrange(16, 32) =~= hex16(g));
}

/// The number of hits is the query's FNV-1a hash modulo the maximum asked
/// for, or one when that remainder is zero.
pub proof fn lemma_hit_count_from_hash(query: Seq<char>, max_results: u32)
    requires
        max_results >= 1,
    ensures
        hit_count(query, max_results) == if fnv1a_spec(encode_utf8(query)) % (max_results as u64) == 0 {
            1
        } else {
            fnv1a_spec(encode_utf8(query)) % (max_results as u64)
        },
        1 <= hit_count(query, max_results) <= max_results,
{
}

/// A pull without an explicit version reports the very version that a push
/// of the same repository and tag reports.
pub proof fn lemma_pull_reports_pushed_version(repo: Seq<char>, tag: Option<Seq<char>>)
    ensures
        pull_version(repo, tag, None) == push_version(repo, tag),
{
}

} // verus!
