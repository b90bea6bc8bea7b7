//! The benchmark scopes, their crates, benchmark files and charts.

use vstd::prelude::*;
use crate::text::push_char;

verus! {

/// A chart that a benchmark run draws: where it is drawn and under which file
/// name it is kept with a host's results.
#[derive(Debug, Clone, Copy)]
pub struct ChartSpec {
    pub title: &'static str,
    pub src_path: &'static str,
    pub dest_path: &'static str,
}

/// The fields of a chart as character sequences.
pub struct ChartView {
    pub title: Seq<char>,
    pub src_path: Seq<char>,
    pub dest_path: Seq<char>,
}

impl View for ChartSpec {
    type V = ChartView;

    open spec fn view(&self) -> ChartView {
        ChartView { title: self.title@, src_path: self.src_path@, dest_path: self.dest_path@ }
    }
}

/// A group of benchmarks that run together and share a results page.
#[derive(Debug, Clone, Copy, PartialEq, Eq, Structural, PartialOrd, Ord)]
pub enum Scope {
    Hash,
    Prng,
}

/// The scopes that a run may be asked for.
#[derive(Debug, Clone, Copy, PartialEq, Eq, Structural)]
pub enum ScopeValue {
    Hash,
    Prng,
    All,
}

/// Every scope, in the order in which runs and reports visit them.
pub open spec fn all_scopes() -> Seq<Scope> {
    seq![Scope::Hash, Scope::Prng]
}

/// The scopes that `v` stands for.
pub open spec fn scopes_of(v: ScopeValue) -> Seq<Scope> {
    match v {
        ScopeValue::All => all_scopes(),
        ScopeValue::Hash => seq![Scope::Hash],
        ScopeValue::Prng => seq![Scope::Prng],
    }
}

/// Short lowercase name of a scope.
pub open spec fn slug_of(s: Scope) -> Seq<char> {
    match s {
        Scope::Hash => "hash"@,
        Scope::Prng => "prng"@,
    }
}

/// The crate that holds a scope's benchmarks.
pub open spec fn crate_of(s: Scope) -> Seq<char> {
    match s {
        Scope::Hash => "bench_hash"@,
        Scope::Prng => "bench_prng"@,
    }
}

/// The benchmark target of a scope's crate.
pub open spec fn bench_file_of(s: Scope) -> Seq<char> {
    match s {
        Scope::Hash => "hash_comparison"@,
        Scope::Prng => "rng_comparison"@,
    }
}

/// The charts of a scope, in report order.
pub open spec fn charts_of(s: Scope) -> Seq<ChartView> {
    match s {
        Scope::Hash => seq![
            ChartView {
                title: "Non-Cryptographic Hash Throughput"@,
                src_path: "target/criterion/non_cryptographic_hash/report/lines_throughput.svg"@,
                dest_path: "non_cryptographic_hash_lines_throughput.svg"@,
            },
            ChartView {
                title: "Cryptographic Hash Throughput"@,
                src_path: "target/criterion/cryptographic_hash/report/lines_throughput.svg"@,
                dest_path: "cryptographic_hash_lines_throughput.svg"@,
            },
        ],
        Scope::Prng => seq![
            ChartView {
                title: "u64 Generation Throughput"@,
                src_path: "target/criterion/u64_generation/report/lines_throughput.svg"@,
                dest_path: "u64_generation_lines_throughput.svg"@,
            },
            ChartView {
                title: "Bytes Generation Throughput"@,
                src_path: "target/criterion/bytes_generation/report/lines_throughput.svg"@,
                dest_path: "bytes_generation_lines_throughput.svg"@,
            },
        ],
    }
}

/// `part` appended to the path `base`, as a Unix path join does: an absolute
/// `part` replaces `base`, and a separator is put between them when `base` is
/// not empty and does not end in one.
pub open spec fn join_path(base: Seq<char>, part: Seq<char>) -> Seq<char> {
    if part.len() > 0 && part[0] == '/' {
        part
    } else if base.len() == 0 || base.last() == '/' {
        base + part
    } else {
        base.push('/') + part
    }
}

/// Joins `part` onto the path `base`.
pub fn join(base: &str, part: &str) -> (r: String)
    ensures
        r@ == join_path(base@, part@),
{
    let n = base.unicode_len();
    let m = part.unicode_len();
    if m > 0 && part.get_char(0) == '/' {
        return String::from_str(part);
    }
    let mut r = String::from_str(base);
    if n > 0 && base.get_char(n - 1) != '/' {
        push_char(&mut r, '/');
    }
    r.append(part);
    r
}

impl ScopeValue {
    /// The scopes that this value selects.
    pub fn to_scopes(self) -> (r: Vec<Scope>)
        ensures
            r@ == scopes_of(self),
    {
        match self {
            ScopeValue::All => Scope::all(),
            ScopeValue::Hash => vec![Scope::Hash],
            ScopeValue::Prng => vec![Scope::Prng],
        }
    }
}

impl Scope {
    /// Every scope, in report order.
    pub fn all() -> (r: Vec<Scope>)
        ensures
            r@ == all_scopes(),
    {
        vec![Scope::Hash, Scope::Prng]
    }

    /// Short lowercase name of the scope.
    pub fn slug(self) -> (r: &'static str)
        ensures
            r@ == slug_of(self),
    {
        match self {
            Scope::Hash => "hash",
            Scope::Prng => "prng",
        }
    }

    /// The crate that holds the scope's benchmarks.
    pub fn bench_crate(self) -> (r: &'static str)
        ensures
            r@ == crate_of(self),
    {
        match self {
            Scope::Hash => "bench_hash",
            Scope::Prng => "bench_prng",
        }
    }

    /// The benchmark target in the scope's crate.
    pub fn bench_file(self) -> (r: &'static str)
        ensures
            r@ == bench_file_of(self),
    {
        match self {
            Scope::Hash => "hash_comparison",
            Scope::Prng => "rng_comparison",
        }
    }

    /// The charts that a run of the scope draws.
    pub fn charts(self) -> (r: Vec<ChartSpec>)
        ensures
            r@.len() == charts_of(self).len(),
            forall|i: int| 0 <= i < r@.len() ==> #[trigger] r@[i]@ == charts_of(self)[i],
    {
        match self {
            Scope::Hash => vec![
                ChartSpec {
                    title: "Non-Cryptographic Hash Throughput",
                    src_path: "target/criterion/non_cryptographic_hash/report/lines_throughput.svg",
                    dest_path: "non_cryptographic_hash_lines_throughput.svg",
                },
                ChartSpec {
                    title: "Cryptographic Hash Throughput",
                    src_path: "target/criterion/cryptographic_hash/report/lines_throughput.svg",
                    dest_path: "cryptographic_hash_lines_throughput.svg",
                },
            ],
            Scope::Prng => vec![
                ChartSpec {
                    title: "u64 Generation Throughput",
                    src_path: "target/criterion/u64_generation/report/lines_throughput.svg",
                    dest_path: "u64_generation_lines_throughput.svg",
                },
                ChartSpec {
                    title: "Bytes Generation Throughput",
                    src_path: "target/criterion/bytes_generation/report/lines_throughput.svg",
                    dest_path: "bytes_generation_lines_throughput.svg",
                },
            ],
        }
    }

    /// Path of the results page of the scope's crate under `workspace_root`.
    pub fn crate_results_readme(self, workspace_root: &str) -> (r: String)
        ensures
            r@ == join_path(join_path(workspace_root@, crate_of(self)), "RESULTS.md"@),
    {
        let dir = join(workspace_root, self.bench_crate());
        join(dir.as_str(), "RESULTS.md")
    }
}

/// Heading of a scope in a host's results page.
pub open spec fn scope_title_of(s: Scope) -> Seq<char> {
    match s {
        Scope::Hash => "Hash"@,
        Scope::Prng => "PRNG"@,
    }
}

/// Heading of `scope` in a host's results page.
pub fn scope_title(scope: Scope) -> (r: &'static str)
    ensures
        r@ == scope_title_of(scope),
{
    match scope {
        Scope::Hash => "Hash",
        Scope::Prng => "PRNG",
    }
}

} // verus!
