//! The options of the workspace helper commands.

use vstd::prelude::*;
use vstd::string::*;
use crate::scope::{bench_file_of, crate_of, Scope, ScopeValue};

verus! {

/// Options shared by the commands that run benchmarks.
#[derive(Debug, Clone)]
pub struct BenchOpts {
    /// Whether to run benchmarks quickly, with shorter warm-up and measurement.
    pub quick: bool,
    /// Extra arguments handed to the benchmark harness.
    pub bench_extra_args: Vec<String>,
}

/// Options of the command that runs benchmarks.
#[derive(Debug, Clone)]
pub struct RunOpts {
    /// The scope to run.
    pub scope: ScopeValue,
    pub bench_args: BenchOpts,
}

/// Options of the command that collects a host's results.
#[derive(Debug, Clone)]
pub struct CollectOpts {
    /// Whether to run the benchmarks before collecting.
    pub run_bench: bool,
    pub bench_args: BenchOpts,
}

/// A command of the workspace helper.
#[derive(Debug)]
pub enum Command {
    /// Run benchmarks.
    Run(RunOpts),
    /// Collect the charts of this host and write its results page.
    Collect(CollectOpts),
    /// Gather the results of all hosts into one page per scope.
    Aggregate,
}

/// The characters of each string.
pub open spec fn strings_view(v: Seq<String>) -> Seq<Seq<char>> {
    v.map_values(|s: String| s@)
}

/// The arguments of the `cargo` call that runs the benchmarks of `scope`.
pub open spec fn bench_args_of(scope: Scope, quick: bool, extra: Seq<Seq<char>>) -> Seq<Seq<char>> {
    seq![
        "bench"@,
        "-p"@,
        crate_of(scope),
        "--bench"@,
        bench_file_of(scope),
        "--"@,
        "--plotting-backend"@,
        "plotters"@,
    ] + (if quick {
        seq!["--warm-up-time"@, "1"@, "--measurement-time"@, "1"@]
    } else {
        Seq::empty()
    }) + extra
}

/// Appends a copy of `t` to `v`.
fn push_str(v: &mut Vec<String>, t: &str)
    ensures
        strings_view(final(v)@) == strings_view(old(v)@).push(t@),
{
    let ghost before = v@;
    v.push(String::from_str(t));
    assert(strings_view(v@) =~= strings_view(before).push(t@));
}

/// The arguments of the `cargo` call that runs the benchmarks of `scope`:
/// the crate and target, the plotting backend, shorter timings in quick mode,
/// then the extra arguments as given.
pub fn bench_command_args(scope: Scope, bench_args: &BenchOpts) -> (r: Vec<String>)
    ensures
        strings_view(r@) == bench_args_of(
            scope,
            bench_args.quick,
            strings_view(bench_args.bench_extra_args@),
        ),
{
    let mut r: Vec<String> = Vec::new();
    push_str(&mut r, "bench");
    push_str(&mut r, "-p");
    push_str(&mut r, scope.bench_crate());
    push_str(&mut r, "--bench");
    push_str(&mut r, scope.bench_file());
    push_str(&mut r, "--");
    push_str(&mut r, "--plotting-backend");
    push_str(&mut r, "plotters");
    if bench_args.quick {
        push_str(&mut r, "--warm-up-time");
        push_str(&mut r, "1");
        push_str(&mut r, "--measurement-time");
        push_str(&mut r, "1");
    }
    let ghost head = strings_view(r@);
    let extra = &bench_args.bench_extra_args;
    let mut i: usize = 0;
    while i < extra.len()
        invariant
            i <= extra@.len(),
            strings_view(r@) == head + strings_view(extra@).subrange(0, i as int),
        decreases extra@.len() - i,
    {
        push_str(&mut r, extra[i].as_str());
        assert(strings_view(extra@).subrange(0, i + 1) =~= strings_view(extra@).subrange(
            0,
            i as int,
        ).push(extra@[i as int]@));
        i = i + 1;
    }
    assert(strings_view(extra@).subrange(0, extra@.len() as int) =~= strings_view(extra@));
    assert(head + strings_view(extra@) =~= bench_args_of(
        scope,
        bench_args.quick,
        strings_view(bench_args.bench_extra_args@),
    ));
    r
}

} // verus!
