//! The Markdown pages written from benchmark results: the page of one host and
//! the page of one scope across hosts.

use vstd::prelude::*;
use vstd::string::*;
use crate::cli::{strings_view, CollectOpts};
use crate::environment::{markdown_text, BenchmarkEnvironment};
use crate::scope::{
    all_scopes, charts_of, scope_title, scope_title_of, ChartSpec, ChartView, Scope,
};
use crate::text::{
    chars_of, has_prefix, lemma_next_line, line_end, lines, lines_at, push_all, starts_with,
    string_of, trim, trim_bounds,
};

verus! {

/// A host that has results: the name of its results directory and the title
/// shown for it.
#[derive(Debug, Clone)]
pub struct HostInfo {
    pub id: String,
    pub title: String,
}

/// Link from a crate's results page to a chart of a host.
pub open spec fn chart_path_of(host: Seq<char>, chart_file: Seq<char>) -> Seq<char> {
    "../results/"@ + host + "/charts/"@ + chart_file
}

/// Link from a crate's results page to the results page of a host.
pub open spec fn host_readme_path_of(host: Seq<char>) -> Seq<char> {
    "../results/"@ + host + "/README.md"@
}

/// Link from a crate's results page to the chart `chart_file` of `host`.
pub fn chart_markdown_path(host: &str, chart_file: &str) -> (r: String)
    ensures
        r@ == chart_path_of(host@, chart_file@),
{
    let mut out = String::from_str("../results/");
    push_all(&mut out, host);
    push_all(&mut out, "/charts/");
    push_all(&mut out, chart_file);
    out
}

/// Link from a crate's results page to the results page of `host`.
pub fn host_readme_markdown_path(host: &str) -> (r: String)
    ensures
        r@ == host_readme_path_of(host@),
{
    let mut out = String::from_str("../results/");
    push_all(&mut out, host);
    push_all(&mut out, "/README.md");
    out
}

/// The words `ws` separated by single spaces.
pub open spec fn join_words(ws: Seq<Seq<char>>) -> Seq<char>
    decreases ws.len(),
{
    if ws.len() == 0 {
        Seq::empty()
    } else if ws.len() == 1 {
        ws[0]
    } else {
        join_words(ws.drop_last()) + " "@ + ws.last()
    }
}

/// The part of a host's page that shows one chart.
pub open spec fn chart_section(c: ChartView) -> Seq<char> {
    "\n"@ + "#### "@ + c.title + "\n"@ + "\n"@ + "!["@ + c.title + "](charts/"@ + c.dest_path
        + ")\n"@
}

/// The parts of a host's page that show the charts `cs`.
pub open spec fn chart_sections(cs: Seq<ChartView>) -> Seq<char>
    decreases cs.len(),
{
    if cs.len() == 0 {
        Seq::empty()
    } else {
        chart_sections(cs.drop_last()) + chart_section(cs.last())
    }
}

/// The parts of a host's page that show the scopes `ss`.
pub open spec fn scope_sections(ss: Seq<Scope>) -> Seq<char>
    decreases ss.len(),
{
    if ss.len() == 0 {
        Seq::empty()
    } else {
        scope_sections(ss.drop_last()) + "\n"@ + "### "@ + scope_title_of(ss.last()) + "\n"@
            + chart_sections(charts_of(ss.last()))
    }
}

/// The results page of a host: when it was made, the host, how the results
/// were collected, and every chart of every scope.
pub open spec fn host_readme_text(
    running_at: Seq<char>,
    env: crate::environment::EnvView,
    run_bench: bool,
    quick: bool,
    extra: Seq<Seq<char>>,
) -> Seq<char> {
    "# Benchmark Results\n"@ + "\n"@ + "Running at "@ + running_at + ".\n"@ + "\n"@ + markdown_text(
        env,
    ) + "\n"@ + "## Collect Settings\n"@ + "\n"@ + "- Run benchmarks before collect: "@ + (if run_bench {
        "yes"@
    } else {
        "no"@
    }) + "\n"@ + "- Quick mode: "@ + (if quick {
        "enabled"@
    } else {
        "disabled"@
    }) + "\n"@ + (if extra.len() > 0 {
        "- Extra cargo bench args: `"@ + join_words(extra) + "`\n"@
    } else {
        Seq::empty()
    }) + "\n"@ + "## Results\n"@ + scope_sections(all_scopes())
}

/// Appends the extra arguments separated by single spaces.
fn push_words(out: &mut String, ws: &Vec<String>)
    ensures
        final(out)@ == old(out)@ + join_words(strings_view(ws@)),
{
    let ghost start = out@;
    let ghost w = strings_view(ws@);
    let mut i: usize = 0;
    while i < ws.len()
        invariant
            i <= ws@.len(),
            w == strings_view(ws@),
            out@ == start + join_words(w.subrange(0, i as int)),
        decreases ws@.len() - i,
    {
        let ghost before = out@;
        if i > 0 {
            push_all(out, " ");
        }
        push_all(out, ws[i].as_str());
        proof {
            let p = w.subrange(0, i + 1);
            assert(p.drop_last() =~= w.subrange(0, i as int));
            if i == 0 {
                assert(join_words(w.subrange(0, 0)) =~= Seq::<char>::empty());
                assert(out@ =~= start + join_words(p));
            } else {
                assert(out@ =~= start + join_words(p));
            }
        }
        i = i + 1;
    }
    assert(w.subrange(0, ws@.len() as int) =~= w);
}

/// Appends the part of a host's page that shows the charts `charts`.
fn push_chart_sections(out: &mut String, charts: &Vec<ChartSpec>)
    ensures
        final(out)@ == old(out)@ + chart_sections(charts@.map_values(|c: ChartSpec| c@)),
{
    let ghost start = out@;
    let ghost cs = charts@.map_values(|c: ChartSpec| c@);
    let mut i: usize = 0;
    assert(chart_sections(cs.subrange(0, 0)) =~= Seq::<char>::empty());
    assert(out@ =~= start + chart_sections(cs.subrange(0, 0)));
    while i < charts.len()
        invariant
            i <= charts@.len(),
            cs == charts@.map_values(|c: ChartSpec| c@),
            out@ == start + chart_sections(cs.subrange(0, i as int)),
        decreases charts@.len() - i,
    {
        let ghost before = out@;
        let c = charts[i];
        push_all(out, "\n");
        push_all(out, "#### ");
        push_all(out, c.title);
        push_all(out, "\n");
        push_all(out, "\n");
        push_all(out, "![");
        push_all(out, c.title);
        push_all(out, "](charts/");
        push_all(out, c.dest_path);
        push_all(out, ")\n");
        proof {
            let p = cs.subrange(0, i + 1);
            assert(p.drop_last() =~= cs.subrange(0, i as int));
            assert(p.last() == c@);
            assert(out@ =~= before + chart_section(c@));
            assert(out@ =~= start + chart_sections(p));
        }
        i = i + 1;
    }
    assert(cs.subrange(0, charts@.len() as int) =~= cs);
}

/// The results page of a host, made at `running_at`.
pub fn host_readme(
    args: &CollectOpts,
    environment: &BenchmarkEnvironment,
    running_at: &str,
) -> (r: String)
    ensures
        r@ == host_readme_text(
            running_at@,
            environment@,
            args.run_bench,
            args.bench_args.quick,
            strings_view(args.bench_args.bench_extra_args@),
        ),
{
    let mut out = String::new();
    push_all(&mut out, "# Benchmark Results\n");
    push_all(&mut out, "\n");
    push_all(&mut out, "Running at ");
    push_all(&mut out, running_at);
    push_all(&mut out, ".\n");
    push_all(&mut out, "\n");
    environment.write_markdown(&mut out);
    push_all(&mut out, "\n");
    push_all(&mut out, "## Collect Settings\n");
    push_all(&mut out, "\n");
    push_all(&mut out, "- Run benchmarks before collect: ");
    push_all(
        &mut out,
        if args.run_bench {
            "yes"
        } else {
            "no"
        },
    );
    push_all(&mut out, "\n");
    push_all(&mut out, "- Quick mode: ");
    push_all(
        &mut out,
        if args.bench_args.quick {
            "enabled"
        } else {
            "disabled"
        },
    );
    push_all(&mut out, "\n");
    let ghost settings = out@;
    if args.bench_args.bench_extra_args.len() > 0 {
        push_all(&mut out, "- Extra cargo bench args: `");
        push_words(&mut out, &args.bench_args.bench_extra_args);
        push_all(&mut out, "`\n");
    }
    push_all(&mut out, "\n");
    push_all(&mut out, "## Results\n");
    let ghost head = out@;
    let scopes = Scope::all();
    let mut i: usize = 0;
    assert(scope_sections(all_scopes().subrange(0, 0)) =~= Seq::<char>::empty());
    assert(out@ =~= head + scope_sections(all_scopes().subrange(0, 0)));
    while i < scopes.len()
        invariant
            i <= scopes@.len(),
            scopes@ == all_scopes(),
            out@ == head + scope_sections(all_scopes().subrange(0, i as int)),
        decreases scopes@.len() - i,
    {
        let ghost before = out@;
        let scope = scopes[i];
        push_all(&mut out, "\n");
        push_all(&mut out, "### ");
        push_all(&mut out, scope_title(scope));
        push_all(&mut out, "\n");
        let ghost mid = out@;
        let charts = scope.charts();
        push_chart_sections(&mut out, &charts);
        proof {
            assert(charts@.map_values(|c: ChartSpec| c@) =~= charts_of(scope));
            let p = all_scopes().subrange(0, i + 1);
            assert(p.drop_last() =~= all_scopes().subrange(0, i as int));
            assert(out@ =~= head + scope_sections(p));
        }
        i = i + 1;
    }
    assert(all_scopes().subrange(0, 2) =~= all_scopes());
    assert(out@ =~= host_readme_text(
        running_at@,
        environment@,
        args.run_bench,
        args.bench_args.quick,
        strings_view(args.bench_args.bench_extra_args@),
    ));
    out
}

/// A host as its directory name and title.
pub open spec fn hosts_view(v: Seq<HostInfo>) -> Seq<(Seq<char>, Seq<char>)> {
    v.map_values(|h: HostInfo| (h.id@, h.title@))
}

/// The entry of one host under a chart of a crate's results page.
pub open spec fn host_entry(c: ChartView, h: (Seq<char>, Seq<char>)) -> Seq<char> {
    "
"@ + "### ["@ + h.1 + "]("@ + host_readme_path_of(h.0) + ")
"@ + "
"@ + "!["@ + c.title
        + " ("@ + h.1 + ")]("@ + chart_path_of(h.0, c.dest_path) + ")
"@
}

/// The entries of the hosts `hs` under a chart.
pub open spec fn host_entries(c: ChartView, hs: Seq<(Seq<char>, Seq<char>)>) -> Seq<char>
    decreases hs.len(),
{
    if hs.len() == 0 {
        Seq::empty()
    } else {
        host_entries(c, hs.drop_last()) + host_entry(c, hs.last())
    }
}

/// The section of a chart: nothing when no host has it.
pub open spec fn chart_results(c: ChartView, hs: Seq<(Seq<char>, Seq<char>)>) -> Seq<char> {
    if hs.len() == 0 {
        Seq::empty()
    } else {
        "
"@ + "## "@ + c.title + "
"@ + host_entries(c, hs)
    }
}

/// The sections of the first `n` charts `cs`, chart `i` shown for the hosts `ms[i]`.
pub open spec fn charts_results(
    cs: Seq<ChartView>,
    ms: Seq<Seq<(Seq<char>, Seq<char>)>>,
    n: nat,
) -> Seq<char>
    decreases n,
{
    if n == 0 {
        Seq::empty()
    } else {
        charts_results(cs, ms, (n - 1) as nat) + chart_results(cs[n - 1], ms[n - 1])
    }
}

/// The results page of a crate: for each chart of `scope` that some host has,
/// that chart of each such host, in order; or a note that there are none.
pub open spec fn scope_results_text(scope: Scope, ms: Seq<Seq<(Seq<char>, Seq<char>)>>) -> Seq<
    char,
> {
    "# Benchmark Results
"@ + charts_results(charts_of(scope), ms, ms.len()) + (if exists|i: int|
        0 <= i < ms.len() && #[trigger] ms[i].len() > 0 {
        Seq::empty()
    } else {
        "
"@ + "_No results found yet._
"@
    })
}

/// The hosts of each list, as directory names and titles.
pub open spec fn matching_view(m: Seq<Vec<HostInfo>>) -> Seq<Seq<(Seq<char>, Seq<char>)>> {
    m.map_values(|v: Vec<HostInfo>| hosts_view(v@))
}

/// Appends the entries of the hosts `hosts` under the chart `chart`.
fn push_host_entries(out: &mut String, chart: ChartSpec, hosts: &Vec<HostInfo>)
    ensures
        final(out)@ == old(out)@ + host_entries(chart@, hosts_view(hosts@)),
{
    let ghost start = out@;
    let ghost hs = hosts_view(hosts@);
    let mut i: usize = 0;
    assert(host_entries(chart@, hs.subrange(0, 0)) =~= Seq::<char>::empty());
    assert(out@ =~= start + host_entries(chart@, hs.subrange(0, 0)));
    while i < hosts.len()
        invariant
            i <= hosts@.len(),
            hs == hosts_view(hosts@),
            out@ == start + host_entries(chart@, hs.subrange(0, i as int)),
        decreases hosts@.len() - i,
    {
        let ghost before = out@;
        let host = &hosts[i];
        push_all(out, "
");
        push_all(out, "### [");
        push_all(out, host.title.as_str());
        push_all(out, "](");
        let link = host_readme_markdown_path(host.id.as_str());
        push_all(out, link.as_str());
        push_all(out, ")
");
        push_all(out, "
");
        push_all(out, "![");
        push_all(out, chart.title);
        push_all(out, " (");
        push_all(out, host.title.as_str());
        push_all(out, ")](");
        let path = chart_markdown_path(host.id.as_str(), chart.dest_path);
        push_all(out, path.as_str());
        push_all(out, ")
");
        proof {
            let p = hs.subrange(0, i + 1);
            assert(p.drop_last() =~= hs.subrange(0, i as int));
            assert(p.last() == (host.id@, host.title@));
            assert(out@ =~= before + host_entry(chart@, (host.id@, host.title@)));
            assert(out@ =~= start + host_entries(chart@, p));
        }
        i = i + 1;
    }
    assert(hs.subrange(0, hosts@.len() as int) =~= hs);
}

/// The results page of the crate of `scope`; `matching[i]` are the hosts that
/// have chart `i` of the scope.
pub fn scope_results_markdown(scope: Scope, matching: &Vec<Vec<HostInfo>>) -> (r: String)
    requires
        matching@.len() == charts_of(scope).len(),
    ensures
        r@ == scope_results_text(scope, matching_view(matching@)),
{
    let ghost ms = matching_view(matching@);
    let charts = scope.charts();
    let mut out = String::new();
    push_all(&mut out, "# Benchmark Results
");
    let ghost head = out@;
    let mut has_any_chart = false;
    let mut i: usize = 0;
    while i < charts.len()
        invariant
            i <= charts@.len(),
            charts@.len() == charts_of(scope).len(),
            forall|k: int| 0 <= k < charts@.len() ==> #[trigger] charts@[k]@ == charts_of(scope)[k],
            matching@.len() == charts@.len(),
            ms == matching_view(matching@),
            out@ == head + charts_results(charts_of(scope), ms, i as nat),
            has_any_chart == exists|k: int| 0 <= k < i && #[trigger] ms[k].len() > 0,
        decreases charts@.len() - i,
    {
        let ghost before = out@;
        let chart = charts[i];
        let hosts = &matching[i];
        assert(ms[i as int] == hosts_view(hosts@));
        if hosts.len() > 0 {
            has_any_chart = true;
            push_all(&mut out, "
");
            push_all(&mut out, "## ");
            push_all(&mut out, chart.title);
            push_all(&mut out, "
");
            push_host_entries(&mut out, chart, hosts);
        }
        proof {
            assert(chart@ == charts_of(scope)[i as int]);
            assert(out@ =~= before + chart_results(charts_of(scope)[i as int], ms[i as int]));
            if hosts@.len() > 0 {
                assert(ms[i as int].len() > 0);
            } else {
                assert(ms[i as int].len() == 0);
            }
        }
        i = i + 1;
    }
    if !has_any_chart {
        push_all(&mut out, "
");
        push_all(&mut out, "_No results found yet._
");
    }
    assert(out@ =~= scope_results_text(scope, ms));
    out
}

/// The CPU named by one line of a host's results page: the trimmed, non-blank
/// rest of a `- CPU:` line.
pub open spec fn readme_line_cpu(l: Seq<char>) -> Option<Seq<char>> {
    let value = trim(l.subrange("- CPU:"@.len() as int, l.len() as int));
    if starts_with(l, "- CPU:"@) && value.len() > 0 {
        Some(value)
    } else {
        None
    }
}

/// The first CPU named by any of the lines `ls` of a host's results page.
pub open spec fn readme_cpu_of(ls: Seq<Seq<char>>) -> Option<Seq<char>> {
    ls.fold_left(
        None,
        |found: Option<Seq<char>>, l: Seq<char>|
            if found is Some {
                found
            } else {
                readme_line_cpu(l)
            },
    )
}

/// The CPU named on a host's results page, for hosts without metadata.
pub fn readme_cpu(readme: &str) -> (r: Option<String>)
    ensures
        crate::environment::opt_view(r) == readme_cpu_of(lines(readme@)),
{
    let v = chars_of(readme);
    let n = v.len();
    let mut c: usize = 0;
    let ghost mut done: Seq<Seq<char>> = Seq::empty();
    let mut found: Option<String> = None;
    assert(lines(v@) == done + lines_at(v@, 0, 0));
    while c < n
        invariant
            n == v@.len(),
            v@ == readme@,
            c <= n,
            lines(v@) == done + lines_at(v@, c as int, c as int),
            crate::environment::opt_view(found) == readme_cpu_of(done),
        decreases n - c,
    {
        let b = line_end(&v, c);
        proof {
            lemma_next_line(v@, done, c as int, b as int);
        }
        let ghost raw = v@.subrange(c as int, b as int);
        if found.is_none() && has_prefix(&v, c, b, "- CPU:") {
            let k = "- CPU:".unicode_len();
            assert(raw.subrange(k as int, raw.len() as int) =~= v@.subrange(c + k, b as int));
            let (a, e) = trim_bounds(&v, c + k, b);
            if a < e {
                found = Some(string_of(&v, a, e));
            }
        }
        proof {
            assert(done.push(raw).drop_last() =~= done);
            done = done.push(raw);
        }
        if b < n {
            c = b + 1;
        } else {
            c = n;
        }
    }
    found
}

} // verus!
