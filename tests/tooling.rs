use bench_hash::cli::{bench_command_args, BenchOpts, CollectOpts};
use bench_hash::environment::{
    cpu_from_metadata, macos_name, normalize_result_name, option_if_non_empty,
    parse_cpuinfo, parse_macos_cpu_from_system_profiler, parse_os_release, BenchmarkEnvironment,
    CompilerSpec,
};
use bench_hash::report::{
    chart_markdown_path, host_readme, host_readme_markdown_path, readme_cpu,
    scope_results_markdown, HostInfo,
};
use bench_hash::scope::{join, scope_title, Scope, ScopeValue};
use bench_hash::text::{decode_meta_value, encode_meta_value, slugify, trimmed};

fn apple_m1() -> BenchmarkEnvironment {
    BenchmarkEnvironment {
        os: Some("macOS 26.3 (25D125)".to_owned()),
        kernel_release: Some("Darwin 25.3.0".to_owned()),
        cpu: Some("Apple M1".to_owned()),
        compiler: CompilerSpec {
            rustc: "rustc 1.93.1".to_owned(),
            llvm: "21.1.8".to_owned(),
        },
        arch: "aarch64".to_owned(),
    }
}

#[test]
fn metadata_roundtrip() {
    let env = apple_m1();
    let encoded = env.encode_ini();
    let decoded =
        BenchmarkEnvironment::decode_ini(&encoded, "aarch64").expect("decode should succeed");
    assert_eq!(decoded.cpu(), "Apple M1");
    assert_eq!(decoded.os, Some("macOS 26.3 (25D125)".to_owned()));
    assert_eq!(decoded.kernel_release, Some("Darwin 25.3.0".to_owned()));
    assert_eq!(decoded.compiler.rustc, "rustc 1.93.1");
    assert_eq!(decoded.compiler.llvm, "21.1.8");
}

#[test]
fn metadata_decode_legacy_without_section() {
    let decoded = BenchmarkEnvironment::decode_ini("cpu = Apple M1\n", "x86_64")
        .expect("legacy format should decode");
    assert_eq!(decoded.cpu(), "Apple M1");
}

#[test]
fn meta_value_escape_roundtrip() {
    let raw = "line1\\line2\nline3\rline4";
    let escaped = encode_meta_value(raw);
    let unescaped = decode_meta_value(&escaped);
    assert_eq!(unescaped, raw);
}

#[test]
fn parse_macos_cpu_from_system_profiler_chip() {
    let input = "Hardware:\n\n    Chip: Apple M1\n";
    let cpu = parse_macos_cpu_from_system_profiler(input);
    assert_eq!(cpu, Some("Apple M1"));
}

#[test]
fn parse_macos_cpu_from_system_profiler_processor_name() {
    let input = "Hardware:\n\n    Processor Name: Intel Core i9\n";
    let cpu = parse_macos_cpu_from_system_profiler(input);
    assert_eq!(cpu, Some("Intel Core i9"));
}

#[test]
fn slugify_merges_separators() {
    assert_eq!(slugify(" Apple  M1 -- Pro "), "apple-m1-pro");
}

#[test]
fn readme_sections_order_and_spacing() {
    let args = CollectOpts {
        run_bench: false,
        bench_args: BenchOpts {
            quick: true,
            bench_extra_args: vec![],
        },
    };
    let readme = host_readme(&args, &apple_m1(), "2026-01-01 00:00:00 +0000");
    let env_idx = readme.find("## Environment").expect("missing Environment");
    let settings_idx = readme
        .find("## Collect Settings")
        .expect("missing Collect Settings");
    let results_idx = readme.find("## Results").expect("missing Results");
    assert!(env_idx < settings_idx && settings_idx < results_idx);
    assert!(
        readme.contains("#### Non-Cryptographic Hash Throughput\n\n!["),
        "heading should be followed by a blank line"
    );
}

#[test]
fn host_readme_lists_settings_and_charts() {
    let args = CollectOpts {
        run_bench: true,
        bench_args: BenchOpts {
            quick: false,
            bench_extra_args: vec!["--sample-size".to_owned(), "10".to_owned()],
        },
    };
    let readme = host_readme(&args, &apple_m1(), "now");
    assert!(readme.starts_with("# Benchmark Results\n\nRunning at now.\n\n## Environment\n"));
    assert!(readme.contains("- Run benchmarks before collect: yes\n"));
    assert!(readme.contains("- Quick mode: disabled\n"));
    assert!(readme.contains("- Extra cargo bench args: `--sample-size 10`\n"));
    assert!(readme.contains("\n### Hash\n"));
    assert!(readme.contains("\n### PRNG\n"));
    assert!(readme.ends_with(
        "#### Bytes Generation Throughput\n\n![Bytes Generation Throughput](charts/bytes_generation_lines_throughput.svg)\n"
    ));
}

#[test]
fn aggregate_page_links_host_readme_and_alt_text() {
    let host = HostInfo {
        id: "apple-m1".to_owned(),
        title: "Apple M1".to_owned(),
    };
    let matching = vec![vec![host.clone()], vec![host]];
    let output = scope_results_markdown(Scope::Hash, &matching);
    assert!(output.contains("### [Apple M1](../results/apple-m1/README.md)"));
    assert!(output.contains("![Non-Cryptographic Hash Throughput (Apple M1)]"));
    assert!(output.contains("![Cryptographic Hash Throughput (Apple M1)]"));
    assert!(output.contains(
        "(../results/apple-m1/charts/cryptographic_hash_lines_throughput.svg)"
    ));
}

#[test]
fn aggregate_page_without_hosts() {
    let matching = vec![vec![], vec![]];
    let output = scope_results_markdown(Scope::Prng, &matching);
    assert_eq!(output, "# Benchmark Results\n\n_No results found yet._\n");
}

#[test]
fn markdown_paths() {
    assert_eq!(host_readme_markdown_path("h"), "../results/h/README.md");
    assert_eq!(chart_markdown_path("h", "c.svg"), "../results/h/charts/c.svg");
}

#[test]
fn environment_markdown_section() {
    let mut out = String::from("x");
    apple_m1().write_markdown(&mut out);
    assert_eq!(
        out,
        "x## Environment\n\n- CPU: Apple M1\n- OS: macOS 26.3 (25D125)\n- Kernel: Darwin 25.3.0\n- rustc: rustc 1.93.1\n- LLVM: 21.1.8\n"
    );
}

#[test]
fn environment_defaults_and_result_name() {
    let env = BenchmarkEnvironment {
        os: None,
        kernel_release: None,
        cpu: None,
        compiler: CompilerSpec::unknown(),
        arch: "x86_64".to_owned(),
    };
    assert_eq!(env.cpu(), "x86_64");
    assert_eq!(env.os(), "unknown");
    assert_eq!(env.kernel_release(), "unknown");
    assert_eq!(env.result_name(), "x86-64");
    assert_eq!(env.compiler.rustc, "not found");
    assert_eq!(apple_m1().result_name(), "apple-m1");
    assert_eq!(normalize_result_name("  AMD Ryzen_9 "), "amd-ryzen-9");
}

#[test]
fn decode_ini_skips_other_sections_and_comments() {
    let text = "# comment\n; note\n[other]\ncpu = Wrong\n[environment]\ncpu = Right\nos =   \nextra = 1\n";
    let env = BenchmarkEnvironment::decode_ini(text, "arm").expect("decodes");
    assert_eq!(env.cpu(), "Right");
    assert_eq!(env.os, None);
    assert_eq!(env.compiler.llvm, "not found");
}

#[test]
fn decode_ini_errors() {
    let err = BenchmarkEnvironment::decode_ini("[environment]\nno equals sign\n", "arm")
        .expect_err("bad line");
    assert_eq!(err, "invalid metadata line: no equals sign");
    let err = BenchmarkEnvironment::decode_ini("os = Linux\n", "arm").expect_err("no cpu");
    assert_eq!(err, "missing metadata key: cpu");
}

#[test]
fn meta_value_escapes() {
    assert_eq!(encode_meta_value("a\\b\nc\rd"), "a\\\\b\\nc\\rd");
    assert_eq!(decode_meta_value("a\\tb\\"), "atb\\");
}

#[test]
fn cpu_from_metadata_text() {
    assert_eq!(
        cpu_from_metadata("[environment]\ncpu =  Apple M1 \n", "arm"),
        Some("Apple M1".to_owned())
    );
    assert_eq!(cpu_from_metadata("os = x\n", "arm"), None);
    assert_eq!(cpu_from_metadata("[environment]\ncpu = \n", "arm"), Some("arm".to_owned()));
}

#[test]
fn parse_linux_sources() {
    let cpuinfo = "processor\t: 0\nmodel name\t: AMD EPYC 7763\nmodel name\t: other\n";
    assert_eq!(parse_cpuinfo(cpuinfo), Some("AMD EPYC 7763".to_owned()));
    assert_eq!(parse_cpuinfo("Hardware\t: BCM2835\n"), Some("BCM2835".to_owned()));
    assert_eq!(parse_cpuinfo("model name\t:   \n"), None);
    let os_release = "# c\nNAME=\"Ubuntu\"\nPRETTY_NAME=\"Ubuntu 24.04 LTS\"\nID=ubuntu\n";
    assert_eq!(parse_os_release(os_release), Some("Ubuntu 24.04 LTS".to_owned()));
    assert_eq!(parse_os_release("NAME=Arch\n"), Some("Arch".to_owned()));
    assert_eq!(parse_os_release("junk\n"), None);
}

#[test]
fn compiler_from_version_output() {
    let text = "rustc 1.93.1 (abc 2026-01-01)\nbinary: rustc\nLLVM version: 21.1.8\n";
    let spec = CompilerSpec::from_version_output(text);
    assert_eq!(spec.rustc, "rustc 1.93.1 (abc 2026-01-01)");
    assert_eq!(spec.llvm, "21.1.8");
    let none = CompilerSpec::from_version_output("");
    assert_eq!(none.rustc, "not found");
    assert_eq!(none.llvm, "not found");
}

#[test]
fn readme_cpu_line() {
    assert_eq!(
        readme_cpu("# Benchmark Results\n\n- CPU:  Apple M1\n"),
        Some("Apple M1".to_owned())
    );
    assert_eq!(readme_cpu("- CPU:\n"), None);
}

#[test]
fn option_and_trim_helpers() {
    assert_eq!(option_if_non_empty(Some(" \t".to_owned())), None);
    assert_eq!(option_if_non_empty(Some(" a ".to_owned())), Some(" a ".to_owned()));
    assert_eq!(trimmed("\t a b \n"), "a b");
    assert_eq!(macos_name("macOS", "26.3", "25D125"), "macOS 26.3 (25D125)");
}

#[test]
fn scopes_and_benchmark_arguments() {
    assert_eq!(Scope::all(), vec![Scope::Hash, Scope::Prng]);
    assert_eq!(ScopeValue::All.to_scopes(), vec![Scope::Hash, Scope::Prng]);
    assert_eq!(ScopeValue::Prng.to_scopes(), vec![Scope::Prng]);
    assert_eq!(Scope::Hash.slug(), "hash");
    assert_eq!(Scope::Prng.bench_crate(), "bench_prng");
    assert_eq!(Scope::Prng.bench_file(), "rng_comparison");
    assert_eq!(scope_title(Scope::Prng), "PRNG");
    assert_eq!(Scope::Hash.charts()[1].dest_path, "cryptographic_hash_lines_throughput.svg");
    assert_eq!(Scope::Hash.crate_results_readme("/w"), "/w/bench_hash/RESULTS.md");
    assert_eq!(join("/w/", "x"), "/w/x");
    assert_eq!(join("/w", "/abs"), "/abs");
    let opts = BenchOpts {
        quick: true,
        bench_extra_args: vec!["--save-baseline".to_owned(), "main".to_owned()],
    };
    assert_eq!(
        bench_command_args(Scope::Hash, &opts),
        vec![
            "bench",
            "-p",
            "bench_hash",
            "--bench",
            "hash_comparison",
            "--",
            "--plotting-backend",
            "plotters",
            "--warm-up-time",
            "1",
            "--measurement-time",
            "1",
            "--save-baseline",
            "main"
        ]
    );
}
