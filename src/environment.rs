//! The description of a benchmark host and its `environment.ini` metadata file.

use vstd::prelude::*;
use vstd::string::*;
use crate::text::{
    push_all, chars_of, has_prefix, starts_with, decode_meta_value, encode_meta_value, escape, find, find_char, lines, lines_at,
    line_end, lemma_next_line, lower_of, range_is, slug, slugify, string_of, trim, trim_bounds,
    trimmed, unescape,
};

verus! {

/// Name of the metadata file kept with a host's results.
pub const ENV_METADATA_FILE: &'static str = "environment.ini";

/// Name of the metadata file in results collected by older versions.
pub const ENV_METADATA_FILE_LEGACY: &'static str = "environment.meta";

/// The compiler that built the benchmarks.
#[derive(Debug, Clone)]
pub struct CompilerSpec {
    pub rustc: String,
    pub llvm: String,
}

/// What is known of a benchmark host. `arch` is the architecture the tooling
/// was built for; it names the CPU when nothing better is known.
#[derive(Debug, Clone)]
pub struct BenchmarkEnvironment {
    pub os: Option<String>,
    pub kernel_release: Option<String>,
    pub cpu: Option<String>,
    pub compiler: CompilerSpec,
    pub arch: String,
}

/// A host description as character sequences.
pub struct EnvView {
    pub os: Option<Seq<char>>,
    pub kernel_release: Option<Seq<char>>,
    pub cpu: Option<Seq<char>>,
    pub rustc: Seq<char>,
    pub llvm: Seq<char>,
    pub arch: Seq<char>,
}

/// The characters of an optional string.
pub open spec fn opt_view(o: Option<String>) -> Option<Seq<char>> {
    match o {
        Some(s) => Some(s@),
        None => None,
    }
}

impl View for BenchmarkEnvironment {
    type V = EnvView;

    open spec fn view(&self) -> EnvView {
        EnvView {
            os: opt_view(self.os),
            kernel_release: opt_view(self.kernel_release),
            cpu: opt_view(self.cpu),
            rustc: self.compiler.rustc@,
            llvm: self.compiler.llvm@,
            arch: self.arch@,
        }
    }
}

/// The value, or `unknown`.
pub open spec fn or_unknown(o: Option<Seq<char>>) -> Seq<char> {
    match o {
        Some(s) => s,
        None => "unknown"@,
    }
}

/// The CPU of a host, or its architecture when the CPU is not known.
pub open spec fn cpu_name(e: EnvView) -> Seq<char> {
    match e.cpu {
        Some(c) => c,
        None => e.arch,
    }
}

/// The value, unless it is missing or only whitespace.
pub open spec fn non_blank(o: Option<Seq<char>>) -> Option<Seq<char>> {
    match o {
        Some(s) => if trim(s).len() > 0 {
            Some(s)
        } else {
            None
        },
        None => None,
    }
}

/// The value, or `not found`.
pub open spec fn or_not_found(o: Option<Seq<char>>) -> Seq<char> {
    match o {
        Some(s) => s,
        None => "not found"@,
    }
}

/// The metadata file of a host: a section header and one escaped `key = value`
/// line for each field.
pub open spec fn ini_text(e: EnvView) -> Seq<char> {
    "[environment]\n"@ + "cpu = "@ + escape(cpu_name(e)) + "\n"@ + "os = "@ + escape(
        or_unknown(e.os),
    ) + "\n"@ + "kernel = "@ + escape(or_unknown(e.kernel_release)) + "\n"@ + "rustc = "@
        + escape(e.rustc) + "\n"@ + "llvm = "@ + escape(e.llvm) + "\n"@
}

/// The Markdown section that describes a host.
pub open spec fn markdown_text(e: EnvView) -> Seq<char> {
    "## Environment\n"@ + "\n"@ + "- CPU: "@ + cpu_name(e) + "\n"@ + "- OS: "@ + or_unknown(e.os)
        + "\n"@ + "- Kernel: "@ + or_unknown(e.kernel_release) + "\n"@ + "- rustc: "@ + e.rustc
        + "\n"@ + "- LLVM: "@ + e.llvm + "\n"@
}

/// What has been read of a metadata file after some of its lines.
pub struct IniScan {
    pub section: Option<Seq<char>>,
    pub cpu: Option<Seq<char>>,
    pub os: Option<Seq<char>>,
    pub kernel: Option<Seq<char>>,
    pub rustc: Option<Seq<char>>,
    pub llvm: Option<Seq<char>>,
    pub error: Option<Seq<char>>,
}

/// Nothing read yet.
pub open spec fn ini_start() -> IniScan {
    IniScan {
        section: None,
        cpu: None,
        os: None,
        kernel: None,
        rustc: None,
        llvm: None,
        error: None,
    }
}

/// `st` after the line `raw`: blank lines and comments are skipped, `[name]`
/// opens a section, lines of a section other than `environment` are skipped,
/// and any other line is `key = value` (else the read fails) with the value
/// unescaped; keys other than the five known ones are skipped. Once the read
/// has failed, nothing changes.
pub open spec fn ini_step(st: IniScan, raw: Seq<char>) -> IniScan {
    let line = trim(raw);
    if st.error is Some {
        st
    } else if line.len() == 0 || line[0] == '#' || line[0] == ';' {
        st
    } else if line[0] == '[' && line.last() == ']' {
        IniScan { section: Some(line.subrange(1, line.len() - 1)), ..st }
    } else if st.section is Some && st.section->0 != "environment"@ {
        st
    } else {
        let eq = find(line, '=');
        if eq < 0 {
            IniScan { error: Some("invalid metadata line: "@ + line), ..st }
        } else {
            let key = trim(line.subrange(0, eq));
            let value = unescape(trim(line.subrange(eq + 1, line.len() as int)));
            if key == "cpu"@ {
                IniScan { cpu: Some(value), ..st }
            } else if key == "os"@ {
                IniScan { os: Some(value), ..st }
            } else if key == "kernel"@ {
                IniScan { kernel: Some(value), ..st }
            } else if key == "rustc"@ {
                IniScan { rustc: Some(value), ..st }
            } else if key == "llvm"@ {
                IniScan { llvm: Some(value), ..st }
            } else {
                st
            }
        }
    }
}

/// The state after reading the lines `ls` in order.
pub open spec fn ini_scan(ls: Seq<Seq<char>>) -> IniScan {
    ls.fold_left(ini_start(), |st: IniScan, l: Seq<char>| ini_step(st, l))
}

/// The host that a metadata file describes, or the message of why it cannot be read.
pub open spec fn decode_ini_spec(s: Seq<char>, arch: Seq<char>) -> Result<EnvView, Seq<char>> {
    let st = ini_scan(lines(s));
    if st.error is Some {
        Err(st.error->0)
    } else if st.cpu is None {
        Err("missing metadata key: cpu"@)
    } else {
        Ok(
            EnvView {
                os: non_blank(st.os),
                kernel_release: non_blank(st.kernel),
                cpu: non_blank(st.cpu),
                rustc: or_not_found(st.rustc),
                llvm: or_not_found(st.llvm),
                arch,
            },
        )
    }
}

/// The value, unless it is missing or only whitespace.
pub fn option_if_non_empty(value: Option<String>) -> (r: Option<String>)
    ensures
        opt_view(r) == non_blank(opt_view(value)),
{
    match value {
        Some(v) => {
            let t = trimmed(v.as_str());
            if t.as_str().unicode_len() > 0 {
                Some(v)
            } else {
                None
            }
        },
        None => None,
    }
}

/// The file-name-safe name of a host's results, made from its CPU.
pub fn normalize_result_name(cpu: &str) -> (r: String)
    ensures
        r@ == slug(lower_of(trim(cpu@))),
{
    slugify(cpu)
}

/// The value, or `not found`.
fn unwrap_or_not_found(o: Option<String>) -> (r: String)
    ensures
        r@ == or_not_found(opt_view(o)),
{
    match o {
        Some(s) => s,
        None => String::from_str("not found"),
    }
}

impl CompilerSpec {
    /// A compiler of which nothing is known.
    pub fn unknown() -> (r: Self)
        ensures
            r.rustc@ == "not found"@,
            r.llvm@ == "not found"@,
    {
        CompilerSpec { rustc: String::from_str("not found"), llvm: String::from_str("not found") }
    }
}

impl BenchmarkEnvironment {
    /// The operating system, or `unknown`.
    pub fn os(&self) -> (r: &str)
        ensures
            r@ == or_unknown(self@.os),
    {
        match &self.os {
            Some(s) => s.as_str(),
            None => "unknown",
        }
    }

    /// The kernel release, or `unknown`.
    pub fn kernel_release(&self) -> (r: &str)
        ensures
            r@ == or_unknown(self@.kernel_release),
    {
        match &self.kernel_release {
            Some(s) => s.as_str(),
            None => "unknown",
        }
    }

    /// The CPU, or the architecture when the CPU is not known.
    pub fn cpu(&self) -> (r: &str)
        ensures
            r@ == cpu_name(self@),
    {
        match &self.cpu {
            Some(s) => s.as_str(),
            None => self.arch.as_str(),
        }
    }

    /// Name of the directory that holds this host's results.
    pub fn result_name(&self) -> (r: String)
        ensures
            r@ == slug(lower_of(trim(cpu_name(self@)))),
    {
        normalize_result_name(self.cpu())
    }

    /// Appends the Markdown section that describes this host to `out`.
    pub fn write_markdown(&self, out: &mut String)
        ensures
            final(out)@ == old(out)@ + markdown_text(self@),
    {
        let ghost start = out@;
        push_all(out, "## Environment\n");
        push_all(out, "\n");
        push_all(out, "- CPU: ");
        push_all(out, self.cpu());
        push_all(out, "\n");
        push_all(out, "- OS: ");
        push_all(out, self.os());
        push_all(out, "\n");
        push_all(out, "- Kernel: ");
        push_all(out, self.kernel_release());
        push_all(out, "\n");
        push_all(out, "- rustc: ");
        push_all(out, self.compiler.rustc.as_str());
        push_all(out, "\n");
        push_all(out, "- LLVM: ");
        push_all(out, self.compiler.llvm.as_str());
        push_all(out, "\n");
        assert(out@ =~= start + markdown_text(self@));
    }

    /// The metadata file that describes this host.
    pub fn encode_ini(&self) -> (r: String)
        ensures
            r@ == ini_text(self@),
    {
        let mut out = String::new();
        push_all(&mut out, "[environment]\n");
        push_all(&mut out, "cpu = ");
        push_all(&mut out, encode_meta_value(self.cpu()).as_str());
        push_all(&mut out, "\n");
        push_all(&mut out, "os = ");
        push_all(&mut out, encode_meta_value(self.os()).as_str());
        push_all(&mut out, "\n");
        push_all(&mut out, "kernel = ");
        push_all(&mut out, encode_meta_value(self.kernel_release()).as_str());
        push_all(&mut out, "\n");
        push_all(&mut out, "rustc = ");
        push_all(&mut out, encode_meta_value(self.compiler.rustc.as_str()).as_str());
        push_all(&mut out, "\n");
        push_all(&mut out, "llvm = ");
        push_all(&mut out, encode_meta_value(self.compiler.llvm.as_str()).as_str());
        push_all(&mut out, "\n");
        assert(out@ =~= ini_text(self@));
        out
    }

    /// Reads a host description back from its metadata file. Files written
    /// before sections were used, with bare `key = value` lines, are read too.
    pub fn decode_ini(input: &str, arch: &str) -> (r: Result<Self, String>)
        ensures
            match r {
                Ok(e) => decode_ini_spec(input@, arch@) == Ok::<EnvView, Seq<char>>(e@),
                Err(m) => decode_ini_spec(input@, arch@) == Err::<EnvView, Seq<char>>(m@),
            },
    {
        let v = chars_of(input);
        let n = v.len();
        let mut c: usize = 0;
        let ghost mut done: Seq<Seq<char>> = Seq::empty();
        let ghost mut st: IniScan = ini_start();
        let mut other_section = false;
        let mut cpu: Option<String> = None;
        let mut os: Option<String> = None;
        let mut kernel: Option<String> = None;
        let mut rustc: Option<String> = None;
        let mut llvm: Option<String> = None;
        let mut error: Option<String> = None;
        assert(lines(v@) == done + lines_at(v@, 0, 0));
        while c < n
            invariant
                n == v@.len(),
                v@ == input@,
                c <= n,
                lines(v@) == done + lines_at(v@, c as int, c as int),
                st == ini_scan(done),
                other_section == (st.section is Some && st.section->0 != "environment"@),
                opt_view(cpu) == st.cpu,
                opt_view(os) == st.os,
                opt_view(kernel) == st.kernel,
                opt_view(rustc) == st.rustc,
                opt_view(llvm) == st.llvm,
                opt_view(error) == st.error,
            decreases n - c,
        {
            let b = line_end(&v, c);
            proof {
                lemma_next_line(v@, done, c as int, b as int);
            }
            let ghost raw = v@.subrange(c as int, b as int);
            let (a, e) = trim_bounds(&v, c, b);
            let ghost line = v@.subrange(a as int, e as int);
            assert(line == trim(raw));
            let ghost next = ini_step(st, raw);
            if error.is_some() {
            } else if a == e || v[a] == '#' || v[a] == ';' {
            } else if v[a] == '[' && v[e - 1] == ']' {
                assert(line.subrange(1, line.len() - 1) =~= v@.subrange(a + 1, e - 1));
                other_section = !range_is(&v, a + 1, e - 1, "environment");
            } else if other_section {
            } else {
                match find_char(&v, a, e, '=') {
                    None => {
                        let mut m = String::from_str("invalid metadata line: ");
                        let l = string_of(&v, a, e);
                        m.append(l.as_str());
                        error = Some(m);
                    },
                    Some(k) => {
                        assert(line.subrange(0, k - a) =~= v@.subrange(a as int, k as int));
                        assert(line.subrange(k - a + 1, line.len() as int) =~= v@.subrange(
                            k + 1,
                            e as int,
                        ));
                        let (ka, kb) = trim_bounds(&v, a, k);
                        let (va, vb) = trim_bounds(&v, k + 1, e);
                        let raw_value = string_of(&v, va, vb);
                        let value = decode_meta_value(raw_value.as_str());
                        if range_is(&v, ka, kb, "cpu") {
                            cpu = Some(value);
                        } else if range_is(&v, ka, kb, "os") {
                            os = Some(value);
                        } else if range_is(&v, ka, kb, "kernel") {
                            kernel = Some(value);
                        } else if range_is(&v, ka, kb, "rustc") {
                            rustc = Some(value);
                        } else if range_is(&v, ka, kb, "llvm") {
                            llvm = Some(value);
                        }
                    },
                }
            }
            proof {
                assert(done.push(raw).drop_last() =~= done);
                done = done.push(raw);
                st = next;
            }
            if b < n {
                c = b + 1;
            } else {
                c = n;
            }
        }
        assert(done == lines(v@));
        match error {
            Some(m) => {
                return Err(m);
            },
            None => {},
        }
        match cpu {
            None => Err(String::from_str("missing metadata key: cpu")),
            Some(cpu) => {
                let env = BenchmarkEnvironment {
                    os: option_if_non_empty(os),
                    kernel_release: option_if_non_empty(kernel),
                    cpu: option_if_non_empty(Some(cpu)),
                    compiler: CompilerSpec {
                        rustc: unwrap_or_not_found(rustc),
                        llvm: unwrap_or_not_found(llvm),
                    },
                    arch: String::from_str(arch),
                };
                Ok(env)
            },
        }
    }
}

/// The CPU named by one trimmed line of `system_profiler SPHardwareDataType`:
/// the non-blank value of a `Chip:` or a `Processor Name:` line.
pub open spec fn profiler_line_cpu(l: Seq<char>) -> Option<Seq<char>> {
    let chip = trim(l.subrange("Chip:"@.len() as int, l.len() as int));
    let processor = trim(l.subrange("Processor Name:"@.len() as int, l.len() as int));
    if starts_with(l, "Chip:"@) && chip.len() > 0 {
        Some(chip)
    } else if starts_with(l, "Processor Name:"@) && processor.len() > 0 {
        Some(processor)
    } else {
        None
    }
}

/// The first CPU named by any of the lines `ls`.
pub open spec fn profiler_cpu(ls: Seq<Seq<char>>) -> Option<Seq<char>> {
    ls.fold_left(
        None,
        |found: Option<Seq<char>>, l: Seq<char>|
            if found is Some {
                found
            } else {
                profiler_line_cpu(trim(l))
            },
    )
}

/// If `v[lo..hi]` starts with `p`, the bounds of the rest of it, trimmed and
/// not empty.
fn value_after(v: &Vec<char>, lo: usize, hi: usize, p: &str) -> (r: Option<(usize, usize)>)
    requires
        lo <= hi <= v@.len(),
    ensures
        match r {
            Some((a, b)) => {
                &&& starts_with(v@.subrange(lo as int, hi as int), p@)
                &&& lo <= a < b <= hi
                &&& v@.subrange(a as int, b as int) == trim(
                    v@.subrange(lo as int, hi as int).subrange(p@.len() as int, hi - lo),
                )
            },
            None => !starts_with(v@.subrange(lo as int, hi as int), p@) || trim(
                v@.subrange(lo as int, hi as int).subrange(p@.len() as int, hi - lo),
            ).len() == 0,
        },
{
    if !has_prefix(v, lo, hi, p) {
        return None;
    }
    let k = p.unicode_len();
    assert(v@.subrange(lo as int, hi as int).subrange(k as int, hi - lo) =~= v@.subrange(
        lo + k,
        hi as int,
    ));
    let (a, b) = trim_bounds(v, lo + k, hi);
    if a < b {
        Some((a, b))
    } else {
        None
    }
}

/// The CPU named in the output of `system_profiler SPHardwareDataType`: the
/// value of the first `Chip:` or `Processor Name:` line that has one.
pub fn parse_macos_cpu_from_system_profiler(output: &str) -> (r: Option<&str>)
    ensures
        match r {
            Some(t) => profiler_cpu(lines(output@)) == Some(t@),
            None => profiler_cpu(lines(output@)) is None,
        },
{
    let v = chars_of(output);
    let n = v.len();
    let mut c: usize = 0;
    let ghost mut done: Seq<Seq<char>> = Seq::empty();
    let mut found: Option<(usize, usize)> = None;
    assert(lines(v@) == done + lines_at(v@, 0, 0));
    while c < n
        invariant
            n == v@.len(),
            v@ == output@,
            c <= n,
            lines(v@) == done + lines_at(v@, c as int, c as int),
            match found {
                Some((a, b)) => a <= b <= n && profiler_cpu(done) == Some(
                    v@.subrange(a as int, b as int),
                ),
                None => profiler_cpu(done) is None,
            },
        decreases n - c,
    {
        let b = line_end(&v, c);
        proof {
            lemma_next_line(v@, done, c as int, b as int);
        }
        let ghost raw = v@.subrange(c as int, b as int);
        if found.is_none() {
            let (ta, tb) = trim_bounds(&v, c, b);
            match value_after(&v, ta, tb, "Chip:") {
                Some(bounds) => {
                    found = Some(bounds);
                },
                None => match value_after(&v, ta, tb, "Processor Name:") {
                    Some(bounds) => {
                        found = Some(bounds);
                    },
                    None => {},
                },
            }
        }
        proof {
            assert(done.push(raw).drop_last() =~= done);
            done = done.push(raw);
        }
        if b < n {
            c = b + 1;
        } else {
            c = n;
        }
    }
    match found {
        Some((a, b)) => Some(output.substring_char(a, b)),
        None => None,
    }
}

/// The CPU model named by one line of `/proc/cpuinfo`: the non-blank value
/// after the first `:` of a `model name` or `Hardware` line.
pub open spec fn cpuinfo_line_cpu(l: Seq<char>) -> Option<Seq<char>> {
    let colon = find(l, ':');
    let value = trim(l.subrange(colon + 1, l.len() as int));
    if (starts_with(l, "model name"@) || starts_with(l, "Hardware"@)) && colon >= 0 && value.len()
        > 0 {
        Some(value)
    } else {
        None
    }
}

/// The first CPU model named by any of the lines `ls`.
pub open spec fn cpuinfo_cpu(ls: Seq<Seq<char>>) -> Option<Seq<char>> {
    ls.fold_left(
        None,
        |found: Option<Seq<char>>, l: Seq<char>|
            if found is Some {
                found
            } else {
                cpuinfo_line_cpu(l)
            },
    )
}

/// The CPU model named in the text of `/proc/cpuinfo`.
pub fn parse_cpuinfo(content: &str) -> (r: Option<String>)
    ensures
        opt_view(r) == cpuinfo_cpu(lines(content@)),
{
    let v = chars_of(content);
    let n = v.len();
    let mut c: usize = 0;
    let ghost mut done: Seq<Seq<char>> = Seq::empty();
    let mut found: Option<String> = None;
    assert(lines(v@) == done + lines_at(v@, 0, 0));
    while c < n
        invariant
            n == v@.len(),
            v@ == content@,
            c <= n,
            lines(v@) == done + lines_at(v@, c as int, c as int),
            opt_view(found) == cpuinfo_cpu(done),
        decreases n - c,
    {
        let b = line_end(&v, c);
        proof {
            lemma_next_line(v@, done, c as int, b as int);
        }
        let ghost raw = v@.subrange(c as int, b as int);
        if found.is_none() && (has_prefix(&v, c, b, "model name") || has_prefix(
            &v,
            c,
            b,
            "Hardware",
        )) {
            match find_char(&v, c, b, ':') {
                Some(k) => {
                    assert(raw.subrange(k - c + 1, raw.len() as int) =~= v@.subrange(
                        k + 1,
                        b as int,
                    ));
                    let (a, e) = trim_bounds(&v, k + 1, b);
                    if a < e {
                        found = Some(string_of(&v, a, e));
                    }
                },
                None => {},
            }
        }
        proof {
            assert(done.push(raw).drop_last() =~= done);
            done = done.push(raw);
        }
        if b < n {
            c = b + 1;
        } else {
            c = n;
        }
    }
    found
}

/// `s` without leading or trailing double quotes.
pub open spec fn strip_quotes(s: Seq<char>) -> Seq<char>
    decreases s.len(),
{
    if s.len() > 0 && s[0] == '"' {
        strip_quotes(s.drop_first())
    } else if s.len() > 0 && s.last() == '"' {
        strip_quotes(s.drop_last())
    } else {
        s
    }
}

/// The bounds of `v[lo..hi]` without its leading and trailing double quotes.
fn strip_quote_bounds(v: &Vec<char>, lo: usize, hi: usize) -> (r: (usize, usize))
    requires
        lo <= hi <= v@.len(),
    ensures
        lo <= r.0 <= r.1 <= hi,
        v@.subrange(r.0 as int, r.1 as int) == strip_quotes(v@.subrange(lo as int, hi as int)),
{
    let mut a: usize = lo;
    while a < hi && v[a] == '"'
        invariant
            lo <= a <= hi,
            hi <= v@.len(),
            strip_quotes(v@.subrange(lo as int, hi as int)) == strip_quotes(
                v@.subrange(a as int, hi as int),
            ),
        decreases hi - a,
    {
        assert(v@.subrange(a as int, hi as int).drop_first() =~= v@.subrange(a + 1, hi as int));
        a = a + 1;
    }
    let mut b: usize = hi;
    while b > a && v[b - 1] == '"'
        invariant
            a <= b <= hi,
            hi <= v@.len(),
            a == hi || v@[a as int] != '"',
            strip_quotes(v@.subrange(lo as int, hi as int)) == strip_quotes(
                v@.subrange(a as int, b as int),
            ),
        decreases b,
    {
        assert(v@.subrange(a as int, b as int).drop_last() =~= v@.subrange(a as int, b - 1));
        b = b - 1;
    }
    (a, b)
}

/// What is read of `/etc/os-release`: the last `PRETTY_NAME` and the last `NAME`.
pub struct OsRelease {
    pub pretty_name: Option<Seq<char>>,
    pub name: Option<Seq<char>>,
}

/// `st` after the line `l`: comments and lines without `=` are skipped, and
/// values lose surrounding whitespace, then surrounding quotes.
pub open spec fn os_release_step(st: OsRelease, l: Seq<char>) -> OsRelease {
    let eq = find(l, '=');
    let key = l.subrange(0, eq);
    let value = strip_quotes(trim(l.subrange(eq + 1, l.len() as int)));
    if starts_with(l, "#"@) || eq < 0 {
        st
    } else if key == "PRETTY_NAME"@ {
        OsRelease { pretty_name: Some(value), ..st }
    } else if key == "NAME"@ {
        OsRelease { name: Some(value), ..st }
    } else {
        st
    }
}

/// The name of the operating system in the lines `ls` of `/etc/os-release`:
/// its pretty name, or else its name.
pub open spec fn os_release_name(ls: Seq<Seq<char>>) -> Option<Seq<char>> {
    let st = ls.fold_left(
        OsRelease { pretty_name: None, name: None },
        |st: OsRelease, l: Seq<char>| os_release_step(st, l),
    );
    if st.pretty_name is Some {
        st.pretty_name
    } else {
        st.name
    }
}

/// The name of the operating system in the text of `/etc/os-release`.
pub fn parse_os_release(content: &str) -> (r: Option<String>)
    ensures
        opt_view(r) == os_release_name(lines(content@)),
{
    let v = chars_of(content);
    let n = v.len();
    let mut c: usize = 0;
    let ghost mut done: Seq<Seq<char>> = Seq::empty();
    let mut pretty: Option<String> = None;
    let mut name: Option<String> = None;
    let ghost f = |st: OsRelease, l: Seq<char>| os_release_step(st, l);
    let ghost init = OsRelease { pretty_name: None, name: None };
    assert(lines(v@) == done + lines_at(v@, 0, 0));
    while c < n
        invariant
            n == v@.len(),
            v@ == content@,
            c <= n,
            f == (|st: OsRelease, l: Seq<char>| os_release_step(st, l)),
            lines(v@) == done + lines_at(v@, c as int, c as int),
            opt_view(pretty) == done.fold_left(init, f).pretty_name,
            opt_view(name) == done.fold_left(init, f).name,
        decreases n - c,
    {
        let b = line_end(&v, c);
        proof {
            lemma_next_line(v@, done, c as int, b as int);
        }
        let ghost raw = v@.subrange(c as int, b as int);
        if !has_prefix(&v, c, b, "#") {
            match find_char(&v, c, b, '=') {
                Some(k) => {
                    assert(raw.subrange(0, k - c) =~= v@.subrange(c as int, k as int));
                    assert(raw.subrange(k - c + 1, raw.len() as int) =~= v@.subrange(
                        k + 1,
                        b as int,
                    ));
                    let (ta, tb) = trim_bounds(&v, k + 1, b);
                    let (qa, qb) = strip_quote_bounds(&v, ta, tb);
                    if range_is(&v, c, k, "PRETTY_NAME") {
                        pretty = Some(string_of(&v, qa, qb));
                    } else if range_is(&v, c, k, "NAME") {
                        name = Some(string_of(&v, qa, qb));
                    }
                },
                None => {},
            }
        }
        proof {
            assert(done.push(raw).drop_last() =~= done);
            done = done.push(raw);
        }
        if b < n {
            c = b + 1;
        } else {
            c = n;
        }
    }
    match pretty {
        Some(p) => Some(p),
        None => name,
    }
}

/// What is read of `rustc -Vv`: the last `rustc ` line and the last LLVM version.
pub struct RustcVersion {
    pub rustc: Option<Seq<char>>,
    pub llvm: Option<Seq<char>>,
}

/// `st` after the line `l`: a line that starts with `rustc ` names the
/// compiler, and the trimmed rest of an `LLVM version:` line names LLVM.
pub open spec fn rustc_version_step(st: RustcVersion, l: Seq<char>) -> RustcVersion {
    if starts_with(l, "rustc "@) {
        RustcVersion { rustc: Some(l), ..st }
    } else if starts_with(l, "LLVM version:"@) {
        RustcVersion {
            llvm: Some(trim(l.subrange("LLVM version:"@.len() as int, l.len() as int))),
            ..st
        }
    } else {
        st
    }
}

/// What the lines `ls` of `rustc -Vv` say.
pub open spec fn rustc_version(ls: Seq<Seq<char>>) -> RustcVersion {
    ls.fold_left(
        RustcVersion { rustc: None, llvm: None },
        |st: RustcVersion, l: Seq<char>| rustc_version_step(st, l),
    )
}

impl CompilerSpec {
    /// The compiler described by the output of `rustc -Vv`; what it does not
    /// say stays `not found`.
    pub fn from_version_output(text: &str) -> (r: Self)
        ensures
            r.rustc@ == or_not_found(rustc_version(lines(text@)).rustc),
            r.llvm@ == or_not_found(rustc_version(lines(text@)).llvm),
    {
        let v = chars_of(text);
        let n = v.len();
        let mut c: usize = 0;
        let ghost mut done: Seq<Seq<char>> = Seq::empty();
        let mut rustc: Option<String> = None;
        let mut llvm: Option<String> = None;
        assert(lines(v@) == done + lines_at(v@, 0, 0));
        while c < n
            invariant
                n == v@.len(),
                v@ == text@,
                c <= n,
                lines(v@) == done + lines_at(v@, c as int, c as int),
                opt_view(rustc) == rustc_version(done).rustc,
                opt_view(llvm) == rustc_version(done).llvm,
            decreases n - c,
        {
            let b = line_end(&v, c);
            proof {
                lemma_next_line(v@, done, c as int, b as int);
            }
            let ghost raw = v@.subrange(c as int, b as int);
            if has_prefix(&v, c, b, "rustc ") {
                rustc = Some(string_of(&v, c, b));
            } else if has_prefix(&v, c, b, "LLVM version:") {
                let k = "LLVM version:".unicode_len();
                assert(raw.subrange(k as int, raw.len() as int) =~= v@.subrange(c + k, b as int));
                let (a, e) = trim_bounds(&v, c + k, b);
                llvm = Some(string_of(&v, a, e));
            }
            proof {
                assert(done.push(raw).drop_last() =~= done);
                done = done.push(raw);
            }
            if b < n {
                c = b + 1;
            } else {
                c = n;
            }
        }
        CompilerSpec { rustc: unwrap_or_not_found(rustc), llvm: unwrap_or_not_found(llvm) }
    }
}

/// The CPU recorded in a metadata file, trimmed: none when the file cannot be
/// read or names a blank CPU.
pub open spec fn metadata_cpu(s: Seq<char>, arch: Seq<char>) -> Option<Seq<char>> {
    match decode_ini_spec(s, arch) {
        Ok(e) => if trim(cpu_name(e)).len() > 0 {
            Some(trim(cpu_name(e)))
        } else {
            None
        },
        Err(_) => None,
    }
}

/// The CPU recorded in the text of a metadata file.
pub fn cpu_from_metadata(raw: &str, arch: &str) -> (r: Option<String>)
    ensures
        opt_view(r) == metadata_cpu(raw@, arch@),
{
    match BenchmarkEnvironment::decode_ini(raw, arch) {
        Ok(env) => {
            let cpu = trimmed(env.cpu());
            if cpu.as_str().unicode_len() == 0 {
                None
            } else {
                Some(cpu)
            }
        },
        Err(_) => None,
    }
}

/// How macOS is named from the answers of `sw_vers`: product name, version and
/// build, as in `macOS 26.3 (25D125)`.
pub fn macos_name(name: &str, version: &str, build: &str) -> (r: String)
    ensures
        r@ == name@ + " "@ + version@ + " ("@ + build@ + ")"@,
{
    let mut out = String::from_str(name);
    push_all(&mut out, " ");
    push_all(&mut out, version);
    push_all(&mut out, " (");
    push_all(&mut out, build);
    push_all(&mut out, ")");
    out
}

} // verus!
