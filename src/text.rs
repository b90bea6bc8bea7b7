//! Character-level helpers: trimming, slugs and the escaping of metadata values.

use vstd::prelude::*;
use vstd::string::*;

verus! {

/// What `char::is_whitespace` answers for `c`.
pub uninterp spec fn whitespace(c: char) -> bool;

/// What `str::to_lowercase` returns for `s`.
pub uninterp spec fn lower_of(s: Seq<char>) -> Seq<char>;

/// Relies on `char::is_whitespace`: whether `c` has the Unicode White_Space property.
#[verifier::external_body]
pub(crate) fn is_space(c: char) -> (r: bool)
    ensures
        r == whitespace(c),
{
    c.is_whitespace()
}

/// Relies on `str::to_lowercase`: the lowercase mapping of each character; the
/// empty string stays empty.
#[verifier::external_body]
fn lowercase(s: &str) -> (r: String)
    ensures
        r@ == lower_of(s@),
        s@.len() == 0 ==> r@.len() == 0,
{
    s.to_lowercase()
}

/// Relies on `String::push`: `c` appended at the end.
#[verifier::external_body]
pub(crate) fn push_char(s: &mut String, c: char)
    ensures
        final(s)@ == old(s)@.push(c),
{
    s.push(c)
}

/// The characters of `s`, in order.
pub(crate) fn chars_of(s: &str) -> (r: Vec<char>)
    ensures
        r@ == s@,
{
    broadcast use vstd::string::group_string_axioms;

    let mut r: Vec<char> = Vec::new();
    for c in it: s.chars()
        invariant
            it.seq() == s@,
            r@ == s@.subrange(0, it.index() as int),
    {
        r.push(c);
    }
    assert(r@ =~= s@);
    r
}

/// A string holding `v[lo..hi]`.
pub(crate) fn string_of(v: &Vec<char>, lo: usize, hi: usize) -> (r: String)
    requires
        lo <= hi <= v@.len(),
    ensures
        r@ == v@.subrange(lo as int, hi as int),
{
    let mut r = String::new();
    let mut i: usize = lo;
    while i < hi
        invariant
            lo <= i <= hi,
            hi <= v@.len(),
            r@ == v@.subrange(lo as int, i as int),
        decreases hi - i,
    {
        push_char(&mut r, v[i]);
        assert(v@.subrange(lo as int, i + 1) =~= v@.subrange(lo as int, i as int).push(v@[i as int]));
        i = i + 1;
    }
    r
}

/// `s` without its leading whitespace.
pub open spec fn trim_start(s: Seq<char>) -> Seq<char>
    decreases s.len(),
{
    if s.len() > 0 && whitespace(s[0]) {
        trim_start(s.drop_first())
    } else {
        s
    }
}

/// `s` without its trailing whitespace.
pub open spec fn trim_end(s: Seq<char>) -> Seq<char>
    decreases s.len(),
{
    if s.len() > 0 && whitespace(s.last()) {
        trim_end(s.drop_last())
    } else {
        s
    }
}

/// `s` without leading or trailing whitespace.
pub open spec fn trim(s: Seq<char>) -> Seq<char> {
    trim_end(trim_start(s))
}

/// The bounds of `v[lo..hi]` without its leading and trailing whitespace.
pub(crate) fn trim_bounds(v: &Vec<char>, lo: usize, hi: usize) -> (r: (usize, usize))
    requires
        lo <= hi <= v@.len(),
    ensures
        lo <= r.0 <= r.1 <= hi,
        v@.subrange(r.0 as int, r.1 as int) == trim(v@.subrange(lo as int, hi as int)),
{
    let ghost s = v@.subrange(lo as int, hi as int);
    let mut a: usize = lo;
    while a < hi && is_space(v[a])
        invariant
            lo <= a <= hi,
            hi <= v@.len(),
            trim_start(s) == trim_start(v@.subrange(a as int, hi as int)),
        decreases hi - a,
    {
        assert(v@.subrange(a as int, hi as int).drop_first() =~= v@.subrange(a + 1, hi as int));
        a = a + 1;
    }
    let ghost t = v@.subrange(a as int, hi as int);
    assert(trim_start(s) == t);
    let mut b: usize = hi;
    while b > a && is_space(v[b - 1])
        invariant
            a <= b <= hi,
            hi <= v@.len(),
            t == v@.subrange(a as int, hi as int),
            trim_end(t) == trim_end(v@.subrange(a as int, b as int)),
        decreases b,
    {
        assert(v@.subrange(a as int, b as int).drop_last() =~= v@.subrange(a as int, b - 1));
        b = b - 1;
    }
    (a, b)
}

/// A copy of `s` without leading or trailing whitespace.
pub fn trimmed(s: &str) -> (r: String)
    ensures
        r@ == trim(s@),
{
    let v = chars_of(s);
    let (a, b) = trim_bounds(&v, 0, v.len());
    assert(v@.subrange(0, v@.len() as int) =~= v@);
    string_of(&v, a, b)
}

/// Whether `c` separates the words of a slug.
pub open spec fn is_slug_separator(c: char) -> bool {
    c == ' ' || c == '-' || c == '_'
}

/// The slug of already lowercased text: each run of separators becomes one
/// `-`, and separators before the first other character are dropped.
pub open spec fn slug(t: Seq<char>) -> Seq<char>
    decreases t.len(),
{
    if t.len() == 0 {
        Seq::empty()
    } else {
        let o = slug(t.drop_last());
        if is_slug_separator(t.last()) {
            if o.len() > 0 && o.last() != '-' {
                o.push('-')
            } else {
                o
            }
        } else {
            o.push(t.last())
        }
    }
}

/// A lowercase, dash-separated name for `input`: trimmed, lowercased, and with
/// each run of spaces, dashes and underscores collapsed into one dash.
pub fn slugify(input: &str) -> (r: String)
    ensures
        r@ == slug(lower_of(trim(input@))),
{
    let t = trimmed(input);
    let low = lowercase(t.as_str());
    let cs = chars_of(low.as_str());
    let mut out = String::new();
    let mut start = true;
    let mut prev_dash = false;
    let mut i: usize = 0;
    while i < cs.len()
        invariant
            i <= cs@.len(),
            cs@ == lower_of(trim(input@)),
            out@ == slug(cs@.subrange(0, i as int)),
            start == (out@.len() == 0),
            prev_dash == (out@.len() > 0 && out@.last() == '-'),
        decreases cs@.len() - i,
    {
        let ch = cs[i];
        assert(cs@.subrange(0, i + 1).drop_last() =~= cs@.subrange(0, i as int));
        if ch == ' ' || ch == '-' || ch == '_' {
            if !start && !prev_dash {
                push_char(&mut out, '-');
                prev_dash = true;
            }
        } else {
            push_char(&mut out, ch);
            start = false;
            prev_dash = false;
        }
        i = i + 1;
    }
    assert(cs@.subrange(0, cs@.len() as int) =~= cs@);
    out
}

/// How one character of a metadata value is written: a backslash, a newline
/// and a carriage return become two-character escapes.
pub open spec fn escape_char(c: char) -> Seq<char> {
    if c == '\\' {
        seq!['\\', '\\']
    } else if c == '\n' {
        seq!['\\', 'n']
    } else if c == '\r' {
        seq!['\\', 'r']
    } else {
        seq![c]
    }
}

/// A metadata value written on one line.
pub open spec fn escape(s: Seq<char>) -> Seq<char>
    decreases s.len(),
{
    if s.len() == 0 {
        Seq::empty()
    } else {
        escape_char(s[0]) + escape(s.drop_first())
    }
}

/// The character that an escape `\\c` stands for.
pub open spec fn unescape_char(c: char) -> char {
    if c == 'n' {
        '\n'
    } else if c == 'r' {
        '\r'
    } else {
        c
    }
}

/// A metadata value read back: a backslash and the character after it stand for
/// one character, and a lone backslash at the end stands for itself.
pub open spec fn unescape(t: Seq<char>) -> Seq<char>
    decreases t.len(),
{
    if t.len() == 0 {
        Seq::empty()
    } else if t[0] == '\\' {
        if t.len() == 1 {
            seq!['\\']
        } else {
            seq![unescape_char(t[1])] + unescape(t.subrange(2, t.len() as int))
        }
    } else {
        seq![t[0]] + unescape(t.drop_first())
    }
}

/// A slug never starts with a dash and never holds two dashes in a row.
pub proof fn lemma_slug_dashes(t: Seq<char>)
    ensures
        slug(t).len() > 0 ==> slug(t)[0] != '-',
        forall|i: int|
            0 <= i < slug(t).len() - 1 ==> !(#[trigger] slug(t)[i] == '-' && slug(t)[i + 1] == '-'),
    decreases t.len(),
{
    if t.len() > 0 {
        lemma_slug_dashes(t.drop_last());
    }
}

/// A written metadata value holds no newline and no carriage return, so it
/// stays on its line.
pub proof fn lemma_escape_one_line(s: Seq<char>)
    ensures
        forall|i: int| 0 <= i < escape(s).len() ==> escape(s)[i] != '\n' && escape(s)[i] != '\r',
    decreases s.len(),
{
    if s.len() > 0 {
        lemma_escape_one_line(s.drop_first());
        let e = escape(s);
        let h = escape_char(s[0]);
        let rest = escape(s.drop_first());
        assert forall|i: int| 0 <= i < e.len() implies e[i] != '\n' && e[i] != '\r' by {
            if i < h.len() {
                assert(e[i] == h[i]);
            } else {
                assert(e[i] == rest[i - h.len()]);
            }
        }
    }
}

/// Appends `t` to `out`.
pub(crate) fn push_all(out: &mut String, t: &str)
    ensures
        final(out)@ == old(out)@ + t@,
{
    out.append(t);
}

/// Writes `value` on one line: backslashes, newlines and carriage returns are escaped.
pub fn encode_meta_value(value: &str) -> (r: String)
    ensures
        r@ == escape(value@),
{
    let v = chars_of(value);
    let mut out = String::new();
    let mut i: usize = 0;
    assert(v@.subrange(0, v@.len() as int) =~= v@);
    assert(out@ + escape(v@) =~= escape(v@));
    while i < v.len()
        invariant
            i <= v@.len(),
            v@ == value@,
            out@ + escape(v@.subrange(i as int, v@.len() as int)) == escape(v@),
        decreases v@.len() - i,
    {
        let ghost rest = v@.subrange(i as int, v@.len() as int);
        assert(rest.drop_first() =~= v@.subrange(i + 1, v@.len() as int));
        let ghost before = out@;
        let ch = v[i];
        if ch == '\\' {
            push_char(&mut out, '\\');
            push_char(&mut out, '\\');
        } else if ch == '\n' {
            push_char(&mut out, '\\');
            push_char(&mut out, 'n');
        } else if ch == '\r' {
            push_char(&mut out, '\\');
            push_char(&mut out, 'r');
        } else {
            push_char(&mut out, ch);
        }
        assert(out@ =~= before + escape_char(ch));
        assert(out@ + escape(v@.subrange(i + 1, v@.len() as int)) =~= before + escape(rest));
        i = i + 1;
    }
    assert(v@.subrange(v@.len() as int, v@.len() as int) =~= Seq::<char>::empty());
    assert(out@ + Seq::<char>::empty() =~= out@);
    out
}

/// Reads back a value written by `encode_meta_value`.
pub fn decode_meta_value(value: &str) -> (r: String)
    ensures
        r@ == unescape(value@),
{
    let v = chars_of(value);
    let n = v.len();
    let mut out = String::new();
    let mut i: usize = 0;
    assert(v@.subrange(0, n as int) =~= v@);
    assert(out@ + unescape(v@) =~= unescape(v@));
    while i < n
        invariant
            i <= n,
            n == v@.len(),
            v@ == value@,
            out@ + unescape(v@.subrange(i as int, n as int)) == unescape(v@),
        decreases n - i,
    {
        let ghost rest = v@.subrange(i as int, n as int);
        let ghost before = out@;
        if v[i] == '\\' {
            if i + 1 < n {
                let c = v[i + 1];
                let d = if c == 'n' {
                    '\n'
                } else if c == 'r' {
                    '\r'
                } else {
                    c
                };
                push_char(&mut out, d);
                assert(rest.subrange(2, rest.len() as int) =~= v@.subrange(i + 2, n as int));
                assert(out@ + unescape(v@.subrange(i + 2, n as int)) =~= before + unescape(rest));
                i = i + 2;
            } else {
                push_char(&mut out, '\\');
                assert(out@ + unescape(v@.subrange(i + 1, n as int)) =~= before + unescape(rest));
                i = i + 1;
            }
        } else {
            push_char(&mut out, v[i]);
            assert(rest.drop_first() =~= v@.subrange(i + 1, n as int));
            assert(out@ + unescape(v@.subrange(i + 1, n as int)) =~= before + unescape(rest));
            i = i + 1;
        }
    }
    assert(unescape(v@.subrange(n as int, n as int)) =~= Seq::<char>::empty());
    assert(out@ + Seq::<char>::empty() =~= out@);
    out
}

/// Reading back a written metadata value gives the value itself.
pub proof fn lemma_meta_value_round_trip(s: Seq<char>)
    ensures
        unescape(escape(s)) == s,
    decreases s.len(),
{
    if s.len() > 0 {
        lemma_meta_value_round_trip(s.drop_first());
        let e = escape(s);
        let tail = escape(s.drop_first());
        let c = s[0];
        if c == '\\' || c == '\n' || c == '\r' {
            assert(e.subrange(2, e.len() as int) =~= tail);
        } else {
            assert(e.drop_first() =~= tail);
        }
        assert(unescape(e) =~= s);
    }
}

/// The lines of `s` from the line that starts at `c`, scanning from `p` on:
/// lines end at a newline, and a last line without one still counts.
pub open spec fn lines_at(s: Seq<char>, c: int, p: int) -> Seq<Seq<char>>
    decreases s.len() - p,
{
    if p >= s.len() {
        if c < s.len() {
            seq![s.subrange(c, s.len() as int)]
        } else {
            Seq::empty()
        }
    } else if s[p] == '\n' {
        seq![s.subrange(c, p)] + lines_at(s, p + 1, p + 1)
    } else {
        lines_at(s, c, p + 1)
    }
}

/// The lines of `s`, each without its newline.
pub open spec fn lines(s: Seq<char>) -> Seq<Seq<char>> {
    lines_at(s, 0, 0)
}

/// The end of the line of `v` that starts at `c`: the next newline, or the end.
pub(crate) fn line_end(v: &Vec<char>, c: usize) -> (b: usize)
    requires
        c < v@.len(),
    ensures
        c <= b <= v@.len(),
        b < v@.len() ==> v@[b as int] == '\n',
        forall|q: int| c <= q < b ==> v@[q] != '\n',
        lines_at(v@, c as int, c as int) == lines_at(v@, c as int, b as int),
{
    let mut b: usize = c;
    while b < v.len() && v[b] != '\n'
        invariant
            c <= b <= v@.len(),
            forall|q: int| c <= q < b ==> v@[q] != '\n',
            lines_at(v@, c as int, c as int) == lines_at(v@, c as int, b as int),
        decreases v@.len() - b,
    {
        b = b + 1;
    }
    b
}

/// Steps from the line of `v` that starts at `c` to the next one: `done` are the
/// lines read so far and `b` the end of the current line.
pub proof fn lemma_next_line(s: Seq<char>, done: Seq<Seq<char>>, c: int, b: int)
    requires
        0 <= c < s.len(),
        c <= b <= s.len(),
        b < s.len() ==> s[b] == '\n',
        lines(s) == done + lines_at(s, c, c),
        lines_at(s, c, c) == lines_at(s, c, b),
    ensures
        b < s.len() ==> lines(s) == done.push(s.subrange(c, b)) + lines_at(s, b + 1, b + 1),
        b == s.len() ==> lines(s) == done.push(s.subrange(c, b)),
        lines_at(s, s.len() as int, s.len() as int) == Seq::<Seq<char>>::empty(),
{
    if b < s.len() {
        assert(done + (seq![s.subrange(c, b)] + lines_at(s, b + 1, b + 1)) =~= done.push(
            s.subrange(c, b),
        ) + lines_at(s, b + 1, b + 1));
    } else {
        assert(done + seq![s.subrange(c, b)] =~= done.push(s.subrange(c, b)));
    }
}

/// Whether `t` begins with `p`.
pub open spec fn starts_with(t: Seq<char>, p: Seq<char>) -> bool {
    p.len() <= t.len() && t.subrange(0, p.len() as int) == p
}

/// Whether `v[lo..hi]` begins with `p`.
pub(crate) fn has_prefix(v: &Vec<char>, lo: usize, hi: usize, p: &str) -> (r: bool)
    requires
        lo <= hi <= v@.len(),
    ensures
        r == starts_with(v@.subrange(lo as int, hi as int), p@),
{
    let pv = chars_of(p);
    if pv.len() > hi - lo {
        return false;
    }
    let mut k: usize = 0;
    while k < pv.len()
        invariant
            k <= pv@.len(),
            pv@ == p@,
            lo + pv@.len() <= hi <= v@.len(),
            forall|q: int| 0 <= q < k ==> v@[lo + q] == pv@[q],
        decreases pv@.len() - k,
    {
        if v[lo + k] != pv[k] {
            assert(v@.subrange(lo as int, hi as int)[k as int] != p@[k as int]);
            return false;
        }
        k = k + 1;
    }
    assert(v@.subrange(lo as int, hi as int).subrange(0, p@.len() as int) =~= p@);
    true
}

/// Whether `v[lo..hi]` is `p`.
pub(crate) fn range_is(v: &Vec<char>, lo: usize, hi: usize, p: &str) -> (r: bool)
    requires
        lo <= hi <= v@.len(),
    ensures
        r == (v@.subrange(lo as int, hi as int) == p@),
{
    let pv = chars_of(p);
    if pv.len() != hi - lo {
        assert(v@.subrange(lo as int, hi as int).len() != p@.len());
        return false;
    }
    let r = has_prefix(v, lo, hi, p);
    assert(v@.subrange(lo as int, hi as int).subrange(0, p@.len() as int) =~= v@.subrange(
        lo as int,
        hi as int,
    ));
    r
}

/// Index of the first `c` in `t` at or after `k`, or -1.
pub open spec fn find_from(t: Seq<char>, c: char, k: int) -> int
    decreases t.len() - k,
{
    if k >= t.len() || k < 0 {
        -1
    } else if t[k] == c {
        k
    } else {
        find_from(t, c, k + 1)
    }
}

/// Index of the first `c` in `t`, or -1.
pub open spec fn find(t: Seq<char>, c: char) -> int {
    find_from(t, c, 0)
}

/// Index in `v` of the first `c` in `v[lo..hi]`, if there is one.
pub(crate) fn find_char(v: &Vec<char>, lo: usize, hi: usize, c: char) -> (r: Option<usize>)
    requires
        lo <= hi <= v@.len(),
    ensures
        match r {
            Some(k) => lo <= k < hi && k - lo == find(v@.subrange(lo as int, hi as int), c),
            None => find(v@.subrange(lo as int, hi as int), c) == -1,
        },
{
    let ghost t = v@.subrange(lo as int, hi as int);
    let mut k: usize = lo;
    while k < hi
        invariant
            lo <= k <= hi,
            hi <= v@.len(),
            t == v@.subrange(lo as int, hi as int),
            find(t, c) == find_from(t, c, k - lo),
        decreases hi - k,
    {
        if v[k] == c {
            return Some(k);
        }
        k = k + 1;
    }
    None
}

} // verus!
