//! Config-text surgery for applying a theme: dropping the color-related
//! lines of an existing config and splicing a theme's raw config in.
//! Reading and writing the config file itself stays outside.

use vstd::prelude::*;

verus! {

/// Whether `c` is whitespace as line trimming sees it.
pub open spec fn spec_is_ws(c: char) -> bool {
    c == ' ' || c == '\t' || c == '\n' || c == '\u{b}' || c == '\u{c}' || c == '\r'
}

/// `s` with leading whitespace removed.
pub open spec fn spec_trim_front(s: Seq<char>) -> Seq<char>
    decreases s.len(),
{
    if s.len() > 0 && spec_is_ws(s[0]) {
        spec_trim_front(s.skip(1))
    } else {
        s
    }
}

/// `s` with trailing whitespace removed.
pub open spec fn spec_trim_back(s: Seq<char>) -> Seq<char>
    decreases s.len(),
{
    if s.len() > 0 && spec_is_ws(s.last()) {
        spec_trim_back(s.drop_last())
    } else {
        s
    }
}

/// `s` with whitespace removed at both ends.
pub open spec fn spec_trim(s: Seq<char>) -> Seq<char> {
    spec_trim_back(spec_trim_front(s))
}

/// The part of `s` before its first `=`, or all of `s` without one.
pub open spec fn spec_before_eq(s: Seq<char>) -> Seq<char>
    decreases s.len(),
{
    if s.len() == 0 {
        s
    } else if s[0] == '=' {
        Seq::empty()
    } else {
        seq![s[0]] + spec_before_eq(s.skip(1))
    }
}

/// Whether `k` is one of the config keys that applying a theme replaces.
pub open spec fn spec_is_color_key(k: Seq<char>) -> bool {
    ||| k == "background"@
    ||| k == "foreground"@
    ||| k == "cursor-color"@
    ||| k == "cursor-text"@
    ||| k == "selection-background"@
    ||| k == "selection-foreground"@
    ||| k == "palette"@
    ||| k == "cursor-style"@
    ||| k == "background-opacity"@
}

/// Whether a config line survives the color filter: blank lines and
/// comments stay, and so does any line whose key (the trimmed part before
/// the first `=`) is not color-related.
pub open spec fn spec_line_kept(line: Seq<char>) -> bool {
    let t = spec_trim(line);
    t.len() == 0 || t[0] == '#' || !spec_is_color_key(spec_trim(spec_before_eq(t)))
}

/// The position of the first newline in `s`, or its length without one.
pub open spec fn spec_first_nl(s: Seq<char>) -> int
    decreases s.len(),
{
    if s.len() == 0 {
        0
    } else if s[0] == '\n' {
        0
    } else {
        1 + spec_first_nl(s.skip(1))
    }
}

/// A line with one trailing carriage return removed.
pub open spec fn spec_strip_cr(s: Seq<char>) -> Seq<char> {
    if s.len() > 0 && s.last() == '\r' {
        s.drop_last()
    } else {
        s
    }
}

/// The color filter folded over the lines of `s` from the left: each kept
/// line is emitted, kept lines after the first are preceded by a newline,
/// and `started` records whether a line has been kept yet.
pub open spec fn spec_filter_from(s: Seq<char>, started: bool) -> Seq<char>
    decreases s.len(),
    via spec_filter_from_decreases
{
    if s.len() == 0 {
        Seq::empty()
    } else {
        let k = spec_first_nl(s);
        let line = spec_strip_cr(s.take(k));
        let kept = spec_line_kept(line);
        let emitted: Seq<char> = if kept {
            (if started {
                seq!['\n']
            } else {
                Seq::empty()
            }) + line
        } else {
            Seq::empty()
        };
        if k == s.len() {
            emitted
        } else {
            emitted + spec_filter_from(s.skip(k + 1), started || kept)
        }
    }
}

/// `s` with its color-related config lines removed: the surviving lines,
/// joined by single newlines. Lines may end in `\r\n`; a trailing newline
/// does not produce a final empty line.
pub open spec fn spec_filter_colors(s: Seq<char>) -> Seq<char> {
    spec_filter_from(s, false)
}

/// `spec_first_nl` lies between zero and the length of its argument.
proof fn lemma_first_nl_bounds(s: Seq<char>)
    ensures
        0 <= spec_first_nl(s) <= s.len(),
    decreases s.len(),
{
    if s.len() > 0 && s[0] != '\n' {
        lemma_first_nl_bounds(s.skip(1));
    }
}

#[via_fn]
proof fn spec_filter_from_decreases(s: Seq<char>, started: bool) {
    lemma_first_nl_bounds(s);
}

/// `spec_first_nl` is the index it claims to be.
proof fn lemma_first_nl_char(s: Seq<char>, m: int)
    requires
        0 <= m <= s.len(),
        forall|j: int| 0 <= j < m ==> s[j] != '\n',
        m < s.len() ==> s[m] == '\n',
    ensures
        spec_first_nl(s) == m,
    decreases m,
{
    if m == 0 {
    } else {
        assert(s[0] != '\n');
        let u = s.skip(1);
        assert(forall|j: int| 0 <= j < m - 1 ==> u[j] == s[j + 1] && s[j + 1] != '\n');
        assert(m - 1 < u.len() ==> u[m - 1] == s[m]);
        lemma_first_nl_char(u, m - 1);
    }
}

/// `spec_trim_front` removes exactly the leading whitespace run.
proof fn lemma_trim_front_char(s: Seq<char>, a: int)
    requires
        0 <= a <= s.len(),
        forall|j: int| 0 <= j < a ==> spec_is_ws(s[j]),
        a < s.len() ==> !spec_is_ws(s[a]),
    ensures
        spec_trim_front(s) == s.skip(a),
    decreases a,
{
    if a == 0 {
        assert(s.skip(0) =~= s);
    } else {
        assert(spec_is_ws(s[0]));
        let u = s.skip(1);
        assert(forall|j: int| 0 <= j < a - 1 ==> u[j] == s[j + 1] && spec_is_ws(s[j + 1]));
        assert(a - 1 < u.len() ==> u[a - 1] == s[a]);
        lemma_trim_front_char(u, a - 1);
        assert(u.skip(a - 1) =~= s.skip(a));
    }
}

/// `spec_trim_back` removes exactly the trailing whitespace run.
proof fn lemma_trim_back_char(s: Seq<char>, b: int)
    requires
        0 <= b <= s.len(),
        forall|j: int| b <= j < s.len() ==> spec_is_ws(s[j]),
        b > 0 ==> !spec_is_ws(s[b - 1]),
    ensures
        spec_trim_back(s) == s.take(b),
    decreases s.len() - b,
{
    if b == s.len() {
        assert(s.take(b) =~= s);
        if s.len() > 0 {
            assert(!spec_is_ws(s.last()));
        }
    } else {
        assert(spec_is_ws(s.last()));
        let u = s.drop_last();
        assert(forall|j: int| b <= j < u.len() ==> u[j] == s[j]);
        lemma_trim_back_char(u, b);
        assert(u.take(b) =~= s.take(b));
    }
}

/// `spec_before_eq` is the prefix it claims to be.
proof fn lemma_before_eq_char(s: Seq<char>, m: int)
    requires
        0 <= m <= s.len(),
        forall|j: int| 0 <= j < m ==> s[j] != '=',
        m < s.len() ==> s[m] == '=',
    ensures
        spec_before_eq(s) == s.take(m),
    decreases m,
{
    if m == 0 {
        if s.len() == 0 {
            assert(s.take(0) =~= s);
        } else {
            assert(s[0] == '=');
            assert(s.take(0) =~= Seq::<char>::empty());
        }
    } else {
        assert(s[0] != '=');
        let u = s.skip(1);
        assert(forall|j: int| 0 <= j < m - 1 ==> u[j] == s[j + 1] && s[j + 1] != '=');
        assert(m - 1 < u.len() ==> u[m - 1] == s[m]);
        lemma_before_eq_char(u, m - 1);
        assert(seq![s[0]] + u.take(m - 1) =~= s.take(m));
    }
}

/// Whether `s[from..to]` equals the literal `lit`.
fn range_eq(s: &str, from: usize, to: usize, lit: &str) -> (r: bool)
    requires
        from <= to <= s@.len(),
    ensures
        r == (s@.subrange(from as int, to as int) == lit@),
{
    let m = lit.unicode_len();
    if to - from != m {
        proof {
            if s@.subrange(from as int, to as int) == lit@ {
                assert(s@.subrange(from as int, to as int).len() == lit@.len());
            }
        }
        return false;
    }
    let mut i: usize = 0;
    while i < m
        invariant
            i <= m,
            m == lit@.len(),
            from + m <= to <= s@.len(),
            to - from == m,
            forall|j: int| 0 <= j < i ==> s@[from + j] == lit@[j],
        decreases m - i,
    {
        if s.get_char(from + i) != lit.get_char(i) {
            proof {
                if s@.subrange(from as int, to as int) == lit@ {
                    assert(s@.subrange(from as int, to as int)[i as int] == lit@[i as int]);
                }
            }
            return false;
        }
        i = i + 1;
    }
    proof {
        assert(s@.subrange(from as int, to as int) =~= lit@);
    }
    true
}

fn is_ws_char(c: char) -> (r: bool)
    ensures
        r == spec_is_ws(c),
{
    c == ' ' || c == '\t' || c == '\n' || c == '\u{b}' || c == '\u{c}' || c == '\r'
}

/// Whether the line `s[lo..hi]` survives the color filter.
fn line_kept(s: &str, lo: usize, hi: usize) -> (r: bool)
    requires
        lo <= hi <= s@.len(),
    ensures
        r == spec_line_kept(s@.subrange(lo as int, hi as int)),
{
    let ghost line = s@.subrange(lo as int, hi as int);
    // Trim the front.
    let mut a = lo;
    while a < hi && is_ws_char(s.get_char(a))
        invariant
            lo <= a <= hi <= s@.len(),
            forall|j: int| lo <= j < a ==> spec_is_ws(s@[j]),
        decreases hi - a,
    {
        a = a + 1;
    }
    proof {
        assert(forall|j: int| 0 <= j < a - lo ==> line[j] == s@[lo + j]);
        assert(a - lo < line.len() ==> line[a - lo] == s@[a as int]);
        lemma_trim_front_char(line, a - lo);
    }
    let ghost u = line.skip(a - lo);
    if a == hi {
        assert(spec_trim(line).len() == 0);
        return true;
    }
    // Trim the back.
    let mut b = hi;
    while b > a && is_ws_char(s.get_char(b - 1))
        invariant
            lo <= a <= b <= hi <= s@.len(),
            forall|j: int| b <= j < hi ==> spec_is_ws(s@[j]),
        decreases b - a,
    {
        b = b - 1;
    }
    assert(b > a) by {
        assert(!spec_is_ws(s@[a as int]));
    }
    proof {
        assert(forall|j: int| 0 <= j < u.len() ==> u[j] == s@[a + j]);
        lemma_trim_back_char(u, b - a);
    }
    let ghost t = u.take(b - a);
    assert(t == spec_trim(line));
    assert(t.len() > 0);
    assert(t[0] == s@[a as int]);
    if s.get_char(a) == '#' {
        return true;
    }
    // The key: the trimmed part before the first '='.
    let mut e = a;
    while e < b && s.get_char(e) != '='
        invariant
            a <= e <= b <= s@.len(),
            forall|j: int| a <= j < e ==> s@[j] != '=',
        decreases b - e,
    {
        e = e + 1;
    }
    proof {
        assert(forall|j: int| 0 <= j < t.len() ==> t[j] == s@[a + j]);
        lemma_before_eq_char(t, e - a);
    }
    let ghost key0 = t.take(e - a);
    assert(key0 == spec_before_eq(t));
    assert(spec_trim_front(key0) == key0) by {
        if key0.len() > 0 {
            assert(key0[0] == t[0]);
            assert(!spec_is_ws(t[0]));
        }
    }
    let mut kb = e;
    while kb > a && is_ws_char(s.get_char(kb - 1))
        invariant
            a <= kb <= e <= s@.len(),
            forall|j: int| kb <= j < e ==> spec_is_ws(s@[j]),
        decreases kb - a,
    {
        kb = kb - 1;
    }
    proof {
        assert(forall|j: int| 0 <= j < key0.len() ==> key0[j] == s@[a + j]);
        lemma_trim_back_char(key0, kb - a);
        assert(key0.take(kb - a) =~= s@.subrange(a as int, kb as int));
    }
    let ghost key = spec_trim(spec_before_eq(t));
    assert(key == s@.subrange(a as int, kb as int));
    let is_color = range_eq(s, a, kb, "background") || range_eq(s, a, kb, "foreground")
        || range_eq(s, a, kb, "cursor-color") || range_eq(s, a, kb, "cursor-text") || range_eq(
        s,
        a,
        kb,
        "selection-background",
    ) || range_eq(s, a, kb, "selection-foreground") || range_eq(s, a, kb, "palette") || range_eq(
        s,
        a,
        kb,
        "cursor-style",
    ) || range_eq(s, a, kb, "background-opacity");
    !is_color
}

/// Filter color-related config lines out of `content`, keeping comments,
/// blank lines and every other key, and joining what remains with single
/// newlines.
pub fn filter_color_keys(content: &str) -> (r: String)
    ensures
        r@ == spec_filter_colors(content@),
{
    let n = content.unicode_len();
    let mut out = String::new();
    let mut started = false;
    let mut i: usize = 0;
    proof {
        assert(content@.skip(0) =~= content@);
    }
    while i < n
        invariant
            i <= n,
            n == content@.len(),
            out@ + spec_filter_from(content@.skip(i as int), started) == spec_filter_colors(
                content@,
            ),
        decreases n - i,
    {
        let ghost rest = content@.skip(i as int);
        // Find the end of the current line.
        let mut k = i;
        while k < n && content.get_char(k) != '\n'
            invariant
                i <= k <= n,
                n == content@.len(),
                forall|j: int| i <= j < k ==> content@[j] != '\n',
            decreases n - k,
        {
            k = k + 1;
        }
        proof {
            assert(forall|j: int| 0 <= j < k - i ==> rest[j] == content@[i + j]);
            assert(k - i < rest.len() ==> rest[k - i] == content@[k as int]);
            lemma_first_nl_char(rest, k - i);
        }
        let hi = if k > i && content.get_char(k - 1) == '\r' {
            k - 1
        } else {
            k
        };
        proof {
            assert(rest.take(k - i) =~= content@.subrange(i as int, k as int));
            assert(spec_strip_cr(rest.take(k - i)) =~= content@.subrange(i as int, hi as int));
        }
        let kept = line_kept(content, i, hi);
        if kept {
            proof {
                reveal_strlit("\n");
            }
            if started {
                out.append("\n");
            }
            let line = content.substring_char(i, hi);
            out.append(line);
        }
        proof {
            if k < n {
                assert(rest.skip(k - i + 1) =~= content@.skip(k as int + 1));
            }
            assert(out@ + spec_filter_from(content@.skip(if k < n {
                k as int + 1
            } else {
                n as int
            }), started || kept) =~= spec_filter_colors(content@));
        }
        started = started || kept;
        if k == n {
            i = n;
            proof {
                assert(spec_filter_from(content@.skip(n as int), started) =~= Seq::<
                    char,
                >::empty());
            }
        } else {
            i = k + 1;
        }
    }
    proof {
        assert(content@.skip(n as int) =~= Seq::<char>::empty());
    }
    out
}


/// The config text that applying a theme writes: the existing text with
/// color lines filtered out, a newline to close it when one is missing, a
/// comment naming the theme, the theme's raw config, and a final newline
/// when the raw config does not end in one.
pub open spec fn spec_merged_config(existing: Seq<char>, title: Seq<char>, raw: Seq<char>)
    -> Seq<char> {
    let filtered = spec_filter_colors(existing);
    let base = if filtered.len() > 0 && filtered.last() != '\n' {
        filtered + "\n"@
    } else {
        filtered
    };
    let with_header = base + "\n# Theme: "@ + title + "\n"@ + raw;
    if with_header.last() != '\n' {
        with_header + "\n"@
    } else {
        with_header
    }
}

/// Splice a theme into an existing config text: filter the color-related
/// lines out, then append a comment naming the theme and the theme's raw
/// config, newline-terminated.
pub fn merge_theme_config(existing: &str, title: &str, raw_config: &str) -> (r: String)
    ensures
        r@ == spec_merged_config(existing@, title@, raw_config@),
{
    proof {
        reveal_strlit("\n");
        reveal_strlit("\n# Theme: ");
    }
    let mut out = filter_color_keys(existing);
    let n = out.as_str().unicode_len();
    if n > 0 && out.as_str().get_char(n - 1) != '\n' {
        out.append("\n");
    }
    out.append("\n# Theme: ");
    out.append(title);
    out.append("\n");
    out.append(raw_config);
    let m = out.as_str().unicode_len();
    if out.as_str().get_char(m - 1) != '\n' {
        out.append("\n");
    }
    assert(out@ =~= spec_merged_config(existing@, title@, raw_config@));
    out
}

} // verus!
