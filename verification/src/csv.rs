//! Identifier extraction from comma-separated rows.
//!
//! Both identifier list sources — the remote ranking list and a local
//! file — are plain text: one row per line, fields separated by commas,
//! one 1-indexed column holding the identifiers. [`parse_csv_text`]
//! extracts that column. Per line: the line is trimmed, split on commas,
//! skipped when it has fewer fields than the requested column or is a
//! single empty field (a trailing blank line), and the selected field is
//! trimmed of surrounding whitespace. Extraction is deterministic and
//! keeps the line order.

use vstd::prelude::*;

verus! {

/// Whitespace that trimming removes.
pub open spec fn is_ws(c: char) -> bool {
    c == ' ' || c == '\t' || c == '\r' || c == '\n'
}

/// The index of the first `sep` in `s`, or `s.len()` if there is none.
pub open spec fn find_sep(s: Seq<char>, sep: char) -> int
    decreases s.len(),
{
    if s.len() == 0 {
        0
    } else if s[0] == sep {
        0
    } else {
        1 + find_sep(s.drop_first(), sep)
    }
}

/// How many times `sep` occurs in `s`.
pub open spec fn count_sep(s: Seq<char>, sep: char) -> int
    decreases s.len(),
{
    if s.len() == 0 {
        0
    } else if s[0] == sep {
        1 + count_sep(s.drop_first(), sep)
    } else {
        count_sep(s.drop_first(), sep)
    }
}

/// How many fields splitting `s` on commas yields.
pub open spec fn num_fields(s: Seq<char>) -> int {
    count_sep(s, ',') + 1
}

pub proof fn lemma_find_sep_bounds(s: Seq<char>, sep: char)
    ensures
        0 <= find_sep(s, sep) <= s.len(),
        forall|j: int| 0 <= j < find_sep(s, sep) ==> s[j] != sep,
        find_sep(s, sep) < s.len() ==> s[find_sep(s, sep)] == sep,
    decreases s.len(),
{
    if s.len() == 0 {
    } else if s[0] == sep {
    } else {
        lemma_find_sep_bounds(s.drop_first(), sep);
        assert forall|j: int| 0 <= j < find_sep(s, sep) implies s[j] != sep by {
            if j > 0 {
                assert(s.drop_first()[j - 1] == s[j]);
            }
        }
    }
}

/// An index with the first-occurrence properties is the first occurrence.
pub proof fn lemma_find_sep_is(s: Seq<char>, sep: char, i: int)
    requires
        0 <= i <= s.len(),
        forall|j: int| 0 <= j < i ==> s[j] != sep,
        i < s.len() ==> s[i] == sep,
    ensures
        find_sep(s, sep) == i,
    decreases s.len(),
{
    if s.len() == 0 {
    } else if s[0] == sep {
        assert(i == 0);
    } else {
        assert(i >= 1);
        assert forall|j: int| 0 <= j < i - 1 implies s.drop_first()[j] != sep by {
            assert(s.drop_first()[j] == s[j + 1]);
        }
        lemma_find_sep_is(s.drop_first(), sep, i - 1);
    }
}

pub proof fn lemma_count_sep_nonneg(s: Seq<char>, sep: char)
    ensures
        count_sep(s, sep) >= 0,
    decreases s.len(),
{
    if s.len() > 0 {
        lemma_count_sep_nonneg(s.drop_first(), sep);
    }
}

/// Splitting at the first occurrence accounts for every occurrence.
pub proof fn lemma_count_sep_split(s: Seq<char>, sep: char)
    ensures
        find_sep(s, sep) < s.len() ==> count_sep(s, sep) == 1 + count_sep(
            s.skip(find_sep(s, sep) + 1),
            sep,
        ),
        find_sep(s, sep) == s.len() ==> count_sep(s, sep) == 0,
    decreases s.len(),
{
    lemma_find_sep_bounds(s, sep);
    if s.len() == 0 {
    } else if s[0] == sep {
        assert(s.skip(1) =~= s.drop_first());
    } else {
        lemma_count_sep_split(s.drop_first(), sep);
        lemma_find_sep_bounds(s.drop_first(), sep);
        let i = find_sep(s, sep);
        if i < s.len() {
            assert(s.drop_first().skip(i) =~= s.skip(i + 1));
        }
    }
}

/// The `k`-th (0-indexed) comma-separated field of `s`, or `None` when
/// `s` has at most `k` fields.
pub open spec fn nth_field(s: Seq<char>, k: nat) -> Option<Seq<char>>
    decreases k,
{
    let i = find_sep(s, ',');
    if k == 0 {
        Some(s.take(i))
    } else if i == s.len() {
        None
    } else {
        nth_field(s.skip(i + 1), (k - 1) as nat)
    }
}

/// A field is missing exactly when the split has too few fields.
pub proof fn lemma_nth_field_none(s: Seq<char>, k: nat)
    ensures
        nth_field(s, k) is None <==> k >= num_fields(s),
    decreases k,
{
    lemma_find_sep_bounds(s, ',');
    lemma_count_sep_split(s, ',');
    lemma_count_sep_nonneg(s, ',');
    let i = find_sep(s, ',');
    if k == 0 {
    } else if i == s.len() {
    } else {
        lemma_nth_field_none(s.skip(i + 1), (k - 1) as nat);
    }
}

/// `s` with leading whitespace removed.
pub open spec fn drop_leading_ws(s: Seq<char>) -> Seq<char>
    decreases s.len(),
{
    if s.len() > 0 && is_ws(s[0]) {
        drop_leading_ws(s.drop_first())
    } else {
        s
    }
}

/// `s` with trailing whitespace removed.
pub open spec fn drop_trailing_ws(s: Seq<char>) -> Seq<char>
    decreases s.len(),
{
    if s.len() > 0 && is_ws(s.last()) {
        drop_trailing_ws(s.drop_last())
    } else {
        s
    }
}

/// `s` with surrounding whitespace removed.
pub open spec fn trim_spec(s: Seq<char>) -> Seq<char> {
    drop_trailing_ws(drop_leading_ws(s))
}

proof fn lemma_drop_leading_is(s: Seq<char>, a: int)
    requires
        0 <= a <= s.len(),
        forall|j: int| 0 <= j < a ==> is_ws(s[j]),
        a < s.len() ==> !is_ws(s[a]),
    ensures
        drop_leading_ws(s) == s.skip(a),
    decreases s.len(),
{
    if s.len() == 0 {
        assert(s.skip(0) =~= s);
    } else if is_ws(s[0]) {
        assert(a >= 1);
        assert forall|j: int| 0 <= j < a - 1 implies is_ws(s.drop_first()[j]) by {
            assert(s.drop_first()[j] == s[j + 1]);
        }
        lemma_drop_leading_is(s.drop_first(), a - 1);
        assert(s.drop_first().skip(a - 1) =~= s.skip(a));
    } else {
        assert(a == 0);
        assert(s.skip(0) =~= s);
    }
}

proof fn lemma_drop_trailing_is(s: Seq<char>, b: int)
    requires
        0 <= b <= s.len(),
        forall|j: int| b <= j < s.len() ==> is_ws(s[j]),
        b > 0 ==> !is_ws(s[b - 1]),
    ensures
        drop_trailing_ws(s) == s.take(b),
    decreases s.len(),
{
    if s.len() == 0 {
        assert(s.take(0) =~= s);
    } else if is_ws(s.last()) {
        assert(b < s.len());
        lemma_drop_trailing_is(s.drop_last(), b);
        assert(s.drop_last().take(b) =~= s.take(b));
    } else {
        assert(b == s.len());
        assert(s.take(b) =~= s);
    }
}

/// Trimming keeps exactly the range `[a, b)` found by scanning
/// whitespace from both ends.
pub proof fn lemma_trim_is(s: Seq<char>, a: int, b: int)
    requires
        0 <= a <= b <= s.len(),
        forall|j: int| 0 <= j < a ==> is_ws(s[j]),
        forall|j: int| b <= j < s.len() ==> is_ws(s[j]),
        a < b ==> !is_ws(s[a]) && !is_ws(s[b - 1]),
        a == b ==> b == s.len(),
    ensures
        trim_spec(s) == s.subrange(a, b),
    decreases s.len(),
{
    lemma_drop_leading_is(s, a);
    let t = s.skip(a);
    assert forall|j: int| b - a <= j < t.len() implies is_ws(t[j]) by {
        assert(t[j] == s[a + j]);
    }
    lemma_drop_trailing_is(t, b - a);
    assert(t.take(b - a) =~= s.subrange(a, b));
}

/// The identifier one line yields, if any: the line is trimmed; a blank
/// line or one with at most `fidx` fields yields nothing; otherwise the
/// field at `fidx` is trimmed and yielded.
pub open spec fn extract_field(line: Seq<char>, fidx: nat) -> Option<Seq<char>> {
    let t = trim_spec(line);
    if t.len() == 0 {
        None
    } else {
        match nth_field(t, fidx) {
            Some(f) => Some(trim_spec(f)),
            None => None,
        }
    }
}

pub open spec fn opt_to_seq(o: Option<Seq<char>>) -> Seq<Seq<char>> {
    match o {
        Some(s) => seq![s],
        None => Seq::empty(),
    }
}

/// The identifiers the whole text yields, line by line, in line order.
pub open spec fn extract_lines(s: Seq<char>, fidx: nat) -> Seq<Seq<char>>
    decreases s.len(),
    via extract_lines_dec
{
    let i = find_sep(s, '\n');
    if i == s.len() {
        opt_to_seq(extract_field(s, fidx))
    } else {
        opt_to_seq(extract_field(s.take(i), fidx)) + extract_lines(s.skip(i + 1), fidx)
    }
}

#[via_fn]
proof fn extract_lines_dec(s: Seq<char>, fidx: nat) {
    lemma_find_sep_bounds(s, '\n');
}

/// Splitting around an explicit separator: the first separator of
/// `a + sep + b` is `a`'s first separator, or the seam when `a` has none.
proof fn lemma_find_sep_append(a: Seq<char>, b: Seq<char>, sep: char)
    ensures
        find_sep(a + seq![sep] + b, sep) == if find_sep(a, sep) < a.len() {
            find_sep(a, sep)
        } else {
            a.len() as int
        },
{
    lemma_find_sep_bounds(a, sep);
    let s = a + seq![sep] + b;
    let i = find_sep(a, sep);
    if i < a.len() {
        assert forall|j: int| 0 <= j < i implies s[j] != sep by {
            assert(s[j] == a[j]);
        }
        assert(s[i] == a[i]);
        lemma_find_sep_is(s, sep, i);
    } else {
        assert forall|j: int| 0 <= j < a.len() implies s[j] != sep by {
            assert(s[j] == a[j]);
        }
        assert(s[a.len() as int] == sep);
        lemma_find_sep_is(s, sep, a.len() as int);
    }
}

/// Law: extraction keeps line order and treats lines independently —
/// the identifiers of two texts joined by a line break are the first
/// text's identifiers followed by the second's.
pub proof fn lemma_extract_lines_append(a: Seq<char>, b: Seq<char>, fidx: nat)
    ensures
        extract_lines(a + seq!['\n'] + b, fidx) == extract_lines(a, fidx) + extract_lines(
            b,
            fidx,
        ),
    decreases a.len(),
{
    lemma_find_sep_bounds(a, '\n');
    lemma_find_sep_append(a, b, '\n');
    let s = a + seq!['\n'] + b;
    let i = find_sep(a, '\n');
    if i < a.len() {
        assert(s.take(i) =~= a.take(i));
        assert(s.skip(i + 1) =~= a.skip(i + 1) + seq!['\n'] + b);
        lemma_extract_lines_append(a.skip(i + 1), b, fidx);
        let front = opt_to_seq(extract_field(a.take(i), fidx));
        assert(front + (extract_lines(a.skip(i + 1), fidx) + extract_lines(b, fidx))
            =~= (front + extract_lines(a.skip(i + 1), fidx)) + extract_lines(b, fidx));
    } else {
        assert(s.take(a.len() as int) =~= a);
        assert(s.skip(a.len() as int + 1) =~= b);
        assert(find_sep(s, '\n') == a.len() as int);
        assert(a.len() < s.len());
    }
}

/// Law: a trailing line break, and the blank line after it, add no
/// identifier.
pub proof fn lemma_trailing_newline_ignored(a: Seq<char>, fidx: nat)
    ensures
        extract_lines(a + seq!['\n'], fidx) == extract_lines(a, fidx),
{
    lemma_extract_lines_append(a, Seq::empty(), fidx);
    assert(a + seq!['\n'] + Seq::<char>::empty() =~= a + seq!['\n']);
    lemma_blank_line_excluded(Seq::empty(), fidx);
    assert(extract_lines(Seq::<char>::empty(), fidx) =~= Seq::<Seq<char>>::empty());
    assert(extract_lines(a, fidx) + Seq::<Seq<char>>::empty() =~= extract_lines(a, fidx));
}

/// Law: a line of nothing but whitespace yields no identifier.
pub proof fn lemma_blank_line_excluded(line: Seq<char>, fidx: nat)
    requires
        forall|j: int| 0 <= j < line.len() ==> is_ws(line[j]),
    ensures
        extract_field(line, fidx) is None,
{
    lemma_trim_is(line, line.len() as int, line.len() as int);
}

/// Law: a line with no more than `fidx` comma-separated fields yields no
/// identifier.
pub proof fn lemma_short_line_excluded(line: Seq<char>, fidx: nat)
    requires
        fidx >= num_fields(trim_spec(line)),
    ensures
        extract_field(line, fidx) is None,
{
    lemma_nth_field_none(trim_spec(line), fidx);
}

/// Exec twin of [`is_ws`].
fn ws_char(c: char) -> (b: bool)
    ensures
        b == is_ws(c),
{
    c == ' ' || c == '\t' || c == '\r' || c == '\n'
}

/// The index of the first `sep` in `text[from..to]`, or `to` if none.
#[verifier::loop_isolation(false)]
fn find_in_range(text: &str, from: usize, to: usize, sep: char) -> (e: usize)
    requires
        from <= to <= text@.len(),
    ensures
        from <= e <= to,
        forall|j: int| from <= j < e ==> text@[j] != sep,
        e < to ==> text@[e as int] == sep,
{
    let mut i = from;
    while i < to
        invariant
            from <= i <= to,
            to <= text@.len(),
            forall|j: int| from <= j < i ==> text@[j] != sep,
        decreases to - i,
    {
        if text.get_char(i) == sep {
            return i;
        }
        i = i + 1;
    }
    i
}

/// Extracts the identifier, if any, that the line `text[ls..le]` yields
/// for the 0-indexed column `fidx`.
#[verifier::loop_isolation(false)]
fn extract_field_exec(text: &str, ls: usize, le: usize, fidx: usize) -> (r: Option<String>)
    requires
        ls <= le <= text@.len(),
    ensures
        r is Some <==> extract_field(text@.subrange(ls as int, le as int), fidx as nat)
            is Some,
        r matches Some(x) ==> Some(x@) == extract_field(
            text@.subrange(ls as int, le as int),
            fidx as nat,
        ),
{
    let ghost line = text@.subrange(ls as int, le as int);
    let mut a = ls;
    while a < le && ws_char(text.get_char(a))
        invariant
            ls <= a <= le,
            le <= text@.len(),
            forall|j: int| ls <= j < a ==> is_ws(text@[j]),
        decreases le - a,
    {
        a = a + 1;
    }
    if a == le {
        proof {
            assert forall|j: int| 0 <= j < line.len() implies is_ws(line[j]) by {
                assert(line[j] == text@[ls + j]);
            }
            lemma_blank_line_excluded(line, fidx as nat);
        }
        return None;
    }
    let mut b = le;
    while b > a && ws_char(text.get_char(b - 1))
        invariant
            a <= b <= le,
            le <= text@.len(),
            forall|j: int| b <= j < le ==> is_ws(text@[j]),
        decreases b,
    {
        b = b - 1;
    }
    proof {
        assert(b > a) by {
            if b == a {
                assert(is_ws(text@[a as int]));
            }
        }
        assert forall|j: int| 0 <= j < a - ls implies is_ws(line[j]) by {
            assert(line[j] == text@[ls + j]);
        }
        assert forall|j: int| b - ls <= j < line.len() implies is_ws(line[j]) by {
            assert(line[j] == text@[ls + j]);
        }
        lemma_trim_is(line, a - ls, b - ls);
        assert(line.subrange(a - ls, b - ls) =~= text@.subrange(a as int, b as int));
    }
    let ghost t = text@.subrange(a as int, b as int);
    let mut fstart = a;
    let mut k: usize = 0;
    while k < fidx
        invariant
            a <= fstart <= b,
            b <= le <= text@.len(),
            k <= fidx,
            t == text@.subrange(a as int, b as int),
            t == trim_spec(line),
            t.len() > 0,
            nth_field(t, fidx as nat) == nth_field(
                text@.subrange(fstart as int, b as int),
                (fidx - k) as nat,
            ),
        decreases fidx - k,
    {
        let c = find_in_range(text, fstart, b, ',');
        let ghost seg = text@.subrange(fstart as int, b as int);
        proof {
            assert forall|j: int| 0 <= j < c - fstart implies seg[j] != ',' by {
                assert(seg[j] == text@[fstart + j]);
            }
            lemma_find_sep_is(seg, ',', c - fstart);
        }
        if c == b {
            proof {
                assert(find_sep(seg, ',') == seg.len());
                assert(nth_field(seg, (fidx - k) as nat) is None);
                assert(nth_field(t, fidx as nat) is None);
                assert(extract_field(line, fidx as nat) is None);
            }
            return None;
        }
        proof {
            assert(seg.skip(c - fstart + 1) =~= text@.subrange(c + 1, b as int));
        }
        fstart = c + 1;
        k = k + 1;
    }
    let fend = find_in_range(text, fstart, b, ',');
    let ghost seg = text@.subrange(fstart as int, b as int);
    let ghost fld = text@.subrange(fstart as int, fend as int);
    proof {
        assert forall|j: int| 0 <= j < fend - fstart implies seg[j] != ',' by {
            assert(seg[j] == text@[fstart + j]);
        }
        lemma_find_sep_is(seg, ',', fend - fstart);
        assert(seg.take(fend - fstart) =~= fld);
        assert(nth_field(t, fidx as nat) == Some(fld));
    }
    let mut fa = fstart;
    while fa < fend && ws_char(text.get_char(fa))
        invariant
            fstart <= fa <= fend,
            fend <= text@.len(),
            forall|j: int| fstart <= j < fa ==> is_ws(text@[j]),
        decreases fend - fa,
    {
        fa = fa + 1;
    }
    let mut fb = fend;
    while fb > fa && ws_char(text.get_char(fb - 1))
        invariant
            fa <= fb <= fend,
            fend <= text@.len(),
            forall|j: int| fb <= j < fend ==> is_ws(text@[j]),
        decreases fb,
    {
        fb = fb - 1;
    }
    proof {
        assert forall|j: int| 0 <= j < fa - fstart implies is_ws(fld[j]) by {
            assert(fld[j] == text@[fstart + j]);
        }
        assert forall|j: int| fb - fstart <= j < fld.len() implies is_ws(fld[j]) by {
            assert(fld[j] == text@[fstart + j]);
        }
        if fa == fend {
            assert(fa == fb);
            lemma_trim_is(fld, fld.len() as int, fld.len() as int);
            assert(fld.subrange(fld.len() as int, fld.len() as int) =~= text@.subrange(
                fa as int,
                fb as int,
            ));
        } else {
            assert(fb > fa) by {
                if fb == fa {
                    assert(is_ws(text@[fa as int]));
                }
            }
            lemma_trim_is(fld, fa - fstart, fb - fstart);
            assert(fld.subrange(fa - fstart, fb - fstart) =~= text@.subrange(
                fa as int,
                fb as int,
            ));
        }
    }
    Some(text.substring_char(fa, fb).to_owned())
}

/// The views of a vector of strings.
pub open spec fn string_views(v: Seq<String>) -> Seq<Seq<char>> {
    v.map_values(|s: String| s@)
}

/// Extracts the 1-indexed column `field` from every comma-separated row
/// of `text`, in row order, exactly as [`extract_lines`] states: blank
/// rows and rows with fewer fields are skipped, extracted values are
/// trimmed of surrounding whitespace.
#[verifier::loop_isolation(false)]
pub fn parse_csv_text(text: &str, field: usize) -> (r: Vec<String>)
    requires
        field >= 1,
    ensures
        string_views(r@) == extract_lines(text@, (field - 1) as nat),
{
    let fidx = field - 1;
    let n = text.unicode_len();
    let ghost gfidx = (field - 1) as nat;
    let ghost full = extract_lines(text@, gfidx);
    let mut r: Vec<String> = Vec::new();
    let mut pos: usize = 0;
    let mut done = false;
    proof {
        assert(text@.skip(0) =~= text@);
        assert(string_views(r@) =~= Seq::<Seq<char>>::empty());
    }
    while !done
        invariant
            n == text@.len(),
            fidx == field - 1,
            full == extract_lines(text@, gfidx),
            gfidx == fidx as nat,
            !done ==> pos <= n,
            !done ==> full == string_views(r@) + extract_lines(text@.skip(pos as int), gfidx),
            done ==> full == string_views(r@),
        decreases n - pos, (if done { 0int } else { 1int }),
    {
        let e = find_in_range(text, pos, n, '\n');
        let ghost rest = text@.skip(pos as int);
        let ghost line = text@.subrange(pos as int, e as int);
        proof {
            assert forall|j: int| 0 <= j < e - pos implies rest[j] != '\n' by {
                assert(rest[j] == text@[pos + j]);
            }
            lemma_find_sep_is(rest, '\n', e - pos);
            assert(rest.take(e - pos) =~= line);
            if e < n {
                assert(rest.skip(e - pos + 1) =~= text@.skip(e + 1));
            } else {
                assert(rest =~= line);
            }
        }
        let fld = extract_field_exec(text, pos, e, fidx);
        let ghost old_views = string_views(r@);
        let ghost opt = opt_to_seq(extract_field(line, gfidx));
        match fld {
            Some(s) => {
                let ghost sv = s@;
                r.push(s);
                proof {
                    assert(string_views(r@) =~= old_views + opt);
                }
            },
            None => {
                proof {
                    assert(old_views =~= old_views + opt);
                }
            },
        }
        if e == n {
            done = true;
        } else {
            proof {
                assert((old_views + opt) + extract_lines(text@.skip(e + 1), gfidx)
                    =~= old_views + (opt + extract_lines(text@.skip(e + 1), gfidx)));
            }
            pos = e + 1;
        }
    }
    r
}

} // verus!
