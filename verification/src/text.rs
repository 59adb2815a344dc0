//! Character-level text handling on `yt-dlp`'s output: whitespace, trimming,
//! line splitting, prefix and substring tests.

use vstd::prelude::*;
use vstd::string::StrSliceExecFns;

verus! {

/// The Unicode `White_Space` property, the set of characters that
/// `char::is_whitespace` accepts and that `str::trim` removes.
pub open spec fn is_white_space(c: char) -> bool {
    ||| '\u{9}' <= c <= '\u{d}'
    ||| c == ' '
    ||| c == '\u{85}'
    ||| c == '\u{a0}'
    ||| c == '\u{1680}'
    ||| '\u{2000}' <= c <= '\u{200a}'
    ||| c == '\u{2028}'
    ||| c == '\u{2029}'
    ||| c == '\u{202f}'
    ||| c == '\u{205f}'
    ||| c == '\u{3000}'
}

/// A text made of white space only (the empty text included): what
/// `s.trim().is_empty()` tests.
pub open spec fn is_blank(s: Seq<char>) -> bool {
    forall|i: int| 0 <= i < s.len() ==> is_white_space(#[trigger] s[i])
}

/// `s` without its leading white space.
pub open spec fn trim_start(s: Seq<char>) -> Seq<char>
    decreases s.len(),
{
    if s.len() > 0 && is_white_space(s[0]) {
        trim_start(s.drop_first())
    } else {
        s
    }
}

/// `s` without its trailing white space.
pub open spec fn trim_end(s: Seq<char>) -> Seq<char>
    decreases s.len(),
{
    if s.len() > 0 && is_white_space(s.last()) {
        trim_end(s.drop_last())
    } else {
        s
    }
}

/// `s` without its leading and trailing white space, as `str::trim` gives it.
pub open spec fn trim(s: Seq<char>) -> Seq<char> {
    trim_end(trim_start(s))
}

/// Whether `c` has the Unicode `White_Space` property.
pub fn is_white_space_char(c: char) -> (r: bool)
    ensures
        r == is_white_space(c),
{
    ('\u{9}' <= c && c <= '\u{d}') || c == ' ' || c == '\u{85}' || c == '\u{a0}'
        || c == '\u{1680}' || ('\u{2000}' <= c && c <= '\u{200a}') || c == '\u{2028}'
        || c == '\u{2029}' || c == '\u{202f}' || c == '\u{205f}' || c == '\u{3000}'
}

/// Removing leading white space removes exactly the first `k` characters when
/// those are white space and the next one is not.
pub proof fn lemma_trim_start_at(s: Seq<char>, k: int)
    requires
        0 <= k <= s.len(),
        forall|i: int| 0 <= i < k ==> is_white_space(#[trigger] s[i]),
        k == s.len() || !is_white_space(s[k]),
    ensures
        trim_start(s) == s.skip(k),
    decreases k,
{
    if k > 0 {
        let t = s.drop_first();
        assert forall|i: int| 0 <= i < k - 1 implies is_white_space(#[trigger] t[i]) by {
            assert(t[i] == s[i + 1]);
        }
        if k - 1 < t.len() {
            assert(t[k - 1] == s[k]);
        }
        lemma_trim_start_at(t, k - 1);
        assert(t.skip(k - 1) =~= s.skip(k));
    } else {
        assert(s.skip(0) =~= s);
    }
}

/// Removing trailing white space keeps exactly the first `m` characters when
/// the ones after them are white space and the one before is not.
pub proof fn lemma_trim_end_at(s: Seq<char>, m: int)
    requires
        0 <= m <= s.len(),
        forall|i: int| m <= i < s.len() ==> is_white_space(#[trigger] s[i]),
        m == 0 || !is_white_space(s[m - 1]),
    ensures
        trim_end(s) == s.take(m),
    decreases s.len() - m,
{
    if m < s.len() {
        let t = s.drop_last();
        assert forall|i: int| m <= i < t.len() implies is_white_space(#[trigger] t[i]) by {
            assert(t[i] == s[i]);
        }
        if m > 0 {
            assert(t[m - 1] == s[m - 1]);
        }
        lemma_trim_end_at(t, m);
        assert(t.take(m) =~= s.take(m));
    } else {
        assert(s.take(m) =~= s);
    }
}

/// A text is blank exactly when trimming it leaves nothing.
pub proof fn lemma_blank_iff_trim_empty(s: Seq<char>)
    ensures
        is_blank(s) <==> trim(s).len() == 0,
{
    if is_blank(s) {
        lemma_trim_start_at(s, s.len() as int);
        assert(trim_start(s).len() == 0);
    } else {
        let k = choose|k: int| 0 <= k < s.len() && !is_white_space(s[k]);
        let k0 = first_non_white(s, 0, k);
        lemma_trim_start_at(s, k0);
        let t = s.skip(k0);
        assert(t[0] == s[k0]);
        assert(trim_end(t).len() > 0) by {
            lemma_trim_end_nonempty(t);
        }
    }
}

/// The position of the first character at or after `from` that is not white
/// space, given that `k` is one such position.
proof fn first_non_white(s: Seq<char>, from: int, k: int) -> (r: int)
    requires
        0 <= from <= k < s.len(),
        !is_white_space(s[k]),
        forall|i: int| 0 <= i < from ==> is_white_space(#[trigger] s[i]),
    ensures
        from <= r <= k,
        !is_white_space(s[r]),
        forall|i: int| 0 <= i < r ==> is_white_space(#[trigger] s[i]),
    decreases k - from,
{
    if !is_white_space(s[from]) {
        from
    } else {
        first_non_white(s, from + 1, k)
    }
}

/// Trailing white space removal keeps a first character that is not white
/// space.
proof fn lemma_trim_end_nonempty(t: Seq<char>)
    requires
        t.len() > 0,
        !is_white_space(t[0]),
    ensures
        trim_end(t).len() > 0,
    decreases t.len(),
{
    if is_white_space(t.last()) {
        assert(t.len() > 1);
        let u = t.drop_last();
        assert(u[0] == t[0]);
        lemma_trim_end_nonempty(u);
    }
}

/// The characters of `s`, in order.
pub fn chars_of(s: &str) -> (v: Vec<char>)
    ensures
        v@ == s@,
{
    broadcast use vstd::string::group_string_axioms;
    let mut v: Vec<char> = Vec::new();
    for c in iter: s.chars()
        invariant
            iter.seq() == s@,
            v@ == iter.seq().take(iter.index()),
    {
        v.push(c);
    }
    v
}


/// Whether every character of `v[start..end]` is white space.
pub fn is_blank_range(v: &Vec<char>, start: usize, end: usize) -> (r: bool)
    requires
        start <= end <= v.len(),
    ensures
        r == is_blank(v@.subrange(start as int, end as int)),
{
    let ghost w = v@.subrange(start as int, end as int);
    let mut i = start;
    while i < end
        invariant
            start <= i <= end <= v.len(),
            w == v@.subrange(start as int, end as int),
            forall|j: int| 0 <= j < i - start ==> is_white_space(#[trigger] w[j]),
        decreases end - i,
    {
        if !is_white_space_char(v[i]) {
            assert(w[i - start] == v@[i as int]);
            return false;
        }
        assert(w[i - start] == v@[i as int]);
        i = i + 1;
    }
    true
}

/// The bounds of `v[start..end]` once its leading and trailing white space is
/// removed.
pub fn trim_range(v: &Vec<char>, start: usize, end: usize) -> (r: (usize, usize))
    requires
        start <= end <= v.len(),
    ensures
        start <= r.0 <= r.1 <= end,
        v@.subrange(r.0 as int, r.1 as int) == trim(v@.subrange(start as int, end as int)),
{
    let ghost w = v@.subrange(start as int, end as int);
    let mut a = start;
    while a < end && is_white_space_char(v[a])
        invariant
            start <= a <= end <= v.len(),
            w == v@.subrange(start as int, end as int),
            forall|j: int| 0 <= j < a - start ==> is_white_space(#[trigger] w[j]),
        decreases end - a,
    {
        assert(w[a - start] == v@[a as int]);
        a = a + 1;
    }
    if a < end {
        assert(w[a - start] == v@[a as int]);
    }
    proof {
        lemma_trim_start_at(w, a - start);
    }
    let ghost t = w.skip(a - start);
    assert(t =~= v@.subrange(a as int, end as int));
    let mut b = end;
    while b > a && is_white_space_char(v[b - 1])
        invariant
            start <= a <= b <= end <= v.len(),
            t == v@.subrange(a as int, end as int),
            forall|j: int| b - a <= j < t.len() ==> is_white_space(#[trigger] t[j]),
        decreases b - a,
    {
        assert(t[b - 1 - a] == v@[b - 1]);
        b = b - 1;
    }
    if b > a {
        assert(t[b - 1 - a] == v@[b - 1]);
    }
    proof {
        lemma_trim_end_at(t, b - a);
        assert(t.take(b - a) =~= v@.subrange(a as int, b as int));
    }
    (a, b)
}

/// `l` without one final carriage return.
pub open spec fn strip_cr(l: Seq<char>) -> Seq<char> {
    if l.len() > 0 && l.last() == '\r' {
        l.drop_last()
    } else {
        l
    }
}

/// Reading `s` from the start: the lines already ended by a `'\n'` (each
/// without its `"\n"` or `"\r\n"` terminator), and the text after the last
/// `'\n'`.
pub open spec fn split_lines(s: Seq<char>) -> (Seq<Seq<char>>, Seq<char>)
    decreases s.len(),
{
    if s.len() == 0 {
        (Seq::empty(), Seq::empty())
    } else {
        let (done, cur) = split_lines(s.drop_last());
        if s.last() == '\n' {
            (done.push(strip_cr(cur)), Seq::empty())
        } else {
            (done, cur.push(s.last()))
        }
    }
}

/// The lines of `s` as `str::lines` yields them: split at `"\n"` or `"\r\n"`,
/// terminators removed, a final line ending optional.
pub open spec fn lines(s: Seq<char>) -> Seq<Seq<char>> {
    let (done, cur) = split_lines(s);
    if cur.len() == 0 {
        done
    } else {
        done.push(cur)
    }
}

/// The bounds in `v` of each line of `v`.
pub fn line_ranges(v: &Vec<char>) -> (r: Vec<(usize, usize)>)
    ensures
        r.len() == lines(v@).len(),
        forall|k: int|
            0 <= k < r.len() ==> {
                &&& (#[trigger] r@[k]).0 <= r@[k].1 <= v.len()
                &&& v@.subrange(r@[k].0 as int, r@[k].1 as int) == lines(v@)[k]
            },
{
    let mut r: Vec<(usize, usize)> = Vec::new();
    let mut start: usize = 0;
    let mut i: usize = 0;
    let n = v.len();
    while i < n
        invariant
            n == v.len(),
            start <= i <= n,
            split_lines(v@.take(i as int)).1 == v@.subrange(start as int, i as int),
            split_lines(v@.take(i as int)).0.len() == r.len(),
            forall|k: int|
                0 <= k < r.len() ==> {
                    &&& (#[trigger] r@[k]).0 <= r@[k].1 <= n
                    &&& v@.subrange(r@[k].0 as int, r@[k].1 as int) == split_lines(
                        v@.take(i as int),
                    ).0[k]
                },
        decreases n - i,
    {
        let ghost before = split_lines(v@.take(i as int));
        assert(v@.take(i + 1).drop_last() =~= v@.take(i as int));
        assert(v@.take(i + 1).last() == v@[i as int]);
        if v[i] == '\n' {
            let end = if i > start && v[i - 1] == '\r' {
                i - 1
            } else {
                i
            };
            assert(strip_cr(v@.subrange(start as int, i as int)) =~= v@.subrange(
                start as int,
                end as int,
            ));
            r.push((start, end));
            start = i + 1;
            assert(v@.subrange(start as int, (i + 1) as int) =~= Seq::<char>::empty());
        } else {
            assert(v@.subrange(start as int, i as int).push(v@[i as int]) =~= v@.subrange(
                start as int,
                (i + 1) as int,
            ));
        }
        i = i + 1;
    }
    assert(v@.take(n as int) =~= v@);
    if start < n {
        r.push((start, n));
    }
    r
}


/// The first of `ls` that is not blank.
pub open spec fn first_nonblank(ls: Seq<Seq<char>>) -> Option<Seq<char>>
    decreases ls.len(),
{
    if ls.len() == 0 {
        None
    } else if !is_blank(ls[0]) {
        Some(ls[0])
    } else {
        first_nonblank(ls.drop_first())
    }
}

/// The last of `ls` that is not empty once trimmed, trimmed.
pub open spec fn last_nonempty_trimmed(ls: Seq<Seq<char>>) -> Option<Seq<char>>
    decreases ls.len(),
{
    if ls.len() == 0 {
        None
    } else if trim(ls.last()).len() > 0 {
        Some(trim(ls.last()))
    } else {
        last_nonempty_trimmed(ls.drop_last())
    }
}

/// The text view of an optional string.
pub open spec fn opt_view(o: Option<String>) -> Option<Seq<char>> {
    match o {
        Some(s) => Some(s@),
        None => None,
    }
}

/// The first line of `s` that is not blank, as
/// `s.lines().find(|l| !l.trim().is_empty())` gives it.
pub fn first_nonblank_line(s: &str) -> (r: Option<String>)
    ensures
        opt_view(r) == first_nonblank(lines(s@)),
{
    let v = chars_of(s);
    let ranges = line_ranges(&v);
    let ghost ls = lines(v@);
    let mut k: usize = 0;
    assert(ls.skip(0) =~= ls);
    while k < ranges.len()
        invariant
            v@ == s@,
            ls == lines(v@),
            ranges.len() == ls.len(),
            forall|j: int|
                0 <= j < ranges.len() ==> {
                    &&& (#[trigger] ranges@[j]).0 <= ranges@[j].1 <= v.len()
                    &&& v@.subrange(ranges@[j].0 as int, ranges@[j].1 as int) == ls[j]
                },
            k <= ranges.len(),
            first_nonblank(ls) == first_nonblank(ls.skip(k as int)),
        decreases ranges.len() - k,
    {
        let (a, b) = ranges[k];
        assert(ranges@[k as int] == (a, b));
        let ghost rest = ls.skip(k as int);
        assert(rest[0] == ls[k as int]);
        if !is_blank_range(&v, a, b) {
            let line = s.substring_char(a, b).to_owned();
            return Some(line);
        }
        assert(rest.drop_first() =~= ls.skip(k + 1));
        k = k + 1;
    }
    None
}

/// The last line of `s` that is not empty once trimmed, trimmed, as
/// `s.lines().map(str::trim).rfind(|l| !l.is_empty())` gives it.
pub fn last_nonempty_trimmed_line(s: &str) -> (r: Option<String>)
    ensures
        opt_view(r) == last_nonempty_trimmed(lines(s@)),
{
    let v = chars_of(s);
    let ranges = line_ranges(&v);
    let ghost ls = lines(v@);
    let mut k: usize = ranges.len();
    assert(ls.take(ls.len() as int) =~= ls);
    while k > 0
        invariant
            v@ == s@,
            ls == lines(v@),
            ranges.len() == ls.len(),
            forall|j: int|
                0 <= j < ranges.len() ==> {
                    &&& (#[trigger] ranges@[j]).0 <= ranges@[j].1 <= v.len()
                    &&& v@.subrange(ranges@[j].0 as int, ranges@[j].1 as int) == ls[j]
                },
            k <= ranges.len(),
            last_nonempty_trimmed(ls) == last_nonempty_trimmed(ls.take(k as int)),
        decreases k,
    {
        let (a, b) = ranges[k - 1];
        assert(ranges@[k - 1] == (a, b));
        let ghost pre = ls.take(k as int);
        assert(pre.last() == ls[k - 1]);
        let (x, y) = trim_range(&v, a, b);
        if x < y {
            let line = s.substring_char(x, y).to_owned();
            return Some(line);
        }
        assert(pre.drop_last() =~= ls.take(k - 1));
        k = k - 1;
    }
    None
}

/// `p` occurs in `s` as a run of consecutive characters.
pub open spec fn has_infix(s: Seq<char>, p: Seq<char>) -> bool {
    exists|i: int| 0 <= i && i + p.len() <= s.len() && #[trigger] s.subrange(i, i + p.len()) == p
}

/// Whether `p` occurs in `v` at position `i`.
fn occurs_at(v: &Vec<char>, p: &Vec<char>, i: usize) -> (r: bool)
    requires
        i + p.len() <= v.len(),
    ensures
        r == (v@.subrange(i as int, i + p.len()) == p@),
{
    let mut j: usize = 0;
    while j < p.len()
        invariant
            i + p.len() <= v.len(),
            j <= p.len(),
            forall|t: int| 0 <= t < j ==> v@[i + t] == p@[t],
        decreases p.len() - j,
    {
        if v[i + j] != p[j] {
            assert(v@.subrange(i as int, i + p.len())[j as int] != p@[j as int]);
            return false;
        }
        j = j + 1;
    }
    assert(v@.subrange(i as int, i + p.len()) =~= p@);
    true
}

/// Whether `p` occurs in `s`, as `s.contains(p)` tests.
pub fn str_contains(s: &str, p: &str) -> (r: bool)
    ensures
        r == has_infix(s@, p@),
{
    let v = chars_of(s);
    let w = chars_of(p);
    if w.len() > v.len() {
        return false;
    }
    if w.len() == 0 {
        assert(v@.subrange(0int, 0int + w@.len()) =~= w@);
        return true;
    }
    let last = v.len() - w.len();
    let mut i: usize = 0;
    while i <= last
        invariant
            v@ == s@,
            w@ == p@,
            last + w.len() == v.len(),
            w.len() > 0,
            i <= last + 1,
            forall|t: int| 0 <= t < i ==> #[trigger] v@.subrange(t, t + w.len()) != w@,
        decreases last + 1 - i,
    {
        if occurs_at(&v, &w, i) {
            return true;
        }
        i = i + 1;
    }
    false
}

/// Whether `s` begins with `p`, as `s.starts_with(p)` tests.
pub fn str_starts_with(s: &str, p: &str) -> (r: bool)
    ensures
        r == p@.is_prefix_of(s@),
{
    let v = chars_of(s);
    let w = chars_of(p);
    if w.len() > v.len() {
        return false;
    }
    let r = occurs_at(&v, &w, 0);
    assert(v@.subrange(0, w.len() as int) == s@.subrange(0, p@.len() as int));
    r
}


/// Splitting `s + t`, where `s` is empty or ends with a line ending, splits
/// `t` on its own after the lines of `s`.
pub proof fn lemma_split_lines_append(s: Seq<char>, t: Seq<char>)
    requires
        split_lines(s).1.len() == 0,
    ensures
        split_lines(s + t) == (split_lines(s).0 + split_lines(t).0, split_lines(t).1),
    decreases t.len(),
{
    if t.len() == 0 {
        assert(s + t =~= s);
        assert(split_lines(s).0 + split_lines(t).0 =~= split_lines(s).0);
        assert(split_lines(s).1 =~= split_lines(t).1);
    } else {
        lemma_split_lines_append(s, t.drop_last());
        assert((s + t).drop_last() =~= s + t.drop_last());
        assert((s + t).last() == t.last());
        let d = split_lines(s).0;
        let (e, c) = split_lines(t.drop_last());
        assert((d + e).push(strip_cr(c)) =~= d + e.push(strip_cr(c)));
    }
}

/// A first line that is not blank stays first when lines follow.
pub proof fn lemma_first_nonblank_append(a: Seq<Seq<char>>, b: Seq<Seq<char>>)
    requires
        first_nonblank(a) is Some,
    ensures
        first_nonblank(a + b) == first_nonblank(a),
    decreases a.len(),
{
    assert((a + b)[0] == a[0]);
    if is_blank(a[0]) {
        assert((a + b).drop_first() =~= a.drop_first() + b);
        lemma_first_nonblank_append(a.drop_first(), b);
    }
}

/// A blank line added at the end changes no first line that is not blank.
pub proof fn lemma_first_nonblank_push_blank(a: Seq<Seq<char>>, x: Seq<char>)
    requires
        is_blank(x),
    ensures
        first_nonblank(a.push(x)) == first_nonblank(a),
    decreases a.len(),
{
    if a.len() == 0 {
        assert(a.push(x)[0] == x);
        assert(a.push(x).drop_first() =~= Seq::<Seq<char>>::empty());
        assert(first_nonblank(a.push(x).drop_first()) is None);
    } else {
        assert(a.push(x)[0] == a[0]);
        assert(a.push(x).drop_first() =~= a.drop_first().push(x));
        lemma_first_nonblank_push_blank(a.drop_first(), x);
    }
}

/// Lines that are blank, added at the end, change no last line that is not
/// empty once trimmed.
pub proof fn lemma_last_nonempty_append_blank(a: Seq<Seq<char>>, b: Seq<Seq<char>>)
    requires
        forall|k: int| 0 <= k < b.len() ==> is_blank(#[trigger] b[k]),
    ensures
        last_nonempty_trimmed(a + b) == last_nonempty_trimmed(a),
    decreases b.len(),
{
    if b.len() == 0 {
        assert(a + b =~= a);
    } else {
        assert((a + b).last() == b.last());
        lemma_blank_iff_trim_empty(b.last());
        assert((a + b).drop_last() =~= a + b.drop_last());
        lemma_last_nonempty_append_blank(a, b.drop_last());
    }
}

/// Every line of a blank text is blank.
pub proof fn lemma_lines_of_blank(t: Seq<char>)
    requires
        is_blank(t),
    ensures
        forall|k: int| 0 <= k < lines(t).len() ==> is_blank(#[trigger] lines(t)[k]),
{
    lemma_split_lines_of_blank(t);
}

proof fn lemma_split_lines_of_blank(t: Seq<char>)
    requires
        is_blank(t),
    ensures
        forall|k: int|
            0 <= k < split_lines(t).0.len() ==> is_blank(#[trigger] split_lines(t).0[k]),
        is_blank(split_lines(t).1),
    decreases t.len(),
{
    if t.len() > 0 {
        let u = t.drop_last();
        assert(forall|i: int| 0 <= i < u.len() ==> u[i] == t[i]);
        lemma_split_lines_of_blank(u);
        let (d, c) = split_lines(u);
        assert(is_white_space(t[t.len() - 1]));
        assert(is_blank(strip_cr(c)));
        assert(is_blank(c.push(t.last())));
    }
}

/// Trimming ignores one final white space character.
pub proof fn lemma_trim_drop_last_white(c: Seq<char>)
    requires
        c.len() > 0,
        is_white_space(c.last()),
    ensures
        trim(c.drop_last()) == trim(c),
{
    let d = c.drop_last();
    if is_blank(d) {
        lemma_blank_iff_trim_empty(d);
        assert forall|i: int| 0 <= i < c.len() implies is_white_space(#[trigger] c[i]) by {
            if i < d.len() {
                assert(c[i] == d[i]);
            }
        }
        lemma_blank_iff_trim_empty(c);
        assert(trim(d) =~= trim(c));
    } else {
        let k = choose|k: int| 0 <= k < d.len() && !is_white_space(d[k]);
        let k0 = first_non_white(d, 0, k);
        lemma_trim_start_at(d, k0);
        assert(c[k0] == d[k0]);
        assert forall|i: int| 0 <= i < k0 implies is_white_space(#[trigger] c[i]) by {
            assert(c[i] == d[i]);
        }
        lemma_trim_start_at(c, k0);
        let x = c.skip(k0);
        assert(x.len() > 0 && x.last() == c.last());
        assert(x.drop_last() =~= d.skip(k0));
    }
}


/// The lines of `s + t`, where `s` ends with a line ending, are the lines of
/// `s` followed by the lines of `t`.
pub proof fn lemma_lines_append(s: Seq<char>, t: Seq<char>)
    requires
        s.len() > 0,
        s.last() == '\n',
    ensures
        lines(s + t) == lines(s) + lines(t),
{
    assert(split_lines(s).1.len() == 0);
    lemma_split_lines_append(s, t);
    let d = split_lines(s).0;
    let (e, c) = split_lines(t);
    if c.len() == 0 {
    } else {
        assert((d + e).push(c) =~= d + e.push(c));
    }
    assert(lines(s) =~= d);
}

/// The text after the last line ending of `s` is empty or ends with the last
/// character of `s`.
pub proof fn lemma_split_lines_tail(s: Seq<char>)
    ensures
        split_lines(s).1.len() > 0 ==> (s.len() > 0 && split_lines(s).1.last() == s.last()),
{
    if s.len() > 0 {
        let (d, c) = split_lines(s.drop_last());
        if s.last() != '\n' {
            assert(c.push(s.last()).last() == s.last());
        }
    }
}


/// The position of the last character at or before `from` that is not white
/// space, given that `k` is one such position.
proof fn last_non_white(s: Seq<char>, from: int, k: int) -> (r: int)
    requires
        0 <= k <= from < s.len(),
        !is_white_space(s[k]),
        forall|i: int| from < i < s.len() ==> is_white_space(#[trigger] s[i]),
    ensures
        k <= r <= from,
        !is_white_space(s[r]),
        forall|i: int| r < i < s.len() ==> is_white_space(#[trigger] s[i]),
    decreases from - k,
{
    if !is_white_space(s[from]) {
        from
    } else {
        last_non_white(s, from - 1, k)
    }
}

/// Trimming removes exactly a white-space prefix and a white-space suffix, and
/// what it keeps, if anything, begins and ends with characters that are not
/// white space.
pub proof fn lemma_trim_bounds(l: Seq<char>) -> (r: (int, int))
    ensures
        0 <= r.0 <= r.1 <= l.len(),
        trim(l) == l.subrange(r.0, r.1),
        forall|i: int| 0 <= i < r.0 ==> is_white_space(#[trigger] l[i]),
        forall|i: int| r.1 <= i < l.len() ==> is_white_space(#[trigger] l[i]),
        r.0 < r.1 ==> !is_white_space(l[r.0]) && !is_white_space(l[r.1 - 1]),
{
    if is_blank(l) {
        lemma_blank_iff_trim_empty(l);
        assert(trim(l) =~= l.subrange(0, 0));
        (0, 0)
    } else {
        let k = choose|k: int| 0 <= k < l.len() && !is_white_space(l[k]);
        let a = first_non_white(l, 0, k);
        let b = last_non_white(l, l.len() - 1, k);
        lemma_trim_start_at(l, a);
        let t = l.skip(a);
        assert forall|i: int| b + 1 - a <= i < t.len() implies is_white_space(#[trigger] t[i]) by {
            assert(t[i] == l[a + i]);
        }
        assert(t[b - a] == l[b]);
        lemma_trim_end_at(t, b + 1 - a);
        assert(t.take(b + 1 - a) =~= l.subrange(a, b + 1));
        (a, b + 1)
    }
}

/// A text without `'\n'` is a single unfinished line.
pub proof fn lemma_split_lines_no_newline(l: Seq<char>)
    requires
        forall|i: int| 0 <= i < l.len() ==> #[trigger] l[i] != '\n',
    ensures
        split_lines(l) == (Seq::<Seq<char>>::empty(), l),
    decreases l.len(),
{
    if l.len() > 0 {
        let u = l.drop_last();
        assert forall|i: int| 0 <= i < u.len() implies #[trigger] u[i] != '\n' by {
            assert(u[i] == l[i]);
        }
        lemma_split_lines_no_newline(u);
        assert(l.last() == l[l.len() - 1]);
        assert(u.push(l.last()) =~= l);
    }
}

/// A text without `'\n'`, followed by one line ending, is that one line
/// (less a final carriage return).
pub proof fn lemma_lines_one_line(l: Seq<char>)
    requires
        forall|i: int| 0 <= i < l.len() ==> #[trigger] l[i] != '\n',
    ensures
        lines(l.push('\n')) == seq![strip_cr(l)],
{
    lemma_split_lines_no_newline(l);
    assert(l.push('\n').drop_last() =~= l);
    assert(Seq::<Seq<char>>::empty().push(strip_cr(l)) =~= seq![strip_cr(l)]);
}

/// Where the first line that is not blank stands in `ls`: every line before
/// it is blank.
pub proof fn lemma_first_nonblank_index(ls: Seq<Seq<char>>) -> (k: int)
    requires
        first_nonblank(ls) is Some,
    ensures
        0 <= k < ls.len(),
        first_nonblank(ls) == Some(ls[k]),
        !is_blank(ls[k]),
        forall|j: int| 0 <= j < k ==> is_blank(#[trigger] ls[j]),
    decreases ls.len(),
{
    if !is_blank(ls[0]) {
        0
    } else {
        let t = ls.drop_first();
        let k = lemma_first_nonblank_index(t);
        assert forall|j: int| 0 <= j < k + 1 implies is_blank(#[trigger] ls[j]) by {
            if j > 0 {
                assert(ls[j] == t[j - 1]);
            }
        }
        assert(ls[k + 1] == t[k]);
        k + 1
    }
}

/// Where the last line that is not empty once trimmed stands in `ls`: every
/// line after it is blank.
pub proof fn lemma_last_nonempty_index(ls: Seq<Seq<char>>) -> (k: int)
    requires
        last_nonempty_trimmed(ls) is Some,
    ensures
        0 <= k < ls.len(),
        last_nonempty_trimmed(ls) == Some(trim(ls[k])),
        trim(ls[k]).len() > 0,
        forall|j: int| k < j < ls.len() ==> is_blank(#[trigger] ls[j]),
    decreases ls.len(),
{
    if trim(ls.last()).len() > 0 {
        ls.len() - 1
    } else {
        let t = ls.drop_last();
        let k = lemma_last_nonempty_index(t);
        assert forall|j: int| k < j < ls.len() implies is_blank(#[trigger] ls[j]) by {
            if j < ls.len() - 1 {
                assert(ls[j] == t[j]);
            } else {
                lemma_blank_iff_trim_empty(ls.last());
            }
        }
        assert(ls[k] == t[k]);
        k
    }
}

} // verus!
