//! Character- and string-level helpers shared by the parser, the confidence
//! classifier and the safety filter: whitespace, ASCII case folding,
//! prefix/suffix/substring tests, trimming, line splitting, joining, token
//! counting, and whole-word and gapped-pattern search.

use vstd::prelude::*;
use vstd::string::StrSliceExecFns;

verus! {

/// The Unicode white-space characters, as `char::is_whitespace` recognises
/// them.
pub open spec fn is_ws_char(c: char) -> bool {
    let u = c as u32;
    ||| (9 <= u && u <= 13)
    ||| u == 32
    ||| u == 0x85
    ||| u == 0xA0
    ||| u == 0x1680
    ||| (0x2000 <= u && u <= 0x200A)
    ||| u == 0x2028
    ||| u == 0x2029
    ||| u == 0x202F
    ||| u == 0x205F
    ||| u == 0x3000
}

/// ASCII lower-case code point of a character; non-ASCII-uppercase
/// characters map to themselves.
pub open spec fn lower_code(c: char) -> u32 {
    let u = c as u32;
    if 65 <= u && u <= 90 {
        (u + 32) as u32
    } else {
        u
    }
}

/// ASCII-case-insensitive character equality.
pub open spec fn chars_eq_ci(a: char, b: char) -> bool {
    lower_code(a) == lower_code(b)
}

/// ASCII-case-insensitive sequence equality.
pub open spec fn seq_eq_ci(a: Seq<char>, b: Seq<char>) -> bool {
    a.len() == b.len() && forall|i: int| 0 <= i < a.len() ==> chars_eq_ci(a[i], b[i])
}

/// `p` occurs in `s` starting at position `i`.
pub open spec fn matches_at(s: Seq<char>, p: Seq<char>, i: int) -> bool {
    0 <= i && i + p.len() <= s.len() && forall|j: int| 0 <= j < p.len() ==> s[i + j] == p[j]
}

/// Case-insensitive variant of [`matches_at`].
pub open spec fn matches_at_ci(s: Seq<char>, p: Seq<char>, i: int) -> bool {
    0 <= i && i + p.len() <= s.len() && forall|j: int|
        0 <= j < p.len() ==> chars_eq_ci(s[i + j], p[j])
}

/// `p` occurs somewhere in `s`.
pub open spec fn contains_seq(s: Seq<char>, p: Seq<char>) -> bool {
    exists|i: int| matches_at(s, p, i)
}

/// Case-insensitive variant of [`contains_seq`].
pub open spec fn contains_seq_ci(s: Seq<char>, p: Seq<char>) -> bool {
    exists|i: int| matches_at_ci(s, p, i)
}

/// `s` begins with `p`.
pub open spec fn starts_with(s: Seq<char>, p: Seq<char>) -> bool {
    matches_at(s, p, 0)
}

/// Case-insensitive variant of [`starts_with`].
pub open spec fn starts_with_ci(s: Seq<char>, p: Seq<char>) -> bool {
    matches_at_ci(s, p, 0)
}

/// `s` ends with `p`.
pub open spec fn ends_with(s: Seq<char>, p: Seq<char>) -> bool {
    matches_at(s, p, s.len() - p.len())
}

/// `s` with its leading white space removed.
pub open spec fn trim_front(s: Seq<char>) -> Seq<char>
    decreases s.len(),
{
    if s.len() > 0 && is_ws_char(s[0]) {
        trim_front(s.drop_first())
    } else {
        s
    }
}

/// `s` with its trailing white space removed.
pub open spec fn trim_back(s: Seq<char>) -> Seq<char>
    decreases s.len(),
{
    if s.len() > 0 && is_ws_char(s.last()) {
        trim_back(s.drop_last())
    } else {
        s
    }
}

/// `s` with white space removed from both ends, as `str::trim` does.
pub open spec fn spec_trim(s: Seq<char>) -> Seq<char> {
    trim_back(trim_front(s))
}

proof fn lemma_trim_front_range(s: Seq<char>, a: int)
    requires
        0 <= a <= s.len(),
        forall|k: int| 0 <= k < a ==> is_ws_char(s[k]),
        a < s.len() ==> !is_ws_char(s[a]),
    ensures
        trim_front(s) =~= s.subrange(a, s.len() as int),
    decreases a,
{
    if a == 0 {
        if s.len() > 0 {
            assert(!is_ws_char(s[0]));
        }
        assert(trim_front(s) =~= s.subrange(0, s.len() as int));
    } else {
        assert(is_ws_char(s[0]));
        let t = s.drop_first();
        assert(forall|k: int| 0 <= k < a - 1 ==> is_ws_char(#[trigger] t[k]));
        lemma_trim_front_range(t, a - 1);
        assert(t.subrange(a - 1, t.len() as int) =~= s.subrange(a, s.len() as int));
    }
}

proof fn lemma_trim_back_range(s: Seq<char>, b: int)
    requires
        0 <= b <= s.len(),
        forall|k: int| b <= k < s.len() ==> is_ws_char(s[k]),
        b > 0 ==> !is_ws_char(s[b - 1]),
    ensures
        trim_back(s) =~= s.subrange(0, b),
    decreases s.len() - b,
{
    if b == s.len() {
        if s.len() > 0 {
            assert(!is_ws_char(s.last()));
        }
        assert(trim_back(s) =~= s.subrange(0, b));
    } else {
        assert(is_ws_char(s.last()));
        let t = s.drop_last();
        lemma_trim_back_range(t, b);
        assert(t.subrange(0, b) =~= s.subrange(0, b));
    }
}

/// Characterisation of [`spec_trim`] by the first and last non-white-space
/// positions.
proof fn lemma_trim_by_bounds(s: Seq<char>, a: int, b: int)
    requires
        0 <= a <= b <= s.len(),
        forall|k: int| 0 <= k < a ==> is_ws_char(s[k]),
        forall|k: int| b <= k < s.len() ==> is_ws_char(s[k]),
        a < b ==> !is_ws_char(s[a]) && !is_ws_char(s[b - 1]),
    ensures
        spec_trim(s) =~= s.subrange(a, b),
{
    if a == b {
        lemma_trim_front_range(s, s.len() as int);
        assert(spec_trim(s) =~= s.subrange(a, b));
    } else {
        lemma_trim_front_range(s, a);
        let f = s.subrange(a, s.len() as int);
        lemma_trim_back_range(f, b - a);
        assert(f.subrange(0, b - a) =~= s.subrange(a, b));
    }
}

/// True of `c` exactly when `char::is_whitespace` is.
pub fn is_ws(c: char) -> (r: bool)
    ensures
        r == is_ws_char(c),
{
    let u = c as u32;
    (9 <= u && u <= 13) || u == 32 || u == 0x85 || u == 0xA0 || u == 0x1680 || (0x2000 <= u && u
        <= 0x200A) || u == 0x2028 || u == 0x2029 || u == 0x202F || u == 0x205F || u == 0x3000
}

/// ASCII-case-insensitive equality of two characters.
pub fn eq_ci_char(a: char, b: char) -> (r: bool)
    ensures
        r == chars_eq_ci(a, b),
{
    let ua = a as u32;
    let ub = b as u32;
    let la: u32 = if 65 <= ua && ua <= 90 {
        ua + 32
    } else {
        ua
    };
    let lb: u32 = if 65 <= ub && ub <= 90 {
        ub + 32
    } else {
        ub
    };
    la == lb
}

/// Number of characters in `s`.
pub fn char_len(s: &str) -> (n: usize)
    ensures
        n == s@.len(),
{
    s.unicode_len()
}

/// `str::trim`: the slice of `s` with white space removed from both ends.
pub fn trim_str<'a>(s: &'a str) -> (t: &'a str)
    ensures
        t@ =~= spec_trim(s@),
{
    let n = s.unicode_len();
    let mut a: usize = 0;
    while a < n && is_ws(s.get_char(a))
        invariant
            0 <= a <= n,
            n == s@.len(),
            forall|k: int| 0 <= k < a ==> is_ws_char(s@[k]),
        decreases n - a,
    {
        a = a + 1;
    }
    if a == n {
        proof {
            lemma_trim_by_bounds(s@, n as int, n as int);
        }
        return s.substring_char(n, n);
    }
    let mut b: usize = n;
    while b > a && is_ws(s.get_char(b - 1))
        invariant
            a <= b <= n,
            n == s@.len(),
            a < n && !is_ws_char(s@[a as int]),
            forall|k: int| b <= k < n ==> is_ws_char(s@[k]),
        decreases b,
    {
        b = b - 1;
    }
    proof {
        lemma_trim_by_bounds(s@, a as int, b as int);
    }
    s.substring_char(a, b)
}

/// Exact equality of two string slices.
pub fn eq_str(s: &str, p: &str) -> (r: bool)
    ensures
        r == (s@ == p@),
{
    let n = s.unicode_len();
    if n != p.unicode_len() {
        proof {
            assert(s@.len() != p@.len());
        }
        return false;
    }
    let mut i: usize = 0;
    while i < n
        invariant
            0 <= i <= n,
            n == s@.len() && n == p@.len(),
            forall|k: int| 0 <= k < i ==> s@[k] == p@[k],
        decreases n - i,
    {
        if s.get_char(i) != p.get_char(i) {
            proof {
                assert(s@[i as int] != p@[i as int]);
            }
            return false;
        }
        i = i + 1;
    }
    proof {
        assert(s@ =~= p@);
    }
    true
}

/// ASCII-case-insensitive equality of two string slices.
pub fn eq_str_ci(s: &str, p: &str) -> (r: bool)
    ensures
        r == seq_eq_ci(s@, p@),
{
    let n = s.unicode_len();
    if n != p.unicode_len() {
        return false;
    }
    let mut i: usize = 0;
    while i < n
        invariant
            0 <= i <= n,
            n == s@.len() && n == p@.len(),
            forall|k: int| 0 <= k < i ==> chars_eq_ci(s@[k], p@[k]),
        decreases n - i,
    {
        if !eq_ci_char(s.get_char(i), p.get_char(i)) {
            return false;
        }
        i = i + 1;
    }
    true
}

/// `s` begins with `p`, compared exactly.
pub fn starts_with_str(s: &str, p: &str) -> (r: bool)
    ensures
        r == starts_with(s@, p@),
{
    let n = s.unicode_len();
    let m = p.unicode_len();
    if m > n {
        return false;
    }
    let mut i: usize = 0;
    while i < m
        invariant
            0 <= i <= m <= n,
            n == s@.len() && m == p@.len(),
            forall|k: int| 0 <= k < i ==> s@[k] == p@[k],
        decreases m - i,
    {
        if s.get_char(i) != p.get_char(i) {
            proof {
                assert(s@[i as int] != p@[i as int]);
            }
            return false;
        }
        i = i + 1;
    }
    true
}

/// `s` begins with `p`, compared ASCII-case-insensitively.
pub fn starts_with_str_ci(s: &str, p: &str) -> (r: bool)
    ensures
        r == starts_with_ci(s@, p@),
{
    let n = s.unicode_len();
    let m = p.unicode_len();
    if m > n {
        return false;
    }
    let mut i: usize = 0;
    while i < m
        invariant
            0 <= i <= m <= n,
            n == s@.len() && m == p@.len(),
            forall|k: int| 0 <= k < i ==> chars_eq_ci(s@[k], p@[k]),
        decreases m - i,
    {
        if !eq_ci_char(s.get_char(i), p.get_char(i)) {
            return false;
        }
        i = i + 1;
    }
    true
}

/// `s` ends with the character `c`.
pub fn ends_with_char(s: &str, c: char) -> (r: bool)
    ensures
        r == (s@.len() > 0 && s@.last() == c),
{
    let n = s.unicode_len();
    if n == 0 {
        return false;
    }
    s.get_char(n - 1) == c
}

/// `s` contains the character `c`.
pub fn contains_char(s: &str, c: char) -> (r: bool)
    ensures
        r == s@.contains(c),
{
    let n = s.unicode_len();
    let mut i: usize = 0;
    while i < n
        invariant
            0 <= i <= n,
            n == s@.len(),
            forall|k: int| 0 <= k < i ==> s@[k] != c,
        decreases n - i,
    {
        if s.get_char(i) == c {
            proof {
                assert(s@[i as int] == c);
            }
            return true;
        }
        i = i + 1;
    }
    proof {
        assert(forall|k: int| 0 <= k < s@.len() ==> s@[k] != c);
    }
    false
}

/// Whether `p` matches in `s` at position `i`, compared
/// case-insensitively when `ci` is set.
pub fn matches_here(s: &str, p: &str, i: usize, ci: bool) -> (r: bool)
    requires
        i + p@.len() <= s@.len(),
    ensures
        ci ==> r == matches_at_ci(s@, p@, i as int),
        !ci ==> r == matches_at(s@, p@, i as int),
{
    let n = s.unicode_len();
    let m = p.unicode_len();
    let mut j: usize = 0;
    while j < m
        invariant
            0 <= j <= m,
            m == p@.len(),
            n == s@.len(),
            i + m <= n,
            ci ==> forall|k: int| 0 <= k < j ==> chars_eq_ci(s@[i + k], p@[k]),
            !ci ==> forall|k: int| 0 <= k < j ==> s@[i + k] == p@[k],
        decreases m - j,
    {
        let sc = s.get_char(i + j);
        let pc = p.get_char(j);
        let ok = if ci {
            eq_ci_char(sc, pc)
        } else {
            sc == pc
        };
        if !ok {
            return false;
        }
        j = j + 1;
    }
    true
}

/// `s` contains `p` as a substring, compared exactly.
pub fn contains_sub(s: &str, p: &str) -> (r: bool)
    ensures
        r == contains_seq(s@, p@),
{
    let n = s.unicode_len();
    let m = p.unicode_len();
    if m > n {
        proof {
            assert(forall|i: int| !matches_at(s@, p@, i));
        }
        return false;
    }
    let mut i: usize = 0;
    while i <= n - m
        invariant
            0 <= i <= n - m + 1,
            m <= n,
            n == s@.len() && m == p@.len(),
            forall|k: int| 0 <= k < i ==> !matches_at(s@, p@, k),
        decreases n - m - i + 1,
    {
        if matches_here(s, p, i, false) {
            return true;
        }
        i = i + 1;
    }
    proof {
        assert(forall|k: int| matches_at(s@, p@, k) ==> 0 <= k <= s@.len() - p@.len());
    }
    false
}

/// `s` contains `p` as a substring, compared ASCII-case-insensitively.
pub fn contains_sub_ci(s: &str, p: &str) -> (r: bool)
    ensures
        r == contains_seq_ci(s@, p@),
{
    let n = s.unicode_len();
    let m = p.unicode_len();
    if m > n {
        proof {
            assert(forall|i: int| !matches_at_ci(s@, p@, i));
        }
        return false;
    }
    let mut i: usize = 0;
    while i <= n - m
        invariant
            0 <= i <= n - m + 1,
            m <= n,
            n == s@.len() && m == p@.len(),
            forall|k: int| 0 <= k < i ==> !matches_at_ci(s@, p@, k),
        decreases n - m - i + 1,
    {
        if matches_here(s, p, i, true) {
            return true;
        }
        i = i + 1;
    }
    proof {
        assert(forall|k: int| matches_at_ci(s@, p@, k) ==> 0 <= k <= s@.len() - p@.len());
    }
    false
}

/// Position of the first occurrence of `c` in `s`, or `s.len()` when absent.
pub open spec fn find_ch(s: Seq<char>, c: char) -> int
    decreases s.len(),
{
    if s.len() == 0 {
        0
    } else if s[0] == c {
        0
    } else {
        1 + find_ch(s.drop_first(), c)
    }
}

/// [`find_ch`] lies between 0 and the length of `s`, has no occurrence of
/// `c` before it, and points at one when it is not the end.
pub proof fn lemma_find_ch_bounds(s: Seq<char>, c: char)
    ensures
        0 <= find_ch(s, c) <= s.len(),
        forall|k: int| 0 <= k < find_ch(s, c) ==> s[k] != c,
        find_ch(s, c) < s.len() ==> s[find_ch(s, c)] == c,
    decreases s.len(),
{
    if s.len() == 0 {
    } else if s[0] == c {
    } else {
        let t = s.drop_first();
        lemma_find_ch_bounds(t, c);
        assert forall|k: int| 0 <= k < find_ch(s, c) implies s[k] != c by {
            if k > 0 {
                assert(t[k - 1] != c);
                assert(s[k] == t[k - 1]);
            }
        }
    }
}

/// [`find_ch`] is the unique position with no occurrence before it and
/// either an occurrence or the end at it.
pub proof fn lemma_find_ch(s: Seq<char>, c: char, j: int)
    requires
        0 <= j <= s.len(),
        forall|k: int| 0 <= k < j ==> s[k] != c,
        j < s.len() ==> s[j] == c,
    ensures
        find_ch(s, c) == j,
    decreases j,
{
    if s.len() == 0 {
    } else if j == 0 {
    } else {
        let t = s.drop_first();
        assert(forall|k: int| 0 <= k < j - 1 ==> #[trigger] t[k] == s[k + 1]);
        lemma_find_ch(t, c, j - 1);
    }
}

/// Scan for the first occurrence of `c` in `s` at or after `from`.
pub fn find_char_from(s: &str, c: char, from: usize) -> (j: usize)
    requires
        from <= s@.len(),
    ensures
        from <= j <= s@.len(),
        forall|k: int| from <= k < j ==> s@[k] != c,
        j < s@.len() ==> s@[j as int] == c,
{
    let n = s.unicode_len();
    let mut j: usize = from;
    while j < n && s.get_char(j) != c
        invariant
            from <= j <= n,
            n == s@.len(),
            forall|k: int| from <= k < j ==> s@[k] != c,
        decreases n - j,
    {
        j = j + 1;
    }
    j
}

/// The views of a sequence of owned strings.
pub open spec fn views_of(v: Seq<String>) -> Seq<Seq<char>> {
    v.map_values(|x: String| x@)
}

/// A line's trailing carriage return is dropped when the line was
/// terminated by a newline, as `str::lines` does.
pub open spec fn strip_cr(line: Seq<char>) -> Seq<char> {
    if line.len() > 0 && line.last() == '\r' {
        line.drop_last()
    } else {
        line
    }
}

/// The lines of `s`, exactly as `str::lines` yields them: split at `\n`,
/// with a `\r` preceding the `\n` dropped, and no empty line after a final
/// newline.
pub open spec fn spec_lines(s: Seq<char>) -> Seq<Seq<char>>
    decreases s.len(),
    via spec_lines_decreases
{
    if s.len() == 0 {
        Seq::empty()
    } else {
        let j = find_ch(s, '\n');
        if j == s.len() {
            seq![s]
        } else {
            seq![strip_cr(s.take(j))] + spec_lines(s.skip(j + 1))
        }
    }
}

#[via_fn]
proof fn spec_lines_decreases(s: Seq<char>) {
    lemma_find_ch_bounds(s, '\n');
}

/// Split `s` into its lines, as `str::lines` does.
pub fn split_lines<'a>(s: &'a str) -> (r: Vec<&'a str>)
    ensures
        r@.len() == spec_lines(s@).len(),
        forall|i: int| 0 <= i < r@.len() ==> #[trigger] r@[i]@ == spec_lines(s@)[i],
{
    let n = s.unicode_len();
    let mut r: Vec<&'a str> = Vec::new();
    let mut pos: usize = 0;
    let ghost mut done: Seq<Seq<char>> = Seq::empty();
    proof {
        assert(s@.skip(0) =~= s@);
    }
    while pos < n
        invariant
            0 <= pos <= n,
            n == s@.len(),
            r@.len() == done.len(),
            forall|i: int| 0 <= i < r@.len() ==> #[trigger] r@[i]@ == done[i],
            spec_lines(s@) =~~= done + spec_lines(s@.skip(pos as int)),
        decreases n - pos,
    {
        let ghost rest = s@.skip(pos as int);
        let j = find_char_from(s, '\n', pos);
        proof {
            assert(forall|k: int| 0 <= k < j - pos ==> #[trigger] rest[k] == s@[pos + k]);
            lemma_find_ch(rest, '\n', j - pos);
        }
        let line_end: usize = if j > pos && j < n && s.get_char(j - 1) == '\r' {
            j - 1
        } else {
            j
        };
        let line = s.substring_char(pos, line_end);
        r.push(line);
        let ghost new_pos: int = if j < n {
            j + 1
        } else {
            n as int
        };
        proof {
            if j == n {
                assert(line@ =~= rest);
                assert(spec_lines(s@.skip(new_pos)) =~~= Seq::<Seq<char>>::empty());
                assert(spec_lines(rest) =~~= seq![line@] + spec_lines(s@.skip(new_pos)));
            } else {
                assert(rest.take(j - pos) =~= s@.subrange(pos as int, j as int));
                assert(strip_cr(rest.take(j - pos)) =~= line@);
                assert(rest.skip(j - pos + 1) =~= s@.skip(new_pos));
                assert(spec_lines(rest) =~~= seq![line@] + spec_lines(s@.skip(new_pos)));
            }
            assert(done + spec_lines(rest) =~~= done.push(line@) + spec_lines(s@.skip(new_pos)));
            done = done.push(line@);
        }
        pos = if j < n {
            j + 1
        } else {
            n
        };
    }
    proof {
        assert(spec_lines(s@.skip(n as int)) =~~= Seq::<Seq<char>>::empty());
        assert(spec_lines(s@) =~~= done);
    }
    r
}

/// `parts` joined by `sep`.
pub open spec fn spec_join(parts: Seq<Seq<char>>, sep: Seq<char>) -> Seq<char>
    decreases parts.len(),
{
    if parts.len() == 0 {
        Seq::empty()
    } else if parts.len() == 1 {
        parts[0]
    } else {
        parts[0] + sep + spec_join(parts.drop_first(), sep)
    }
}

/// Joining one more part appends a separator and the part.
pub proof fn lemma_join_push(parts: Seq<Seq<char>>, sep: Seq<char>, x: Seq<char>)
    ensures
        parts.len() == 0 ==> spec_join(parts.push(x), sep) =~= x,
        parts.len() > 0 ==> spec_join(parts.push(x), sep) =~= spec_join(parts, sep) + sep + x,
    decreases parts.len(),
{
    let q = parts.push(x);
    if parts.len() == 0 {
        assert(q.len() == 1);
        assert(q[0] =~= x);
    } else if parts.len() == 1 {
        assert(q.len() == 2);
        assert(q[0] == parts[0]);
        assert(q.drop_first() =~~= seq![x]);
        assert(spec_join(q.drop_first(), sep) == x);
        assert(spec_join(q, sep) =~= q[0] + sep + spec_join(q.drop_first(), sep));
    } else {
        lemma_join_push(parts.drop_first(), sep, x);
        assert(q.drop_first() =~~= parts.drop_first().push(x));
        assert(q[0] == parts[0]);
        assert(spec_join(q.drop_first(), sep) == spec_join(parts.drop_first().push(x), sep));
        assert(spec_join(q, sep) =~= q[0] + sep + spec_join(q.drop_first(), sep));
    }
}

/// Join owned strings with a separator, as `[String]::join` does.
pub fn join_with(parts: &Vec<String>, sep: &str) -> (r: String)
    ensures
        r@ =~= spec_join(views_of(parts@), sep@),
{
    let mut r = String::new();
    let mut i: usize = 0;
    while i < parts.len()
        invariant
            0 <= i <= parts@.len(),
            r@ =~= spec_join(views_of(parts@.take(i as int)), sep@),
        decreases parts@.len() - i,
    {
        if i > 0 {
            r.append(sep);
        }
        r.append(parts[i].as_str());
        proof {
            let prev = views_of(parts@.take(i as int));
            lemma_join_push(prev, sep@, parts@[i as int]@);
            assert(views_of(parts@.take(i + 1)) =~~= prev.push(parts@[i as int]@));
        }
        i = i + 1;
    }
    proof {
        assert(parts@.take(parts@.len() as int) =~= parts@);
    }
    r
}

/// Number of white-space-separated tokens remaining in `s`, given whether a
/// token is already underway.
pub open spec fn tokens_from(s: Seq<char>, in_tok: bool) -> nat
    decreases s.len(),
{
    if s.len() == 0 {
        0
    } else if is_ws_char(s[0]) {
        tokens_from(s.drop_first(), false)
    } else if in_tok {
        tokens_from(s.drop_first(), true)
    } else {
        1 + tokens_from(s.drop_first(), true)
    }
}

/// Number of white-space-separated tokens of `s`, as
/// `str::split_whitespace` yields them.
pub open spec fn token_count(s: Seq<char>) -> nat {
    tokens_from(s, false)
}

/// Count the white-space-separated tokens of `s`.
pub fn count_tokens(s: &str) -> (n: usize)
    ensures
        n == token_count(s@),
{
    let len = s.unicode_len();
    let mut i: usize = 0;
    let mut count: usize = 0;
    let mut in_tok = false;
    proof {
        assert(s@.skip(0) =~= s@);
    }
    while i < len
        invariant
            0 <= i <= len,
            len == s@.len(),
            count <= i,
            count + tokens_from(s@.skip(i as int), in_tok) == token_count(s@),
        decreases len - i,
    {
        let ghost rest = s@.skip(i as int);
        proof {
            assert(rest[0] == s@[i as int]);
            assert(rest.drop_first() =~= s@.skip(i + 1));
        }
        if is_ws(s.get_char(i)) {
            in_tok = false;
        } else if !in_tok {
            count = count + 1;
            in_tok = true;
        }
        i = i + 1;
    }
    proof {
        assert(s@.skip(len as int) =~= Seq::<char>::empty());
    }
    count
}

/// Length of the leading run of non-white-space characters.
pub open spec fn tok_len(s: Seq<char>) -> int
    decreases s.len(),
{
    if s.len() == 0 {
        0
    } else if is_ws_char(s[0]) {
        0
    } else {
        1 + tok_len(s.drop_first())
    }
}

/// The first white-space-separated token of a trimmed string: its leading
/// run of non-white-space characters (empty for the empty string).
pub open spec fn first_token(s: Seq<char>) -> Seq<char> {
    s.take(tok_len(s))
}

proof fn lemma_tok_len(s: Seq<char>, j: int)
    requires
        0 <= j <= s.len(),
        forall|k: int| 0 <= k < j ==> !is_ws_char(s[k]),
        j < s.len() ==> is_ws_char(s[j]),
    ensures
        tok_len(s) == j,
    decreases j,
{
    if s.len() == 0 || j == 0 {
    } else {
        let t = s.drop_first();
        assert(forall|k: int| 0 <= k < j - 1 ==> #[trigger] t[k] == s[k + 1]);
        lemma_tok_len(t, j - 1);
    }
}

/// The first token of `s` as a slice.
pub fn first_token_str<'a>(s: &'a str) -> (t: &'a str)
    ensures
        t@ =~= first_token(s@),
{
    let n = s.unicode_len();
    let mut j: usize = 0;
    while j < n && !is_ws(s.get_char(j))
        invariant
            0 <= j <= n,
            n == s@.len(),
            forall|k: int| 0 <= k < j ==> !is_ws_char(s@[k]),
        decreases n - j,
    {
        j = j + 1;
    }
    proof {
        lemma_tok_len(s@, j as int);
    }
    s.substring_char(0, j)
}

/// ASCII word characters: letters, digits and the underscore.
pub open spec fn is_word_char(c: char) -> bool {
    let u = c as u32;
    (48 <= u && u <= 57) || (65 <= u && u <= 90) || (97 <= u && u <= 122) || u == 95
}

/// True of `c` exactly when [`is_word_char`] is.
pub fn is_word(c: char) -> (r: bool)
    ensures
        r == is_word_char(c),
{
    let u = c as u32;
    (48 <= u && u <= 57) || (65 <= u && u <= 90) || (97 <= u && u <= 122) || u == 95
}

/// `w` occurs in `s` at `i` as a whole word: case-insensitively, with no
/// word character on either side.
pub open spec fn word_at(s: Seq<char>, w: Seq<char>, i: int) -> bool {
    &&& matches_at_ci(s, w, i)
    &&& (i == 0 || !is_word_char(s[i - 1]))
    &&& (i + w.len() == s.len() || !is_word_char(s[i + w.len()]))
}

/// `s` contains `w` as a whole word.
pub open spec fn contains_word_ci(s: Seq<char>, w: Seq<char>) -> bool {
    exists|i: int| word_at(s, w, i)
}

/// Search `s` for `w` as a whole word, case-insensitively.
pub fn contains_word(s: &str, w: &str) -> (r: bool)
    requires
        w@.len() >= 1,
    ensures
        r == contains_word_ci(s@, w@),
{
    let n = s.unicode_len();
    let m = w.unicode_len();
    if m > n {
        proof {
            assert(forall|i: int| !word_at(s@, w@, i));
        }
        return false;
    }
    let mut i: usize = 0;
    while i <= n - m
        invariant
            0 <= i <= n - m + 1,
            1 <= m <= n,
            n == s@.len() && m == w@.len(),
            forall|k: int| 0 <= k < i ==> !word_at(s@, w@, k),
        decreases n - m - i + 1,
    {
        let hit = matches_here(s, w, i, true) && (i == 0 || !is_word(s.get_char(i - 1))) && (i + m
            == n || !is_word(s.get_char(i + m)));
        if hit {
            proof {
                assert(word_at(s@, w@, i as int));
            }
            return true;
        }
        i = i + 1;
    }
    proof {
        assert(forall|k: int| word_at(s@, w@, k) ==> 0 <= k <= s@.len() - w@.len());
    }
    false
}

/// `c` is ASCII-case-insensitively distinct from every white-space
/// character.
pub open spec fn no_ci_ws(c: char) -> bool {
    forall|d: char| is_ws_char(d) ==> !chars_eq_ci(c, d)
}

/// `a` occurs at `i`, followed by a run of `g` white-space characters,
/// followed by `b`; all comparison is case-insensitive.
pub open spec fn gap_at(s: Seq<char>, a: Seq<char>, b: Seq<char>, i: int, g: int) -> bool {
    &&& matches_at_ci(s, a, i)
    &&& g >= 1
    &&& i + a.len() + g + b.len() <= s.len()
    &&& (forall|k: int| i + a.len() <= k < i + a.len() + g ==> is_ws_char(s[k]))
    &&& matches_at_ci(s, b, i + a.len() + g)
}

/// `s` contains `a`, one or more white-space characters, then `b`.
pub open spec fn contains_gap_ci(s: Seq<char>, a: Seq<char>, b: Seq<char>) -> bool {
    exists|i: int, g: int| gap_at(s, a, b, i, g)
}

/// As [`contains_gap_ci`], but with word boundaries before `a` and after
/// `b`.
pub open spec fn contains_gap_word_ci(s: Seq<char>, a: Seq<char>, b: Seq<char>) -> bool {
    exists|i: int, g: int|
        {
            &&& gap_at(s, a, b, i, g)
            &&& (i == 0 || !is_word_char(s[i - 1]))
            &&& {
                let e = i + a.len() + g + b.len();
                e == s.len() || !is_word_char(s[e])
            }
        }
}

/// First position at or after `from` whose character is not white space.
pub fn skip_ws_from(s: &str, from: usize) -> (e: usize)
    requires
        from <= s@.len(),
    ensures
        from <= e <= s@.len(),
        forall|k: int| from <= k < e ==> is_ws_char(s@[k]),
        e < s@.len() ==> !is_ws_char(s@[e as int]),
{
    let n = s.unicode_len();
    let mut e: usize = from;
    while e < n && is_ws(s.get_char(e))
        invariant
            from <= e <= n,
            n == s@.len(),
            forall|k: int| from <= k < e ==> is_ws_char(s@[k]),
        decreases n - e,
    {
        e = e + 1;
    }
    e
}

/// Search `s` for `a`, white space, then `b` — the shape of patterns such
/// as a recursive force delete. With `word_bounds` set, word boundaries
/// are required around the whole match.
pub fn contains_gap(s: &str, a: &str, b: &str, word_bounds: bool) -> (r: bool)
    requires
        a@.len() >= 1,
        b@.len() >= 1,
        no_ci_ws(b@[0]),
    ensures
        word_bounds ==> r == contains_gap_word_ci(s@, a@, b@),
        !word_bounds ==> r == contains_gap_ci(s@, a@, b@),
{
    let n = s.unicode_len();
    let la = a.unicode_len();
    let lb = b.unicode_len();
    let mut i: usize = 0;
    while i < n
        invariant
            0 <= i <= n,
            n == s@.len() && la == a@.len() && lb == b@.len(),
            a@.len() >= 1 && b@.len() >= 1,
            no_ci_ws(b@[0]),
            forall|k: int, g: int|
                0 <= k < i ==> !(gap_at(s@, a@, b@, k, g) && (!word_bounds ==> true) && (
                word_bounds ==> (k == 0 || !is_word_char(s@[k - 1])) && (k + a@.len() + g
                    + b@.len() == s@.len() || !is_word_char(s@[k + a@.len() + g + b@.len()])))),
        decreases n - i,
    {
        let head_ok = la <= n - i && matches_here(s, a, i, true) && (!word_bounds || i == 0
            || !is_word(s.get_char(i - 1)));
        if head_ok {
            let e = skip_ws_from(s, i + la);
            let g = e - (i + la);
            if g >= 1 && lb <= n - e && matches_here(s, b, e, true) && (!word_bounds || e + lb == n
                || !is_word(s.get_char(e + lb))) {
                proof {
                    assert(gap_at(s@, a@, b@, i as int, g as int));
                }
                return true;
            }
            proof {
                lemma_gap_reject(s@, a@, b@, i as int, e as int, word_bounds);
            }
        }
        i = i + 1;
    }
    proof {
        assert(forall|k: int, g: int| gap_at(s@, a@, b@, k, g) ==> 0 <= k < s@.len());
    }
    false
}

/// No gap match can start at `i` when the pattern tail fails at the end of
/// the white-space run.
proof fn lemma_gap_reject(
    s: Seq<char>,
    a: Seq<char>,
    b: Seq<char>,
    i: int,
    e: int,
    word_bounds: bool,
)
    requires
        a.len() >= 1,
        b.len() >= 1,
        no_ci_ws(b[0]),
        0 <= i,
        i + a.len() <= e <= s.len(),
        forall|k: int| i + a.len() <= k < e ==> is_ws_char(s[k]),
        e < s.len() ==> !is_ws_char(s[e]),
        !(e - i - a.len() >= 1 && e + b.len() <= s.len() && matches_at_ci(s, b, e) && (word_bounds
            ==> (e + b.len() == s.len() || !is_word_char(s[e + b.len()])))),
    ensures
        forall|g: int|
            !(gap_at(s, a, b, i, g) && (word_bounds ==> (i == 0 || !is_word_char(s[i - 1])) && (i
                + a.len() + g + b.len() == s.len() || !is_word_char(s[i + a.len() + g
                + b.len()])))),
{
    assert forall|g: int|
        !(gap_at(s, a, b, i, g) && (word_bounds ==> (i == 0 || !is_word_char(s[i - 1])) && (i
            + a.len() + g + b.len() == s.len() || !is_word_char(s[i + a.len() + g
            + b.len()])))) by {
        if gap_at(s, a, b, i, g) {
            let q = i + a.len() + g;
            if q < e {
                assert(is_ws_char(s[q]));
                assert(chars_eq_ci(s[q + 0], b[0]));
                assert(false);
            } else if q > e {
                assert(e < s.len());
                assert(i + a.len() <= e < i + a.len() + g);
                assert(is_ws_char(s[e]));
                assert(false);
            } else {
                assert(q == e);
                assert(g == e - i - a.len());
                assert(matches_at_ci(s, b, e));
                assert(e + b.len() <= s.len());
                assert(word_bounds && !(e + b.len() == s.len() || !is_word_char(s[e + b.len()])));
            }
        }
    }
}

} // verus!
