//! Reading the hardware clock's time standard out of the text of an
//! adjtime file: its third line, trimmed and upper-cased.
use vstd::prelude::*;

verus! {

/// Index of the first line feed in `s`, or `s.len()` where it has none.
pub open spec fn first_newline(s: Seq<char>) -> nat
    decreases s.len(),
{
    if s.len() == 0 {
        0
    } else if s[0] == '\n' {
        0
    } else {
        1 + first_newline(s.drop_first())
    }
}

/// A line without the carriage return of a `\r\n` ending.
pub open spec fn strip_cr(line: Seq<char>) -> Seq<char> {
    if line.len() > 0 && line.last() == '\r' {
        line.drop_last()
    } else {
        line
    }
}

/// The `n`-th line of `s` (from 0), as `str::lines` yields the lines: split at
/// `\n`, a `\r` before the `\n` dropped, and no empty line after a final `\n`.
pub open spec fn nth_line(s: Seq<char>, n: nat) -> Option<Seq<char>>
    decreases s.len(),
{
    if s.len() == 0 {
        None
    } else {
        let k = first_newline(s);
        if k >= s.len() {
            if n == 0 {
                Some(s)
            } else {
                None
            }
        } else if n == 0 {
            Some(strip_cr(s.take(k as int)))
        } else {
            nth_line(s.skip(k + 1 as int), (n - 1) as nat)
        }
    }
}

proof fn lemma_first_newline_at(s: Seq<char>, start: int, k: int)
    requires
        0 <= start <= k <= s.len(),
        forall|j: int| start <= j < k ==> s[j] != '\n',
        k == s.len() || s[k] == '\n',
    ensures
        first_newline(s.skip(start)) == k - start,
    decreases k - start,
{
    if start < k {
        assert(s.skip(start).drop_first() =~= s.skip(start + 1));
        lemma_first_newline_at(s, start + 1, k);
    }
}

proof fn lemma_first_newline_found(s: Seq<char>, j: int)
    requires
        0 <= j < s.len(),
        s[j] == '\n',
    ensures
        first_newline(s) <= j,
    decreases s.len(),
{
    if s[0] != '\n' {
        lemma_first_newline_found(s.drop_first(), j - 1);
    }
}

proof fn lemma_first_newline_append(s: Seq<char>, t: Seq<char>)
    requires
        first_newline(s) < s.len(),
    ensures
        first_newline(s + t) == first_newline(s),
    decreases s.len(),
{
    if s[0] != '\n' {
        assert((s + t).drop_first() =~= s.drop_first() + t);
        lemma_first_newline_append(s.drop_first(), t);
    }
}

proof fn lemma_nth_line_append(s: Seq<char>, t: Seq<char>, n: nat)
    requires
        s.len() > 0,
        s.last() == '\n',
        nth_line(s, n) is Some,
    ensures
        nth_line(s + t, n) == nth_line(s, n),
    decreases s.len(),
{
    lemma_first_newline_found(s, s.len() - 1);
    lemma_first_newline_append(s, t);
    let k = first_newline(s);
    if n == 0 {
        assert((s + t).take(k as int) =~= s.take(k as int));
    } else {
        assert((s + t).skip(k + 1 as int) =~= s.skip(k + 1 as int) + t);
        let rest = s.skip(k + 1 as int);
        if rest.len() > 0 {
            assert(rest.last() == s.last());
            lemma_nth_line_append(rest, t, (n - 1) as nat);
        }
    }
}

/// Only the third line counts: text after a complete third line (one that
/// ends in a line feed) never changes the mode read.
pub proof fn later_lines_do_not_matter(content: Seq<char>, later: Seq<char>)
    requires
        nth_line(content, 2) is Some,
        content.len() > 0 && content.last() == '\n',
    ensures
        hwclock_mode(content + later) == hwclock_mode(content),
{
    lemma_nth_line_append(content, later, 2);
}

/// The characters of `s`, in order.
pub fn char_vec(s: &str) -> (v: Vec<char>)
    ensures
        v@ == s@,
{
    let mut v: Vec<char> = Vec::new();
    for c in it: s.chars()
        invariant
            v@ == it.seq().take(it.index() as int),
    {
        v.push(c);
    }
    v
}

/// Where the third line of `chars` lies, as a range of indices.
fn third_line_range(chars: &Vec<char>) -> (r: Option<(usize, usize)>)
    ensures
        match r {
            None => nth_line(chars@, 2) is None,
            Some((lo, hi)) => lo <= hi <= chars.len() && nth_line(chars@, 2) == Some(
                chars@.subrange(lo as int, hi as int),
            ),
        },
{
    let len = chars.len();
    let mut start: usize = 0;
    let mut n: usize = 2;
    assert(chars@.skip(0) =~= chars@);
    loop
        invariant
            len == chars.len(),
            start <= len,
            n <= 2,
            nth_line(chars@.skip(start as int), n as nat) == nth_line(chars@, 2),
        decreases len - start,
    {
        let ghost rest = chars@.skip(start as int);
        if start >= len {
            assert(rest.len() == 0);
            return None;
        }
        let mut k = start;
        while k < len && chars[k] != '\n'
            invariant
                len == chars.len(),
                start <= k <= len,
                forall|j: int| start <= j < k ==> chars@[j] != '\n',
            decreases len - k,
        {
            k = k + 1;
        }
        proof {
            lemma_first_newline_at(chars@, start as int, k as int);
        }
        if k >= len {
            if n == 0 {
                assert(rest =~= chars@.subrange(start as int, len as int));
                return Some((start, len));
            } else {
                return None;
            }
        }
        if n == 0 {
            assert(rest.take(k - start) =~= chars@.subrange(start as int, k as int));
            if k > start && chars[k - 1] == '\r' {
                assert(chars@.subrange(start as int, k as int).drop_last() =~= chars@.subrange(
                    start as int,
                    k - 1,
                ));
                return Some((start, k - 1));
            }
            return Some((start, k));
        }
        assert(rest.skip(k - start + 1) =~= chars@.skip(k + 1));
        start = k + 1;
        n = n - 1;
    }
}

/// Whether `c` has the Unicode `White_Space` property, which is what
/// `char::is_whitespace` tests: the controls U+0009 to U+000D, the space,
/// U+0085, the no-break space U+00A0, U+1680, the spaces U+2000 to U+200A,
/// the line and paragraph separators U+2028 and U+2029, U+202F, U+205F and
/// the ideographic space U+3000.
pub open spec fn white_space(c: char) -> bool {
    let n = c as u32;
    ||| 0x9 <= n <= 0xd
    ||| n == 0x20
    ||| n == 0x85
    ||| n == 0xa0
    ||| n == 0x1680
    ||| 0x2000 <= n <= 0x200a
    ||| n == 0x2028
    ||| n == 0x2029
    ||| n == 0x202f
    ||| n == 0x205f
    ||| n == 0x3000
}

/// `s` upper-cased as `str::to_uppercase` does it.
pub uninterp spec fn uppercase_of(s: Seq<char>) -> Seq<char>;

/// Calls `char::is_whitespace`, which tells whether `c` has the Unicode
/// `White_Space` property; `white_space` lists the code points that have it.
#[verifier::external_body]
fn is_whitespace(c: char) -> (r: bool)
    ensures
        r == white_space(c),
{
    c.is_whitespace()
}

/// Calls `str::to_uppercase`; the result is named `uppercase_of(s@)`, since
/// the case mapping is a table of the Unicode database. Each character maps
/// to one or more characters, so the result is empty exactly when `s` is.
#[verifier::external_body]
fn to_uppercase(s: &str) -> (r: String)
    ensures
        r@ == uppercase_of(s@),
        r@.len() == 0 <==> s@.len() == 0,
{
    s.to_uppercase()
}

/// First index at or after `i` whose flag is off, or `f.len()`.
pub open spec fn leading_from(f: Seq<bool>, i: int) -> int
    decreases f.len() - i,
{
    if i >= f.len() {
        f.len() as int
    } else if !f[i] {
        i
    } else {
        leading_from(f, i + 1)
    }
}

/// Going down from `j`, the last index above `lo` before which the flag is
/// off, or `lo`.
pub open spec fn trailing_to(f: Seq<bool>, lo: int, j: int) -> int
    decreases j - lo,
{
    if j <= lo {
        lo
    } else if !f[j - 1] {
        j
    } else {
        trailing_to(f, lo, j - 1)
    }
}

/// Start of what is left once the leading flagged items are dropped.
pub open spec fn trim_start(f: Seq<bool>) -> int {
    leading_from(f, 0)
}

/// End of what is left once the leading and trailing flagged items are
/// dropped.
pub open spec fn trim_end(f: Seq<bool>) -> int {
    trailing_to(f, trim_start(f), f.len() as int)
}

/// Which characters of `s` are white space.
pub open spec fn ws_flags(s: Seq<char>) -> Seq<bool> {
    s.map_values(|c: char| white_space(c))
}

/// `s` without leading and trailing white space, as `str::trim` gives it.
pub open spec fn trim(s: Seq<char>) -> Seq<char> {
    s.subrange(trim_start(ws_flags(s)), trim_end(ws_flags(s)))
}

/// A mode that is empty counts as no mode.
pub open spec fn nonempty_mode(u: Seq<char>) -> Option<Seq<char>> {
    if u.len() == 0 {
        None
    } else {
        Some(u)
    }
}

/// The third line of `content`, trimmed and upper-cased, where it has one.
pub open spec fn third_line_key(content: Seq<char>) -> Option<Seq<char>> {
    match nth_line(content, 2) {
        None => None,
        Some(line) => Some(uppercase_of(trim(line))),
    }
}

/// The hardware clock mode that an adjtime file with text `content` names:
/// its third line, trimmed and upper-cased, where that line exists and is
/// not empty then.
pub open spec fn hwclock_mode(content: Seq<char>) -> Option<Seq<char>> {
    match third_line_key(content) {
        None => None,
        Some(u) => nonempty_mode(u),
    }
}

/// Nothing but the third line's trimmed, upper-cased text counts: the other
/// lines, the case of the letters and the white space around them never
/// change the mode read.
pub proof fn only_the_third_line_counts(a: Seq<char>, b: Seq<char>)
    requires
        third_line_key(a) == third_line_key(b),
    ensures
        hwclock_mode(a) == hwclock_mode(b),
{
}

proof fn lemma_line_then(l: Seq<char>, r: Seq<char>)
    requires
        forall|j: int| 0 <= j < l.len() ==> l[j] != '\n',
    ensures
        first_newline(l + seq!['\n'] + r) == l.len(),
        (l + seq!['\n'] + r).take(l.len() as int) == l,
        (l + seq!['\n'] + r).skip(l.len() + 1 as int) == r,
{
    let s = l + seq!['\n'] + r;
    assert(s[l.len() as int] == '\n');
    assert forall|j: int| 0 <= j < l.len() implies s[j] != '\n' by {
        assert(s[j] == l[j]);
    }
    lemma_first_newline_at(s, 0, l.len() as int);
    assert(s.skip(0) =~= s);
    assert(s.take(l.len() as int) =~= l);
    assert(s.skip(l.len() + 1 as int) =~= r);
}

proof fn lemma_nth_line_after(l: Seq<char>, r: Seq<char>, n: nat)
    requires
        forall|j: int| 0 <= j < l.len() ==> l[j] != '\n',
    ensures
        nth_line(l + seq!['\n'] + r, n + 1) == nth_line(r, n),
{
    lemma_line_then(l, r);
}

/// The third line of a text is its third line: for any lines `l0`, `l1`,
/// `l2` (without line feeds) and any text `rest`, the third line of
/// `l0\nl1\nl2\nrest` is `l2` (less a `\r` ending), and the mode read from
/// it is `l2` trimmed and upper-cased, none where that is empty; what the
/// first two lines or `rest` hold plays no part.
pub proof fn mode_of_the_third_line(
    l0: Seq<char>,
    l1: Seq<char>,
    l2: Seq<char>,
    rest: Seq<char>,
)
    requires
        forall|j: int| 0 <= j < l0.len() ==> l0[j] != '\n',
        forall|j: int| 0 <= j < l1.len() ==> l1[j] != '\n',
        forall|j: int| 0 <= j < l2.len() ==> l2[j] != '\n',
    ensures
        nth_line(l0 + seq!['\n'] + l1 + seq!['\n'] + l2 + seq!['\n'] + rest, 2) == Some(
            strip_cr(l2),
        ),
        hwclock_mode(l0 + seq!['\n'] + l1 + seq!['\n'] + l2 + seq!['\n'] + rest) == (if uppercase_of(
            trim(strip_cr(l2)),
        ).len() == 0 {
            None
        } else {
            Some(uppercase_of(trim(strip_cr(l2))))
        }),
{
    let nl = seq!['\n'];
    let t2 = l2 + nl + rest;
    let t1 = l1 + nl + t2;
    let s = l0 + nl + t1;
    assert(l0 + nl + l1 + nl + l2 + nl + rest =~= s);
    lemma_nth_line_after(l0, t1, 1);
    lemma_nth_line_after(l1, t2, 0);
    lemma_line_then(l2, rest);
}

/// A last line without a line feed counts as well: the third line of
/// `l0\nl1\nl2` is `l2` as it stands, and the mode is read from it.
pub proof fn mode_of_an_unterminated_third_line(l0: Seq<char>, l1: Seq<char>, l2: Seq<char>)
    requires
        forall|j: int| 0 <= j < l0.len() ==> l0[j] != '\n',
        forall|j: int| 0 <= j < l1.len() ==> l1[j] != '\n',
        forall|j: int| 0 <= j < l2.len() ==> l2[j] != '\n',
        l2.len() > 0,
    ensures
        nth_line(l0 + seq!['\n'] + l1 + seq!['\n'] + l2, 2) == Some(l2),
        hwclock_mode(l0 + seq!['\n'] + l1 + seq!['\n'] + l2) == (if uppercase_of(trim(l2)).len()
            == 0 {
            None
        } else {
            Some(uppercase_of(trim(l2)))
        }),
{
    let nl = seq!['\n'];
    let t1 = l1 + nl + l2;
    let s = l0 + nl + t1;
    assert(l0 + nl + l1 + nl + l2 =~= s);
    lemma_nth_line_after(l0, t1, 1);
    lemma_nth_line_after(l1, l2, 0);
    lemma_first_newline_at(l2, 0, l2.len() as int);
    assert(l2.skip(0) =~= l2);
}

/// A text of fewer than three lines names no mode: for lines `l0`, `l1`
/// (without line feeds), neither `l0\nl1` nor `l0\nl1\n` has a mode.
pub proof fn two_lines_name_no_mode(l0: Seq<char>, l1: Seq<char>)
    requires
        forall|j: int| 0 <= j < l0.len() ==> l0[j] != '\n',
        forall|j: int| 0 <= j < l1.len() ==> l1[j] != '\n',
    ensures
        hwclock_mode(l0 + seq!['\n'] + l1) is None,
        hwclock_mode(l0 + seq!['\n'] + l1 + seq!['\n']) is None,
{
    let nl = seq!['\n'];
    lemma_nth_line_after(l0, l1, 1);
    lemma_first_newline_at(l1, 0, l1.len() as int);
    assert(l1.skip(0) =~= l1);
    let t = l1 + nl;
    assert(l0 + nl + l1 + nl =~= l0 + nl + t);
    lemma_nth_line_after(l0, t, 1);
    lemma_nth_line_after(l1, Seq::<char>::empty(), 0);
    assert(l1 + nl + Seq::<char>::empty() =~= t);
}

/// Texts with the same third line name the same mode, whatever else they
/// hold.
pub proof fn same_third_line_same_mode(a: Seq<char>, b: Seq<char>)
    requires
        nth_line(a, 2) == nth_line(b, 2),
    ensures
        hwclock_mode(a) == hwclock_mode(b),
{
}

proof fn lemma_leading_from_at(f: Seq<bool>, i: int, j: int)
    requires
        0 <= i <= j < f.len(),
        forall|k: int| i <= k < j ==> f[k],
        !f[j],
    ensures
        leading_from(f, i) == j,
    decreases j - i,
{
    if i < j {
        lemma_leading_from_at(f, i + 1, j);
    }
}

proof fn lemma_trailing_to_at(f: Seq<bool>, lo: int, m: int, j: int)
    requires
        lo < m <= j <= f.len(),
        forall|k: int| m <= k < j ==> f[k],
        !f[m - 1],
    ensures
        trailing_to(f, lo, j) == m,
    decreases j - m,
{
    if m < j {
        lemma_trailing_to_at(f, lo, m, j - 1);
    }
}

/// White space around the text is dropped: where `before` and `after` are
/// all white space and `text` neither starts nor ends with white space,
/// trimming `before + text + after` gives `text`.
pub proof fn surrounding_white_space_is_trimmed(
    before: Seq<char>,
    text: Seq<char>,
    after: Seq<char>,
)
    requires
        forall|k: int| 0 <= k < before.len() ==> white_space(#[trigger] before[k]),
        forall|k: int| 0 <= k < after.len() ==> white_space(#[trigger] after[k]),
        text.len() > 0,
        !white_space(text[0]),
        !white_space(text.last()),
    ensures
        trim(before + text + after) == text,
{
    let s = before + text + after;
    let f = ws_flags(s);
    let a = before.len() as int;
    let b = a + text.len();
    assert forall|k: int| 0 <= k < a implies f[k] by {
        assert(s[k] == before[k]);
    }
    assert(s[a] == text[0]);
    lemma_leading_from_at(f, 0, a);
    assert forall|k: int| b <= k < f.len() implies f[k] by {
        assert(s[k] == after[k - b]);
    }
    assert(s[b - 1] == text.last());
    lemma_trailing_to_at(f, a, b, f.len() as int);
    assert(s.subrange(a, b) =~= text);
}

/// The bounds of what is left of a sequence once the items flagged at its
/// start and at its end are dropped (all of it flagged leaves an empty
/// range at its end).
pub fn trim_bounds(flags: &Vec<bool>) -> (r: (usize, usize))
    ensures
        r.0 == trim_start(flags@),
        r.1 == trim_end(flags@),
        r.0 <= r.1 <= flags.len(),
{
    let len = flags.len();
    let mut a: usize = 0;
    while a < len && flags[a]
        invariant
            len == flags.len(),
            a <= len,
            leading_from(flags@, a as int) == leading_from(flags@, 0),
        decreases len - a,
    {
        a = a + 1;
    }
    let mut b: usize = len;
    while b > a && flags[b - 1]
        invariant
            len == flags.len(),
            a <= b <= len,
            a == trim_start(flags@),
            trailing_to(flags@, a as int, b as int) == trim_end(flags@),
        decreases b,
    {
        b = b - 1;
    }
    (a, b)
}

/// The mode that an upper-cased third line names: none where it is empty.
pub fn mode_from_uppercased(upper: String) -> (r: Option<String>)
    ensures
        r.deep_view() == nonempty_mode(upper@),
{
    if upper.as_str().unicode_len() == 0 {
        None
    } else {
        Some(upper)
    }
}

/// Reads the hardware clock mode out of the text of an adjtime file: its
/// third line, trimmed of white space and upper-cased; none where there is
/// no third line or it holds only white space. A mode read is never empty.
pub fn hwclock_mode_from_adjtime(content: &str) -> (r: Option<String>)
    ensures
        r.deep_view() == hwclock_mode(content@),
        r matches Some(m) ==> m@.len() > 0,
        nth_line(content@, 2) matches Some(line) && trim(line).len() == 0 ==> r is None,
{
    let chars = char_vec(content);
    match third_line_range(&chars) {
        None => None,
        Some((lo, hi)) => {
            let ghost line = chars@.subrange(lo as int, hi as int);
            let mut flags: Vec<bool> = Vec::new();
            let mut i = lo;
            while i < hi
                invariant
                    lo <= i <= hi <= chars.len(),
                    line == chars@.subrange(lo as int, hi as int),
                    flags.len() == i - lo,
                    forall|j: int| 0 <= j < flags.len() ==> flags@[j] == white_space(line[j]),
                decreases hi - i,
            {
                flags.push(is_whitespace(chars[i]));
                i = i + 1;
            }
            assert(flags@ =~= ws_flags(line));
            let (a, b) = trim_bounds(&flags);
            assert(line.subrange(a as int, b as int) =~= content@.subrange(
                lo + a,
                lo + b,
            ));
            let trimmed = content.substring_char(lo + a, lo + b);
            mode_from_uppercased(to_uppercase(trimmed))
        },
    }
}

} // verus!
