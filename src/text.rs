//! Character-level text operations: search, replacement, line splitting and
//! decimal numerals, each stated over the text's characters.
use vstd::prelude::*;

verus! {

broadcast use vstd::string::group_string_axioms;

/// Whether `p` stands in `s` starting at position `i`.
pub open spec fn occurs_at(s: Seq<char>, p: Seq<char>, i: int) -> bool {
    0 <= i && i + p.len() <= s.len() && s.subrange(i, i + p.len()) == p
}

/// Whether `p` stands somewhere in `s`.
pub open spec fn contains(s: Seq<char>, p: Seq<char>) -> bool {
    exists|i: int| occurs_at(s, p, i)
}

/// `r` before each character of `s` and once more at its end: what replacing
/// the empty pattern gives.
pub open spec fn interleave(s: Seq<char>, r: Seq<char>) -> Seq<char>
    decreases s.len(),
{
    if s.len() == 0 {
        r
    } else {
        r + seq![s[0]] + interleave(s.drop_first(), r)
    }
}

/// `s` with every occurrence of `p`, scanned from the left without overlap,
/// replaced by `r`.
pub open spec fn replace_all(s: Seq<char>, p: Seq<char>, r: Seq<char>) -> Seq<char>
    decreases s.len(),
{
    if p.len() == 0 {
        interleave(s, r)
    } else if s.len() < p.len() {
        s
    } else if s.take(p.len() as int) == p {
        r + replace_all(s.skip(p.len() as int), p, r)
    } else {
        seq![s[0]] + replace_all(s.drop_first(), p, r)
    }
}

/// A line as it ends at a newline: one carriage return before the newline is
/// not part of it.
pub open spec fn strip_cr(line: Seq<char>) -> Seq<char> {
    if line.len() > 0 && line.last() == '\r' {
        line.drop_last()
    } else {
        line
    }
}

/// The lines of `s`, the current one begun as `cur`.
pub open spec fn lines_from(s: Seq<char>, cur: Seq<char>) -> Seq<Seq<char>>
    decreases s.len(),
{
    if s.len() == 0 {
        if cur.len() == 0 {
            seq![]
        } else {
            seq![cur]
        }
    } else if s[0] == '\n' {
        seq![strip_cr(cur)] + lines_from(s.drop_first(), seq![])
    } else {
        lines_from(s.drop_first(), cur.push(s[0]))
    }
}

/// The lines of `s`: split at each newline, a final newline ending the last
/// line rather than starting an empty one.
pub open spec fn lines(s: Seq<char>) -> Seq<Seq<char>> {
    lines_from(s, seq![])
}

/// The lines joined with a newline between each two.
pub open spec fn join_lines(ls: Seq<Seq<char>>) -> Seq<char>
    decreases ls.len(),
{
    if ls.len() == 0 {
        seq![]
    } else if ls.len() == 1 {
        ls[0]
    } else {
        join_lines(ls.drop_last()) + seq!['\n'] + ls.last()
    }
}

/// The first line shown of a window that starts at `start` (counted from 1)
/// over `n` lines: a start of zero or past the last line shows from the first.
pub open spec fn window_first(n: int, start: int) -> int {
    if start == 0 || start > n {
        0
    } else {
        start - 1
    }
}

/// The end of a window that ends at `end` (inclusive, counted from 1) over
/// `n` lines: an end past the last line stops at the last.
pub open spec fn window_end(n: int, end: int) -> int {
    if end > n {
        n
    } else {
        end
    }
}

/// What a read shows of `content`: with both bounds given, the lines from
/// `start` to `end` joined by newlines (nothing where the window is empty);
/// otherwise the whole content.
pub open spec fn line_window(content: Seq<char>, start: Option<u64>, end: Option<u64>) -> Seq<char> {
    match (start, end) {
        (Some(a), Some(b)) => {
            let ls = lines(content);
            let first = window_first(ls.len() as int, a as int);
            let last = window_end(ls.len() as int, b as int);
            if first <= last {
                join_lines(ls.subrange(first, last))
            } else {
                seq![]
            }
        },
        _ => content,
    }
}

/// The character sequences of a list of lines.
pub open spec fn line_views(ls: Seq<Vec<char>>) -> Seq<Seq<char>> {
    ls.map_values(|l: Vec<char>| l@)
}

/// The digit character for `d`.
pub open spec fn digit(d: nat) -> char {
    if d == 0 { '0' } else if d == 1 { '1' } else if d == 2 { '2' } else if d == 3 { '3' }
    else if d == 4 { '4' } else if d == 5 { '5' } else if d == 6 { '6' } else if d == 7 { '7' }
    else if d == 8 { '8' } else { '9' }
}

/// The decimal numeral of `n`, without leading zeros.
pub open spec fn decimal(n: nat) -> Seq<char>
    decreases n,
{
    if n < 10 {
        seq![digit(n)]
    } else {
        decimal(n / 10) + seq![digit(n % 10)]
    }
}

/// The decimal numeral of `i`, with a minus sign when negative.
pub open spec fn signed_decimal(i: int) -> Seq<char> {
    if i < 0 {
        seq!['-'] + decimal((-i) as nat)
    } else {
        decimal(i as nat)
    }
}

/// The character sequences of a list of texts.
pub open spec fn string_views(v: Seq<String>) -> Seq<Seq<char>> {
    v.map_values(|s: String| s@)
}

/// Relies on `String::push`: the character goes at the end.
#[verifier::external_body]
pub(crate) fn push_char(s: &mut String, c: char)
    ensures
        final(s)@ == old(s)@.push(c),
{
    s.push(c)
}

/// The characters of `s`.
pub fn chars_of(s: &str) -> (r: Vec<char>)
    ensures
        r@ == s@,
{
    let mut out: Vec<char> = Vec::new();
    for c in it: s.chars()
        invariant
            it.seq() == s@,
            out@ == it.seq().take(it.index() as int),
    {
        out.push(c);
    }
    assert(out@ =~= s@);
    out
}

/// Appends the characters `cs` to `out`.
pub fn push_chars(out: &mut String, cs: &[char])
    ensures
        final(out)@ == old(out)@ + cs@,
{
    let mut i: usize = 0;
    while i < cs.len()
        invariant
            i <= cs@.len(),
            out@ == old(out)@ + cs@.take(i as int),
        decreases cs@.len() - i,
    {
        assert(cs@.take(i + 1) =~= cs@.take(i as int).push(cs@[i as int]));
        push_char(out, cs[i]);
        i += 1;
    }
    assert(cs@.take(cs@.len() as int) =~= cs@);
}

/// The text made of the characters `cs`.
pub fn text_of(cs: &[char]) -> (r: String)
    ensures
        r@ == cs@,
{
    let mut out = String::new();
    push_chars(&mut out, cs);
    assert(out@ =~= cs@);
    out
}

/// Appends `t` to `out`.
pub fn push_text(out: &mut String, t: &str)
    ensures
        final(out)@ == old(out)@ + t@,
{
    let cs = chars_of(t);
    push_chars(out, cs.as_slice());
}

/// Whether `p` stands in `s` at position `i`.
pub fn matches_at(s: &[char], p: &[char], i: usize) -> (r: bool)
    ensures
        r == occurs_at(s@, p@, i as int),
{
    if i > s.len() || p.len() > s.len() - i {
        return false;
    }
    let mut k: usize = 0;
    while k < p.len()
        invariant
            i + p@.len() <= s@.len(),
            s@.len() <= usize::MAX,
            k <= p@.len(),
            forall|j: int| 0 <= j < k ==> s@[i + j] == p@[j],
        decreases p@.len() - k,
    {
        if s[i + k] != p[k] {
            assert(s@.subrange(i as int, i + p@.len())[k as int] != p@[k as int]);
            return false;
        }
        k += 1;
    }
    assert(s@.subrange(i as int, i + p@.len()) =~= p@);
    true
}

/// Whether `p` stands somewhere in `s`.
pub fn find_in(s: &[char], p: &[char]) -> (r: bool)
    ensures
        r == contains(s@, p@),
{
    if p.len() == 0 {
        assert(s@.subrange(0, 0) =~= p@);
        assert(occurs_at(s@, p@, 0));
        return true;
    }
    if p.len() > s.len() {
        assert forall|j: int| !occurs_at(s@, p@, j) by {}
        return false;
    }
    let last = s.len() - p.len();
    let mut i: usize = 0;
    while i <= last
        invariant
            last == s@.len() - p@.len(),
            last < usize::MAX,
            i <= last + 1,
            forall|j: int| 0 <= j < i ==> !occurs_at(s@, p@, j),
        decreases last + 1 - i,
    {
        if matches_at(s, p, i) {
            return true;
        }
        i += 1;
    }
    assert forall|j: int| !occurs_at(s@, p@, j) by {
        if 0 <= j < i {
        }
    }
    false
}

/// Whether the text `t` holds `p`.
pub fn text_contains(t: &str, p: &str) -> (r: bool)
    ensures
        r == contains(t@, p@),
{
    let tc = chars_of(t);
    let pc = chars_of(p);
    find_in(tc.as_slice(), pc.as_slice())
}

proof fn lemma_interleave_step(s: Seq<char>, r: Seq<char>, i: int)
    requires
        0 <= i < s.len(),
    ensures
        interleave(s.skip(i), r) == r + seq![s[i]] + interleave(s.skip(i + 1), r),
{
    assert(s.skip(i).drop_first() =~= s.skip(i + 1));
}

/// `s` with every occurrence of `p` replaced by `r`, as `str::replace` does.
pub fn replace_chars(s: &[char], p: &[char], r: &[char]) -> (out: Vec<char>)
    ensures
        out@ == replace_all(s@, p@, r@),
{
    let mut out: Vec<char> = Vec::new();
    let mut i: usize = 0;
    assert(s@.skip(0) =~= s@);
    if p.len() == 0 {
        while i < s.len()
            invariant
                p@.len() == 0,
                i <= s@.len(),
                out@ + interleave(s@.skip(i as int), r@) == replace_all(s@, p@, r@),
            decreases s@.len() - i,
        {
            proof {
                lemma_interleave_step(s@, r@, i as int);
            }
            let ghost before = out@;
            out.extend_from_slice(r);
            out.push(s[i]);
            assert(out@ =~= before + r@ + seq![s@[i as int]]);
            i += 1;
        }
        assert(s@.skip(i as int).len() == 0);
        out.extend_from_slice(r);
        return out;
    }
    while i < s.len()
        invariant
            p@.len() > 0,
            i <= s@.len(),
            out@ + replace_all(s@.skip(i as int), p@, r@) == replace_all(s@, p@, r@),
        decreases s@.len() - i,
    {
        let ghost rest = s@.skip(i as int);
        let ghost before = out@;
        if matches_at(s, p, i) {
            assert(rest.take(p@.len() as int) =~= s@.subrange(i as int, i + p@.len()));
            assert(rest.skip(p@.len() as int) =~= s@.skip(i + p@.len()));
            out.extend_from_slice(r);
            assert(out@ =~= before + r@);
            i += p.len();
        } else {
            assert(rest.len() >= p@.len() ==> rest.take(p@.len() as int) =~= s@.subrange(i as int, i + p@.len()));
            assert(rest.drop_first() =~= s@.skip(i + 1));
            out.push(s[i]);
            assert(out@ =~= before + seq![s@[i as int]]);
            i += 1;
        }
    }
    assert(s@.skip(i as int).len() == 0);
    out
}

/// The text `t` with every occurrence of `p` replaced by `r`.
pub fn replace_text(t: &str, p: &str, r: &str) -> (out: String)
    ensures
        out@ == replace_all(t@, p@, r@),
{
    let tc = chars_of(t);
    let pc = chars_of(p);
    let rc = chars_of(r);
    let v = replace_chars(tc.as_slice(), pc.as_slice(), rc.as_slice());
    text_of(v.as_slice())
}

/// The digit character for `d`.
pub fn digit_char(d: u64) -> (c: char)
    requires
        d < 10,
    ensures
        c == digit(d as nat),
{
    if d == 0 { '0' } else if d == 1 { '1' } else if d == 2 { '2' } else if d == 3 { '3' }
    else if d == 4 { '4' } else if d == 5 { '5' } else if d == 6 { '6' } else if d == 7 { '7' }
    else if d == 8 { '8' } else { '9' }
}

/// Appends the decimal numeral of `n` to `out`.
pub fn push_decimal(out: &mut String, n: u64)
    ensures
        final(out)@ == old(out)@ + decimal(n as nat),
    decreases n,
{
    if n >= 10 {
        push_decimal(out, n / 10);
    }
    push_char(out, digit_char(n % 10));
    assert(final(out)@ =~= old(out)@ + decimal(n as nat)) by {
        if n >= 10 {
            assert(decimal(n as nat) == decimal((n / 10) as nat) + seq![digit((n % 10) as nat)]);
        }
    };
}

/// Appends the decimal numeral of `i`, signed, to `out`.
pub fn push_signed_decimal(out: &mut String, i: i64)
    ensures
        final(out)@ == old(out)@ + signed_decimal(i as int),
{
    if i < 0 {
        push_char(out, '-');
        let m: u64 = if i == i64::MIN { 9223372036854775808u64 } else { (-i) as u64 };
        push_decimal(out, m);
        assert(final(out)@ =~= old(out)@ + signed_decimal(i as int));
    } else {
        push_decimal(out, i as u64);
    }
}

/// The lines of `s`, as `str::lines` gives them.
pub fn split_lines(s: &[char]) -> (out: Vec<Vec<char>>)
    ensures
        line_views(out@) == lines(s@),
{
    let mut out: Vec<Vec<char>> = Vec::new();
    let mut cur: Vec<char> = Vec::new();
    let mut i: usize = 0;
    assert(s@.skip(0) =~= s@);
    assert(line_views(out@) =~= seq![]);
    assert(cur@ =~= seq![]);
    while i < s.len()
        invariant
            i <= s@.len(),
            line_views(out@) + lines_from(s@.skip(i as int), cur@) == lines(s@),
        decreases s@.len() - i,
    {
        let ghost rest = s@.skip(i as int);
        assert(rest.drop_first() =~= s@.skip(i + 1));
        assert(rest[0] == s@[i as int]);
        if s[i] == '\n' {
            if cur.len() > 0 && cur[cur.len() - 1] == '\r' {
                cur.pop();
            }
            let ghost before = line_views(out@);
            let line = cur;
            cur = Vec::new();
            out.push(line);
            assert(line_views(out@) =~= before.push(line@));
            assert(cur@ =~= seq![]);
            assert(line_views(out@) + lines_from(s@.skip(i + 1), cur@) =~= before + (seq![line@] + lines_from(s@.skip(i + 1), seq![])));
        } else {
            cur.push(s[i]);
        }
        i += 1;
    }
    assert(s@.skip(i as int) =~= seq![]);
    if cur.len() > 0 {
        let ghost before = line_views(out@);
        out.push(cur);
        assert(line_views(out@) =~= before.push(cur@));
        assert(line_views(out@) =~= before + seq![cur@]);
    } else {
        assert(line_views(out@) + seq![] =~= line_views(out@));
    }
    out
}

/// The lines `ls[first..last]` joined by newlines.
pub fn join_range(ls: &Vec<Vec<char>>, first: usize, last: usize) -> (r: Vec<char>)
    requires
        first <= last <= ls@.len(),
    ensures
        r@ == join_lines(line_views(ls@).subrange(first as int, last as int)),
{
    let mut r: Vec<char> = Vec::new();
    let mut k: usize = first;
    assert(line_views(ls@).subrange(first as int, first as int) =~= seq![]);
    while k < last
        invariant
            first <= k <= last <= ls@.len(),
            r@ == join_lines(line_views(ls@).subrange(first as int, k as int)),
        decreases last - k,
    {
        let ghost part = line_views(ls@).subrange(first as int, k + 1);
        assert(part.drop_last() =~= line_views(ls@).subrange(first as int, k as int));
        assert(part.last() == ls@[k as int]@);
        if k > first {
            r.push('\n');
        } else {
            assert(r@ =~= seq![]);
        }
        r.extend_from_slice(ls[k].as_slice());
        assert(r@ =~= join_lines(part));
        k += 1;
    }
    r
}

/// What a read of `content` shows with the given line bounds.
pub fn window_of(content: &str, start: Option<u64>, end: Option<u64>) -> (r: String)
    ensures
        r@ == line_window(content@, start, end),
{
    match (start, end) {
        (Some(a), Some(b)) => {
            let cs = chars_of(content);
            let ls = split_lines(cs.as_slice());
            let n = ls.len();
            assert(line_views(ls@).len() == n);
            let first: usize = if a == 0 || a > n as u64 { 0 } else { (a - 1) as usize };
            let last: usize = if b > n as u64 { n } else { b as usize };
            if first <= last {
                let j = join_range(&ls, first, last);
                text_of(j.as_slice())
            } else {
                String::new()
            }
        },
        _ => content.to_owned(),
    }
}

} // verus!
