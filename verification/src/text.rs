//! Character-level text helpers used by the parsers and message builders.

use vstd::prelude::*;

verus! {

broadcast use vstd::string::group_string_axioms;

/// Appends one character to a string.
/// Calls `String::push`, which the std documentation says appends the given
/// `char` to the end of the string.
#[verifier::external_body]
pub(crate) fn push_char(s: &mut String, c: char)
    ensures
        final(s)@ == old(s)@.push(c),
{
    s.push(c);
}

/// The characters of a string slice, in order.
pub fn chars_of(s: &str) -> (out: Vec<char>)
    ensures
        out@ == s@,
{
    let mut out: Vec<char> = Vec::new();
    for c in it: s.chars()
        invariant
            it.seq() == s@,
            out@ == it.seq().take(it.index() as int),
    {
        out.push(c);
    }
    out
}

/// A string holding exactly the given characters.
pub fn string_of(cs: &[char]) -> (out: String)
    ensures
        out@ == cs@,
{
    let mut out = String::new();
    let mut i: usize = 0;
    while i < cs.len()
        invariant
            i <= cs@.len(),
            out@ == cs@.take(i as int),
        decreases cs@.len() - i,
    {
        push_char(&mut out, cs[i]);
        assert(cs@.take(i as int).push(cs@[i as int]) =~= cs@.take(i + 1));
        i = i + 1;
    }
    assert(cs@.take(cs@.len() as int) =~= cs@);
    out
}

} // verus!

verus! {

/// Unicode `White_Space` characters, as recognized by `char::is_whitespace`.
pub open spec fn is_ws(c: char) -> bool {
    ||| ('\t' <= c && c <= '\r')
    ||| c == ' '
    ||| c == '\u{85}'
    ||| c == '\u{a0}'
    ||| c == '\u{1680}'
    ||| ('\u{2000}' <= c && c <= '\u{200a}')
    ||| c == '\u{2028}'
    ||| c == '\u{2029}'
    ||| c == '\u{202f}'
    ||| c == '\u{205f}'
    ||| c == '\u{3000}'
}

pub fn is_whitespace(c: char) -> (b: bool)
    ensures
        b == is_ws(c),
{
    ('\t' <= c && c <= '\r') || c == ' ' || c == '\u{85}' || c == '\u{a0}' || c == '\u{1680}'
        || ('\u{2000}' <= c && c <= '\u{200a}') || c == '\u{2028}' || c == '\u{2029}' || c
        == '\u{202f}' || c == '\u{205f}' || c == '\u{3000}'
}

/// The views of a sequence of character vectors.
pub open spec fn seqs_of(v: Seq<Vec<char>>) -> Seq<Seq<char>> {
    Seq::new(v.len(), |i: int| v[i]@)
}

/// The views of a sequence of strings.
pub open spec fn strs_of(v: Seq<String>) -> Seq<Seq<char>> {
    Seq::new(v.len(), |i: int| v[i]@)
}

/// `s` split at every occurrence of `sep`; always holds at least one piece.
pub open spec fn split_on(s: Seq<char>, sep: char) -> Seq<Seq<char>>
    decreases s.len(),
{
    if s.len() == 0 {
        seq![Seq::<char>::empty()]
    } else {
        let prev = split_on(s.drop_last(), sep);
        if s.last() == sep {
            prev.push(Seq::<char>::empty())
        } else {
            prev.update(prev.len() - 1, prev.last().push(s.last()))
        }
    }
}

pub proof fn lemma_split_on_nonempty(s: Seq<char>, sep: char)
    ensures
        split_on(s, sep).len() >= 1,
    decreases s.len(),
{
    if s.len() > 0 {
        lemma_split_on_nonempty(s.drop_last(), sep);
    }
}

/// Splitting at a separator that joins two texts splits each of them.
pub proof fn lemma_split_on_joined(a: Seq<char>, b: Seq<char>, sep: char)
    ensures
        split_on(a + seq![sep] + b, sep) == split_on(a, sep) + split_on(b, sep),
    decreases b.len(),
{
    let s = a + seq![sep] + b;
    if b.len() == 0 {
        assert(s.drop_last() =~= a);
        assert(split_on(a, sep).push(Seq::<char>::empty()) =~= split_on(a, sep) + split_on(b, sep));
    } else {
        let b0 = b.drop_last();
        lemma_split_on_joined(a, b0, sep);
        assert(s.drop_last() =~= a + seq![sep] + b0);
        assert(s.last() == b.last());
        let x = split_on(a, sep);
        let y = split_on(b0, sep);
        lemma_split_on_nonempty(b0, sep);
        if b.last() == sep {
            assert((x + y).push(Seq::<char>::empty()) =~= x + y.push(Seq::<char>::empty()));
        } else {
            let xy = x + y;
            assert(xy.last() == y.last());
            assert(xy.update(xy.len() - 1, xy.last().push(b.last())) =~= x + y.update(
                y.len() - 1,
                y.last().push(b.last()),
            ));
        }
    }
}

/// A text without the separator is one piece.
pub proof fn lemma_split_on_without_sep(p: Seq<char>, sep: char)
    requires
        forall|i: int| 0 <= i < p.len() ==> p[i] != sep,
    ensures
        split_on(p, sep) == seq![p],
    decreases p.len(),
{
    if p.len() > 0 {
        lemma_split_on_without_sep(p.drop_last(), sep);
        assert(p.drop_last().push(p.last()) =~= p);
        assert(seq![p.drop_last()].update(0, p) =~= seq![p]);
    } else {
        assert(p =~= Seq::<char>::empty());
    }
}

/// No piece of a split holds the separator.
pub proof fn lemma_split_on_pieces(s: Seq<char>, sep: char)
    ensures
        forall|i: int, j: int|
            0 <= i < split_on(s, sep).len() && 0 <= j < split_on(s, sep)[i].len() ==> #[trigger] split_on(
                s,
                sep,
            )[i][j] != sep,
    decreases s.len(),
{
    if s.len() > 0 {
        lemma_split_on_pieces(s.drop_last(), sep);
        lemma_split_on_nonempty(s.drop_last(), sep);
        let prev = split_on(s.drop_last(), sep);
        if s.last() != sep {
            let cur = split_on(s, sep);
            assert forall|i: int, j: int| 0 <= i < cur.len() && 0 <= j < cur[i].len() implies #[trigger] cur[i][j]
                != sep by {
                if i < prev.len() - 1 {
                    assert(cur[i] == prev[i]);
                } else {
                    assert(cur[i] == prev.last().push(s.last()));
                    if j < prev.last().len() {
                        assert(cur[i][j] == prev[prev.len() - 1][j]);
                    }
                }
            }
        } else {
            let cur = split_on(s, sep);
            assert forall|i: int, j: int| 0 <= i < cur.len() && 0 <= j < cur[i].len() implies #[trigger] cur[i][j]
                != sep by {
                if i < prev.len() {
                    assert(cur[i] == prev[i]);
                }
            }
        }
    }
}

/// A joined sequence of pieces starts with the first piece's first
/// character.
pub proof fn lemma_join_with_first(ps: Seq<Seq<char>>, sep: char)
    requires
        ps.len() > 0,
        ps[0].len() > 0,
    ensures
        join_with(ps, sep).len() > 0,
        join_with(ps, sep)[0] == ps[0][0],
    decreases ps.len(),
{
    if ps.len() > 1 {
        lemma_join_with_first(ps.drop_last(), sep);
    }
}

/// The pieces of `s` between occurrences of `sep`.
pub fn split_chars(s: &[char], sep: char) -> (out: Vec<Vec<char>>)
    ensures
        seqs_of(out@) == split_on(s@, sep),
{
    let mut out: Vec<Vec<char>> = Vec::new();
    let mut cur: Vec<char> = Vec::new();
    let mut i: usize = 0;
    while i < s.len()
        invariant
            i <= s@.len(),
            seqs_of(out@).push(cur@) == split_on(s@.take(i as int), sep),
        decreases s@.len() - i,
    {
        let c = s[i];
        proof {
            assert(s@.take(i + 1).drop_last() =~= s@.take(i as int));
            lemma_split_on_nonempty(s@.take(i as int), sep);
        }
        let ghost before = seqs_of(out@);
        let ghost cur_before = cur@;
        if c == sep {
            out.push(cur);
            cur = Vec::new();
            assert(seqs_of(out@) =~= before.push(cur_before));
        } else {
            cur.push(c);
            assert(seqs_of(out@) =~= before);
        }
        i = i + 1;
        assert(seqs_of(out@).push(cur@) =~= split_on(s@.take(i as int), sep));
    }
    assert(s@.take(s@.len() as int) =~= s@);
    let ghost before = seqs_of(out@);
    let ghost cur_before = cur@;
    out.push(cur);
    assert(seqs_of(out@) =~= before.push(cur_before));
    out
}

/// `s` without leading whitespace.
pub open spec fn trim_start(s: Seq<char>) -> Seq<char>
    decreases s.len(),
{
    if s.len() > 0 && is_ws(s[0]) {
        trim_start(s.drop_first())
    } else {
        s
    }
}

/// `s` without trailing whitespace.
pub open spec fn trim_end(s: Seq<char>) -> Seq<char>
    decreases s.len(),
{
    if s.len() > 0 && is_ws(s.last()) {
        trim_end(s.drop_last())
    } else {
        s
    }
}

/// `s` without leading or trailing whitespace, as `str::trim` gives it.
pub open spec fn trim(s: Seq<char>) -> Seq<char> {
    trim_end(trim_start(s))
}

/// The characters `s[from..to]` as a new vector.
pub fn copy_range(s: &[char], from: usize, to: usize) -> (out: Vec<char>)
    requires
        from <= to <= s@.len(),
    ensures
        out@ == s@.subrange(from as int, to as int),
{
    let mut out: Vec<char> = Vec::new();
    let mut i = from;
    while i < to
        invariant
            from <= i <= to <= s@.len(),
            out@ == s@.subrange(from as int, i as int),
        decreases to - i,
    {
        out.push(s[i]);
        assert(s@.subrange(from as int, i + 1) =~= s@.subrange(from as int, i as int).push(s@[i as int]));
        i = i + 1;
    }
    out
}

pub fn trim_start_chars(s: &[char]) -> (out: Vec<char>)
    ensures
        out@ == trim_start(s@),
{
    let mut i: usize = 0;
    assert(s@.subrange(0, s@.len() as int) =~= s@);
    while i < s.len() && is_whitespace(s[i])
        invariant
            i <= s@.len(),
            trim_start(s@) == trim_start(s@.subrange(i as int, s@.len() as int)),
        decreases s@.len() - i,
    {
        assert(s@.subrange(i as int, s@.len() as int).drop_first() =~= s@.subrange(i + 1, s@.len() as int));
        i = i + 1;
    }
    copy_range(s, i, s.len())
}

pub fn trim_end_chars(s: &[char]) -> (out: Vec<char>)
    ensures
        out@ == trim_end(s@),
{
    let mut j: usize = s.len();
    assert(s@.take(s@.len() as int) =~= s@);
    while j > 0 && is_whitespace(s[j - 1])
        invariant
            j <= s@.len(),
            trim_end(s@) == trim_end(s@.take(j as int)),
        decreases j,
    {
        assert(s@.take(j as int).drop_last() =~= s@.take(j - 1));
        j = j - 1;
    }
    assert(s@.take(j as int) =~= s@.subrange(0, j as int));
    copy_range(s, 0, j)
}

pub fn trim_chars(s: &[char]) -> (out: Vec<char>)
    ensures
        out@ == trim(s@),
{
    let a = trim_start_chars(s);
    trim_end_chars(a.as_slice())
}

/// Whether `p` is a prefix of `s`.
pub fn has_prefix(s: &[char], p: &[char]) -> (b: bool)
    ensures
        b == p@.is_prefix_of(s@),
{
    if p.len() > s.len() {
        return false;
    }
    let mut i: usize = 0;
    while i < p.len()
        invariant
            p@.len() <= s@.len(),
            i <= p@.len(),
            forall|k: int| 0 <= k < i ==> p@[k] == s@[k],
        decreases p@.len() - i,
    {
        if p[i] != s[i] {
            return false;
        }
        i = i + 1;
    }
    true
}

/// Whether `p` is a suffix of `s`.
pub open spec fn is_suffix(p: Seq<char>, s: Seq<char>) -> bool {
    p.len() <= s.len() && s.subrange(s.len() - p.len(), s.len() as int) == p
}

pub fn has_suffix(s: &[char], p: &[char]) -> (b: bool)
    ensures
        b == is_suffix(p@, s@),
{
    if p.len() > s.len() {
        return false;
    }
    let off = s.len() - p.len();
    let mut i: usize = 0;
    while i < p.len()
        invariant
            p@.len() <= s@.len(),
            off == s@.len() - p@.len(),
            s@.len() == s.len(),
            i <= p@.len(),
            forall|k: int| 0 <= k < i ==> p@[k] == s@[off + k],
        decreases p@.len() - i,
    {
        if p[i] != s[off + i] {
            assert(s@.subrange(off as int, s@.len() as int)[i as int] != p@[i as int]);
            return false;
        }
        i = i + 1;
    }
    assert(s@.subrange(off as int, s@.len() as int) =~= p@);
    true
}

} // verus!

verus! {

/// A line without one trailing carriage return.
pub open spec fn strip_cr(l: Seq<char>) -> Seq<char> {
    if l.len() > 0 && l.last() == '\r' {
        l.drop_last()
    } else {
        l
    }
}

/// The lines of `s`, as `str::lines` yields them: split at `\n`, a `\r` before
/// each `\n` removed, and no final empty line after a trailing `\n`.
pub open spec fn lines_of(s: Seq<char>) -> Seq<Seq<char>> {
    let parts = split_on(s, '\n');
    let body = if parts.last().len() == 0 {
        parts.drop_last()
    } else {
        parts
    };
    Seq::new(
        body.len(),
        |i: int|
            if i < parts.len() - 1 {
                strip_cr(body[i])
            } else {
                body[i]
            },
    )
}

pub fn lines_chars(s: &[char]) -> (out: Vec<Vec<char>>)
    ensures
        seqs_of(out@) == lines_of(s@),
{
    let parts = split_chars(s, '\n');
    proof {
        lemma_split_on_nonempty(s@, '\n');
    }
    let n = parts.len();
    let body_len = if parts[n - 1].len() == 0 {
        n - 1
    } else {
        n
    };
    let mut out: Vec<Vec<char>> = Vec::new();
    let mut i: usize = 0;
    while i < body_len
        invariant
            n == parts@.len(),
            seqs_of(parts@) == split_on(s@, '\n'),
            n >= 1,
            body_len == (if parts@[n - 1]@.len() == 0 { n - 1 } else { n as int }),
            i <= body_len,
            seqs_of(out@) =~= lines_of(s@).take(i as int),
        decreases body_len - i,
    {
        let part = &parts[i];
        let ghost pv = part@;
        assert(seqs_of(parts@)[i as int] == pv);
        let line = if i < n - 1 && part.len() > 0 && part[part.len() - 1] == '\r' {
            copy_range(part.as_slice(), 0, part.len() - 1)
        } else {
            copy_range(part.as_slice(), 0, part.len())
        };
        assert(pv.subrange(0, pv.len() as int) =~= pv);
        assert(pv.subrange(0, pv.len() - 1) =~= pv.drop_last());
        let ghost before = seqs_of(out@);
        out.push(line);
        assert(seqs_of(out@) =~= before.push(lines_of(s@)[i as int]));
        i = i + 1;
    }
    assert(lines_of(s@).take(body_len as int) =~= lines_of(s@));
    out
}

/// The whitespace-separated words of `s`, as `str::split_whitespace` yields them.
pub open spec fn words(s: Seq<char>) -> Seq<Seq<char>>
    decreases s.len(),
{
    if s.len() == 0 {
        Seq::empty()
    } else {
        let prev = words(s.drop_last());
        let c = s.last();
        if is_ws(c) {
            prev
        } else if s.len() >= 2 && !is_ws(s[s.len() - 2]) {
            prev.update(prev.len() - 1, prev.last().push(c))
        } else {
            prev.push(seq![c])
        }
    }
}

pub proof fn lemma_words_nonempty(s: Seq<char>)
    requires
        s.len() >= 1,
        !is_ws(s.last()),
    ensures
        words(s).len() >= 1,
    decreases s.len(),
{
    if s.len() >= 2 && !is_ws(s[s.len() - 2]) {
        lemma_words_nonempty(s.drop_last());
    }
}

pub fn words_chars(s: &[char]) -> (out: Vec<Vec<char>>)
    ensures
        seqs_of(out@) == words(s@),
{
    let mut out: Vec<Vec<char>> = Vec::new();
    let mut cur: Vec<char> = Vec::new();
    let mut in_word = false;
    let mut i: usize = 0;
    while i < s.len()
        invariant
            i <= s@.len(),
            in_word == (i > 0 && !is_ws(s@[i - 1])),
            in_word ==> seqs_of(out@).push(cur@) == words(s@.take(i as int)),
            !in_word ==> seqs_of(out@) == words(s@.take(i as int)) && cur@.len() == 0,
        decreases s@.len() - i,
    {
        let c = s[i];
        let ghost t = s@.take(i + 1);
        assert(t.drop_last() =~= s@.take(i as int));
        assert(t.last() == c);
        let ghost before = seqs_of(out@);
        let ghost cur_before = cur@;
        if is_whitespace(c) {
            if in_word {
                out.push(cur);
                cur = Vec::new();
                assert(seqs_of(out@) =~= before.push(cur_before));
            }
            in_word = false;
        } else {
            if in_word {
                assert(t[t.len() - 2] == s@[i - 1]);
                cur.push(c);
            } else {
                cur.push(c);
                assert(cur@ =~= seq![c]);
            }
            in_word = true;
        }
        i = i + 1;
    }
    assert(s@.take(s@.len() as int) =~= s@);
    if in_word {
        let ghost before = seqs_of(out@);
        let ghost cur_before = cur@;
        out.push(cur);
        assert(seqs_of(out@) =~= before.push(cur_before));
    }
    out
}

/// The index of the first `c` in `s`, or -1.
pub open spec fn index_of(s: Seq<char>, c: char) -> int
    decreases s.len(),
{
    if s.len() == 0 {
        -1
    } else if s[0] == c {
        0
    } else {
        let r = index_of(s.drop_first(), c);
        if r < 0 {
            -1
        } else {
            r + 1
        }
    }
}

pub proof fn lemma_index_of_found(s: Seq<char>, c: char, i: int)
    requires
        0 <= i < s.len(),
        s[i] == c,
        forall|k: int| 0 <= k < i ==> s[k] != c,
    ensures
        index_of(s, c) == i,
    decreases i,
{
    if i > 0 {
        lemma_index_of_found(s.drop_first(), c, i - 1);
    }
}

pub proof fn lemma_index_of_absent(s: Seq<char>, c: char)
    requires
        forall|k: int| 0 <= k < s.len() ==> s[k] != c,
    ensures
        index_of(s, c) == -1,
    decreases s.len(),
{
    if s.len() > 0 {
        lemma_index_of_absent(s.drop_first(), c);
    }
}

/// The position of the first `c` in `s`.
pub fn find_char(s: &[char], c: char) -> (r: Option<usize>)
    ensures
        match r {
            Some(i) => i == index_of(s@, c) && i < s@.len(),
            None => index_of(s@, c) == -1,
        },
{
    let mut i: usize = 0;
    while i < s.len()
        invariant
            i <= s@.len(),
            forall|k: int| 0 <= k < i ==> s@[k] != c,
        decreases s@.len() - i,
    {
        if s[i] == c {
            proof {
                lemma_index_of_found(s@, c, i as int);
            }
            return Some(i);
        }
        i = i + 1;
    }
    proof {
        lemma_index_of_absent(s@, c);
    }
    None
}

/// The index of the first whitespace character in `s`, or -1.
pub open spec fn index_of_ws(s: Seq<char>) -> int
    decreases s.len(),
{
    if s.len() == 0 {
        -1
    } else if is_ws(s[0]) {
        0
    } else {
        let r = index_of_ws(s.drop_first());
        if r < 0 {
            -1
        } else {
            r + 1
        }
    }
}

pub proof fn lemma_index_of_ws_found(s: Seq<char>, i: int)
    requires
        0 <= i < s.len(),
        is_ws(s[i]),
        forall|k: int| 0 <= k < i ==> !is_ws(s[k]),
    ensures
        index_of_ws(s) == i,
    decreases i,
{
    if i > 0 {
        lemma_index_of_ws_found(s.drop_first(), i - 1);
    }
}

pub proof fn lemma_index_of_ws_absent(s: Seq<char>)
    requires
        forall|k: int| 0 <= k < s.len() ==> !is_ws(s[k]),
    ensures
        index_of_ws(s) == -1,
    decreases s.len(),
{
    if s.len() > 0 {
        lemma_index_of_ws_absent(s.drop_first());
    }
}

pub fn find_whitespace(s: &[char]) -> (r: Option<usize>)
    ensures
        match r {
            Some(i) => i == index_of_ws(s@) && i < s@.len(),
            None => index_of_ws(s@) == -1,
        },
{
    let mut i: usize = 0;
    while i < s.len()
        invariant
            i <= s@.len(),
            forall|k: int| 0 <= k < i ==> !is_ws(s@[k]),
        decreases s@.len() - i,
    {
        if is_whitespace(s[i]) {
            proof {
                lemma_index_of_ws_found(s@, i as int);
            }
            return Some(i);
        }
        i = i + 1;
    }
    proof {
        lemma_index_of_ws_absent(s@);
    }
    None
}

/// Whether two character slices are equal.
pub fn chars_eq(a: &[char], b: &[char]) -> (r: bool)
    ensures
        r == (a@ == b@),
{
    if a.len() != b.len() {
        return false;
    }
    let mut i: usize = 0;
    while i < a.len()
        invariant
            a@.len() == b@.len(),
            i <= a@.len(),
            forall|k: int| 0 <= k < i ==> a@[k] == b@[k],
        decreases a@.len() - i,
    {
        if a[i] != b[i] {
            return false;
        }
        i = i + 1;
    }
    assert(a@ =~= b@);
    true
}

/// Whether two strings hold the same characters.
pub fn str_eq(a: &str, b: &str) -> (r: bool)
    ensures
        r == (a@ == b@),
{
    let x = chars_of(a);
    let y = chars_of(b);
    chars_eq(x.as_slice(), y.as_slice())
}

} // verus!

verus! {

/// The decimal digit character for `d < 10`.
pub open spec fn digit_char(d: nat) -> char {
    if d == 0 { '0' }
    else if d == 1 { '1' }
    else if d == 2 { '2' }
    else if d == 3 { '3' }
    else if d == 4 { '4' }
    else if d == 5 { '5' }
    else if d == 6 { '6' }
    else if d == 7 { '7' }
    else if d == 8 { '8' }
    else { '9' }
}

/// The decimal representation of `n`, without leading zeros.
pub open spec fn decimal(n: nat) -> Seq<char>
    decreases n,
{
    if n < 10 {
        seq![digit_char(n)]
    } else {
        decimal(n / 10).push(digit_char(n % 10))
    }
}

/// The decimal representation of a signed integer.
pub open spec fn signed_decimal(n: int) -> Seq<char> {
    if n < 0 {
        seq!['-'] + decimal((-n) as nat)
    } else {
        decimal(n as nat)
    }
}

fn digit(d: u64) -> (c: char)
    requires
        d < 10,
    ensures
        c == digit_char(d as nat),
{
    if d == 0 { '0' }
    else if d == 1 { '1' }
    else if d == 2 { '2' }
    else if d == 3 { '3' }
    else if d == 4 { '4' }
    else if d == 5 { '5' }
    else if d == 6 { '6' }
    else if d == 7 { '7' }
    else if d == 8 { '8' }
    else { '9' }
}

/// Appends the decimal representation of `n`.
pub fn push_decimal(s: &mut String, n: u64)
    ensures
        final(s)@ == old(s)@ + decimal(n as nat),
    decreases n,
{
    if n < 10 {
        push_char(s, digit(n));
        assert(old(s)@.push(digit_char(n as nat)) =~= old(s)@ + decimal(n as nat));
    } else {
        push_decimal(s, n / 10);
        push_char(s, digit(n % 10));
        assert(old(s)@ + decimal((n / 10) as nat) + seq![digit_char((n % 10) as nat)] =~= old(s)@
            + decimal(n as nat));
    }
}

/// Appends the decimal representation of a signed `n`.
pub fn push_signed_decimal(s: &mut String, n: i64)
    requires
        n > i64::MIN,
    ensures
        final(s)@ == old(s)@ + signed_decimal(n as int),
{
    if n < 0 {
        push_char(s, '-');
        push_decimal(s, (-n) as u64);
        assert(old(s)@.push('-') + decimal((-n) as nat) =~= old(s)@ + (seq!['-'] + decimal(
            (-n) as nat,
        )));
    } else {
        push_decimal(s, n as u64);
    }
}

} // verus!

verus! {

/// `a + b + c` as a new string.
pub fn concat3(a: &str, b: &str, c: &str) -> (s: String)
    ensures
        s@ == a@ + b@ + c@,
{
    let mut s = a.to_owned();
    s.append(b);
    s.append(c);
    s
}

/// `a + b + c + d` as a new string.
pub fn concat4(a: &str, b: &str, c: &str, d: &str) -> (s: String)
    ensures
        s@ == a@ + b@ + c@ + d@,
{
    let mut s = a.to_owned();
    s.append(b);
    s.append(c);
    s.append(d);
    s
}

/// `ps` joined with `sep` between consecutive pieces.
pub open spec fn join_with(ps: Seq<Seq<char>>, sep: char) -> Seq<char>
    decreases ps.len(),
{
    if ps.len() == 0 {
        Seq::empty()
    } else if ps.len() == 1 {
        ps[0]
    } else {
        join_with(ps.drop_last(), sep) + seq![sep] + ps.last()
    }
}

/// The strings of `v` joined with `sep`.
pub fn join_strings(v: &Vec<String>, sep: char) -> (s: String)
    ensures
        s@ == join_with(strs_of(v@), sep),
{
    let mut s = String::new();
    let mut i: usize = 0;
    while i < v.len()
        invariant
            i <= v@.len(),
            s@ == join_with(strs_of(v@).take(i as int), sep),
        decreases v@.len() - i,
    {
        assert(strs_of(v@).take(i + 1).drop_last() =~= strs_of(v@).take(i as int));
        if i > 0 {
            push_char(&mut s, sep);
        }
        s.append(v[i].as_str());
        i = i + 1;
    }
    assert(strs_of(v@).take(v@.len() as int) =~= strs_of(v@));
    s
}

/// The strings of `v` joined with `sep`, a string.
pub open spec fn join_sep(ps: Seq<Seq<char>>, sep: Seq<char>) -> Seq<char>
    decreases ps.len(),
{
    if ps.len() == 0 {
        Seq::empty()
    } else if ps.len() == 1 {
        ps[0]
    } else {
        join_sep(ps.drop_last(), sep) + sep + ps.last()
    }
}

pub fn join_strings_sep(v: &Vec<String>, sep: &str) -> (s: String)
    ensures
        s@ == join_sep(strs_of(v@), sep@),
{
    let mut s = String::new();
    let mut i: usize = 0;
    while i < v.len()
        invariant
            i <= v@.len(),
            s@ == join_sep(strs_of(v@).take(i as int), sep@),
        decreases v@.len() - i,
    {
        assert(strs_of(v@).take(i + 1).drop_last() =~= strs_of(v@).take(i as int));
        if i > 0 {
            s.append(sep);
        }
        s.append(v[i].as_str());
        i = i + 1;
    }
    assert(strs_of(v@).take(v@.len() as int) =~= strs_of(v@));
    s
}


/// The given strings as a vector of owned strings.
pub fn strs1(a: &str) -> (v: Vec<String>)
    ensures
        strs_of(v@) == seq![a@],
{
    let mut v = Vec::new();
    v.push(a.to_owned());
    assert(strs_of(v@) =~= seq![a@]);
    v
}

/// The given strings as a vector of owned strings.
pub fn strs2(a: &str, b: &str) -> (v: Vec<String>)
    ensures
        strs_of(v@) == seq![a@, b@],
{
    let mut v = Vec::new();
    v.push(a.to_owned());
    v.push(b.to_owned());
    assert(strs_of(v@) =~= seq![a@, b@]);
    v
}

/// The given strings as a vector of owned strings.
pub fn strs3(a: &str, b: &str, c: &str) -> (v: Vec<String>)
    ensures
        strs_of(v@) == seq![a@, b@, c@],
{
    let mut v = Vec::new();
    v.push(a.to_owned());
    v.push(b.to_owned());
    v.push(c.to_owned());
    assert(strs_of(v@) =~= seq![a@, b@, c@]);
    v
}

/// The given strings as a vector of owned strings.
pub fn strs4(a: &str, b: &str, c: &str, d: &str) -> (v: Vec<String>)
    ensures
        strs_of(v@) == seq![a@, b@, c@, d@],
{
    let mut v = Vec::new();
    v.push(a.to_owned());
    v.push(b.to_owned());
    v.push(c.to_owned());
    v.push(d.to_owned());
    assert(strs_of(v@) =~= seq![a@, b@, c@, d@]);
    v
}

/// The given strings as a vector of owned strings.
pub fn strs5(a: &str, b: &str, c: &str, d: &str, e: &str) -> (v: Vec<String>)
    ensures
        strs_of(v@) == seq![a@, b@, c@, d@, e@],
{
    let mut v = Vec::new();
    v.push(a.to_owned());
    v.push(b.to_owned());
    v.push(c.to_owned());
    v.push(d.to_owned());
    v.push(e.to_owned());
    assert(strs_of(v@) =~= seq![a@, b@, c@, d@, e@]);
    v
}

/// The given strings as a vector of owned strings.
pub fn strs6(a: &str, b: &str, c: &str, d: &str, e: &str, f: &str) -> (v: Vec<String>)
    ensures
        strs_of(v@) == seq![a@, b@, c@, d@, e@, f@],
{
    let mut v = Vec::new();
    v.push(a.to_owned());
    v.push(b.to_owned());
    v.push(c.to_owned());
    v.push(d.to_owned());
    v.push(e.to_owned());
    v.push(f.to_owned());
    assert(strs_of(v@) =~= seq![a@, b@, c@, d@, e@, f@]);
    v
}

} // verus!
