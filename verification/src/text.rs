//! Text as sequences of characters: the classification, trimming, splitting and
//! number reading that the other modules share.

use vstd::prelude::*;

verus! {

/// `String::push` appends the given character to the end of the string.
pub assume_specification[ String::push ](s: &mut String, c: char)
    ensures
        final(s)@ == old(s)@.push(c),
;

/// The contents of a list of strings.
pub open spec fn views(v: Seq<String>) -> Seq<Seq<char>> {
    v.map_values(|s: String| s@)
}

/// The contents of a list of character vectors.
pub open spec fn chars_views(v: Seq<Vec<char>>) -> Seq<Seq<char>> {
    v.map_values(|s: Vec<char>| s@)
}

/// The contents of an optional string.
pub open spec fn opt(s: Option<String>) -> Option<Seq<char>> {
    match s {
        Some(s) => Some(s@),
        None => None,
    }
}

/// The same optional string again.
pub fn copy_opt(s: &Option<String>) -> (r: Option<String>)
    ensures
        opt(r) == opt(*s),
{
    match s {
        Some(s) => Some(s.as_str().to_string()),
        None => None,
    }
}

/// The characters of a string.
pub fn chars(s: &str) -> (r: Vec<char>)
    ensures
        r@ == s@,
{
    let mut out: Vec<char> = Vec::new();
    for c in it: s.chars()
        invariant
            it.seq() == s@,
            out@ == s@.take(it.index() as int),
    {
        out.push(c);
        assert(out@ =~= s@.take(it.index() as int + 1));
    }
    assert(s@.take(s@.len() as int) =~= s@);
    out
}

/// The string made of the given characters.
pub fn string(v: &Vec<char>) -> (r: String)
    ensures
        r@ == v@,
{
    let mut out = String::new();
    let mut i: usize = 0;
    while i < v.len()
        invariant
            i <= v.len(),
            out@ == v@.take(i as int),
        decreases v.len() - i,
    {
        out.push(v[i]);
        assert(out@ =~= v@.take(i + 1));
        i = i + 1;
    }
    assert(v@.take(v@.len() as int) =~= v@);
    out
}

/// Append the characters of `s`.
pub fn append(v: &mut Vec<char>, s: &str)
    ensures
        final(v)@ == old(v)@ + s@,
{
    let more = chars(s);
    append_chars(v, &more);
}

/// Append the characters of `more`.
pub fn append_chars(v: &mut Vec<char>, more: &Vec<char>)
    ensures
        final(v)@ == old(v)@ + more@,
{
    let mut i: usize = 0;
    while i < more.len()
        invariant
            i <= more.len(),
            v@ == old(v)@ + more@.take(i as int),
        decreases more.len() - i,
    {
        v.push(more[i]);
        assert(v@ =~= old(v)@ + more@.take(i + 1));
        i = i + 1;
    }
    assert(more@.take(more@.len() as int) =~= more@);
}

/// Whether two texts are equal.
pub fn same(a: &Vec<char>, b: &str) -> (r: bool)
    ensures
        r == (a@ == b@),
{
    let b = chars(b);
    same_chars(a, &b)
}

/// Whether two character vectors are equal.
pub fn same_chars(a: &Vec<char>, b: &Vec<char>) -> (r: bool)
    ensures
        r == (a@ == b@),
{
    if a.len() != b.len() {
        return false;
    }
    let mut i: usize = 0;
    while i < a.len()
        invariant
            i <= a.len() == b.len(),
            forall|j: int| 0 <= j < i ==> a@[j] == b@[j],
        decreases a.len() - i,
    {
        if a[i] != b[i] {
            return false;
        }
        i = i + 1;
    }
    assert(a@ =~= b@);
    true
}

/// The characters from `from` up to `to`.
pub fn part(v: &Vec<char>, from: usize, to: usize) -> (r: Vec<char>)
    requires
        from <= to <= v.len(),
    ensures
        r@ == v@.subrange(from as int, to as int),
{
    let mut out: Vec<char> = Vec::new();
    let mut i: usize = from;
    while i < to
        invariant
            from <= i <= to <= v.len(),
            out@ == v@.subrange(from as int, i as int),
        decreases to - i,
    {
        out.push(v[i]);
        assert(out@ =~= v@.subrange(from as int, i + 1));
        i = i + 1;
    }
    out
}

/// A copy of a character vector.
pub fn copied(v: &Vec<char>) -> (r: Vec<char>)
    ensures
        r@ == v@,
{
    let r = part(v, 0, v.len());
    assert(r@ =~= v@);
    r
}

// --- Characters ------------------------------------------------------------

/// The characters with the Unicode `White_Space` property.
pub open spec fn is_space(c: char) -> bool {
    ||| '\u{9}' <= c <= '\u{d}'
    ||| c == ' '
    ||| c == '\u{85}'
    ||| c == '\u{a0}'
    ||| c == '\u{1680}'
    ||| '\u{2000}' <= c <= '\u{200a}'
    ||| c == '\u{2028}'
    ||| c == '\u{2029}'
    ||| c == '\u{202f}'
    ||| c == '\u{205f}'
    ||| c == '\u{3000}'
}

/// Whether `c` is white space.
pub fn space(c: char) -> (r: bool)
    ensures
        r == is_space(c),
{
    ('\u{9}' <= c && c <= '\u{d}') || c == ' ' || c == '\u{85}' || c == '\u{a0}' || c == '\u{1680}'
        || ('\u{2000}' <= c && c <= '\u{200a}') || c == '\u{2028}' || c == '\u{2029}' || c
        == '\u{202f}' || c == '\u{205f}' || c == '\u{3000}'
}

/// The control codes: C0, delete, and C1.
pub open spec fn is_control(c: char) -> bool {
    c <= '\u{1f}' || '\u{7f}' <= c <= '\u{9f}'
}

/// Whether `c` is a control code.
pub fn control(c: char) -> (r: bool)
    ensures
        r == is_control(c),
{
    c <= '\u{1f}' || ('\u{7f}' <= c && c <= '\u{9f}')
}

/// The ASCII digits.
pub open spec fn is_digit(c: char) -> bool {
    '0' <= c <= '9'
}

/// Whether `c` is an ASCII digit.
pub fn digit(c: char) -> (r: bool)
    ensures
        r == is_digit(c),
{
    '0' <= c && c <= '9'
}

/// ASCII letters in lower case, every other character unchanged.
pub open spec fn lower(c: char) -> char {
    if 'A' <= c <= 'Z' {
        ((c as u8) + 32) as char
    } else {
        c
    }
}

/// `c` with an ASCII letter in lower case.
pub fn lower_char(c: char) -> (r: char)
    ensures
        r == lower(c),
{
    if 'A' <= c && c <= 'Z' {
        (c as u8 + 32) as char
    } else {
        c
    }
}

/// A text with its ASCII letters in lower case.
pub open spec fn lowered(s: Seq<char>) -> Seq<char> {
    s.map_values(|c: char| lower(c))
}

/// A text with its ASCII letters in lower case.
pub fn to_lower(v: &Vec<char>) -> (r: Vec<char>)
    ensures
        r@ == lowered(v@),
{
    let mut out: Vec<char> = Vec::new();
    let mut i: usize = 0;
    while i < v.len()
        invariant
            i <= v.len(),
            out@ == lowered(v@.take(i as int)),
        decreases v.len() - i,
    {
        out.push(lower_char(v[i]));
        assert(out@ =~= lowered(v@.take(i + 1)));
        i = i + 1;
    }
    assert(v@.take(v@.len() as int) =~= v@);
    out
}

// --- Trimming --------------------------------------------------------------

/// A text without the white space at its start.
pub open spec fn trim_start(s: Seq<char>) -> Seq<char>
    decreases s.len(),
{
    if s.len() > 0 && is_space(s[0]) {
        trim_start(s.drop_first())
    } else {
        s
    }
}

/// A text without the white space at its end.
pub open spec fn trim_end(s: Seq<char>) -> Seq<char>
    decreases s.len(),
{
    if s.len() > 0 && is_space(s.last()) {
        trim_end(s.drop_last())
    } else {
        s
    }
}

/// A text without the white space at its two ends.
pub open spec fn trimmed(s: Seq<char>) -> Seq<char> {
    trim_end(trim_start(s))
}

/// A text without the white space at its two ends.
pub fn trim(v: &Vec<char>) -> (r: Vec<char>)
    ensures
        r@ == trimmed(v@),
{
    let n: usize = v.len();
    let mut from: usize = 0;
    assert(v@.subrange(0, n as int) =~= v@);
    while from < n && space(v[from])
        invariant
            from <= n == v.len(),
            trim_start(v@.subrange(from as int, n as int)) == trim_start(v@),
        decreases n - from,
    {
        assert(v@.subrange(from as int, n as int).drop_first() =~= v@.subrange(from + 1, n as int));
        from = from + 1;
    }
    let mut to: usize = n;
    while from < to && space(v[to - 1])
        invariant
            from <= to <= n == v.len(),
            trim_end(v@.subrange(from as int, to as int)) == trimmed(v@),
        decreases to,
    {
        assert(v@.subrange(from as int, to as int).drop_last() =~= v@.subrange(
            from as int,
            to - 1,
        ));
        to = to - 1;
    }
    part(v, from, to)
}

// --- Prefixes, suffixes, occurrences ---------------------------------------

/// Whether `s` begins with `p`.
pub open spec fn begins(s: Seq<char>, p: Seq<char>) -> bool {
    p.len() <= s.len() && s.take(p.len() as int) == p
}

/// Whether `s` ends with `p`.
pub open spec fn ends(s: Seq<char>, p: Seq<char>) -> bool {
    p.len() <= s.len() && s.skip(s.len() - p.len()) == p
}

/// Whether `p` stands in `s` at position `i`.
pub open spec fn occurs_at(s: Seq<char>, p: Seq<char>, i: int) -> bool {
    0 <= i && i + p.len() <= s.len() && s.subrange(i, i + p.len()) == p
}

/// Whether `p` stands somewhere in `s`.
pub open spec fn occurs(s: Seq<char>, p: Seq<char>) -> bool {
    exists|i: int| occurs_at(s, p, i)
}

/// Whether `p` stands in `v` at position `i`.
pub fn found_at(v: &Vec<char>, p: &Vec<char>, i: usize) -> (r: bool)
    ensures
        r == occurs_at(v@, p@, i as int),
{
    if p.len() > v.len() || i > v.len() - p.len() {
        return false;
    }
    let w = part(v, i, i + p.len());
    same_chars(&w, p)
}

/// Whether `v` begins with `p`.
pub fn starts_with(v: &Vec<char>, p: &str) -> (r: bool)
    ensures
        r == begins(v@, p@),
{
    let p = chars(p);
    let r = found_at(v, &p, 0);
    proof {
        if p@.len() <= v@.len() {
            assert(v@.take(p@.len() as int) =~= v@.subrange(0, p@.len() as int));
        }
    }
    r
}

/// Whether `v` ends with `p`.
pub fn ends_with(v: &Vec<char>, p: &str) -> (r: bool)
    ensures
        r == ends(v@, p@),
{
    let p = chars(p);
    ends_with_chars(v, &p)
}

/// Whether `v` ends with `p`.
pub fn ends_with_chars(v: &Vec<char>, p: &Vec<char>) -> (r: bool)
    ensures
        r == ends(v@, p@),
{
    if p.len() > v.len() {
        return false;
    }
    let r = found_at(v, p, v.len() - p.len());
    assert(v@.skip(v@.len() - p@.len()) =~= v@.subrange(v@.len() - p@.len(), v@.len() as int));
    r
}

/// Whether `p` stands somewhere in `v`.
pub fn contains(v: &Vec<char>, p: &str) -> (r: bool)
    ensures
        r == occurs(v@, p@),
{
    let wanted = chars(p);
    if wanted.len() > v.len() {
        return false;
    }
    let last: usize = v.len() - wanted.len();
    let mut i: usize = 0;
    while i < last
        invariant
            wanted@ == p@,
            i <= last == v.len() - wanted.len(),
            forall|j: int| 0 <= j < i ==> !occurs_at(v@, p@, j),
        decreases last - i,
    {
        if found_at(v, &wanted, i) {
            return true;
        }
        i = i + 1;
    }
    found_at(v, &wanted, last)
}

/// The part of `v` behind the prefix `p`, where `v` has it.
pub fn strip_prefix(v: &Vec<char>, p: &str) -> (r: Option<Vec<char>>)
    ensures
        match r {
            Some(rest) => begins(v@, p@) && rest@ == v@.skip(p@.len() as int),
            None => !begins(v@, p@),
        },
{
    let n: usize = chars(p).len();
    if starts_with(v, p) {
        let rest = part(v, n, v.len());
        assert(rest@ =~= v@.skip(n as int));
        Some(rest)
    } else {
        None
    }
}

/// `s` without any of the copies of `p` at its end.
pub open spec fn without_suffixes(s: Seq<char>, p: Seq<char>) -> Seq<char>
    decreases s.len(),
{
    if p.len() > 0 && ends(s, p) {
        without_suffixes(s.take(s.len() - p.len()), p)
    } else {
        s
    }
}

/// `v` without any of the copies of `p` at its end.
pub fn trim_suffixes(v: &Vec<char>, p: &str) -> (r: Vec<char>)
    ensures
        r@ == without_suffixes(v@, p@),
{
    let suffix = chars(p);
    let mut cur = copied(v);
    while suffix.len() > 0 && ends_with_chars(&cur, &suffix)
        invariant
            suffix@ == p@,
            without_suffixes(cur@, p@) == without_suffixes(v@, p@),
        decreases cur.len(),
    {
        let shorter = part(&cur, 0, cur.len() - suffix.len());
        assert(shorter@ =~= cur@.take(cur@.len() - suffix@.len()));
        cur = shorter;
    }
    cur
}

// --- Splitting -------------------------------------------------------------

/// The pieces of `s` between the occurrences of `sep`.
pub open spec fn split_on(s: Seq<char>, sep: char) -> Seq<Seq<char>>
    decreases s.len(),
{
    if s.len() == 0 {
        seq![Seq::<char>::empty()]
    } else {
        let before = split_on(s.drop_last(), sep);
        if s.last() == sep {
            before.push(Seq::<char>::empty())
        } else {
            before.drop_last().push(before.last().push(s.last()))
        }
    }
}

/// There is always at least one piece.
pub proof fn split_on_some(s: Seq<char>, sep: char)
    ensures
        split_on(s, sep).len() > 0,
    decreases s.len(),
{
    if s.len() > 0 {
        split_on_some(s.drop_last(), sep);
    }
}

/// The pieces of `v` between the occurrences of `sep`.
pub fn split(v: &Vec<char>, sep: char) -> (r: Vec<Vec<char>>)
    ensures
        chars_views(r@) == split_on(v@, sep),
{
    let mut done: Vec<Vec<char>> = Vec::new();
    let mut cur: Vec<char> = Vec::new();
    let mut i: usize = 0;
    assert(split_on(v@.take(0), sep) =~= chars_views(done@).push(cur@));
    while i < v.len()
        invariant
            i <= v.len(),
            split_on(v@.take(i as int), sep) == chars_views(done@).push(cur@),
        decreases v.len() - i,
    {
        assert(v@.take(i + 1).drop_last() =~= v@.take(i as int));
        let ghost before = split_on(v@.take(i as int), sep);
        assert(before.drop_last() =~= chars_views(done@));
        if v[i] == sep {
            let ghost old_done = done@;
            let piece = cur;
            let ghost p = piece@;
            done.push(piece);
            cur = Vec::new();
            assert(chars_views(done@) =~= chars_views(old_done).push(p));
        } else {
            cur.push(v[i]);
        }
        assert(split_on(v@.take(i + 1), sep) =~= chars_views(done@).push(cur@));
        i = i + 1;
    }
    assert(v@.take(v@.len() as int) =~= v@);
    let ghost old_done = done@;
    let ghost p = cur@;
    done.push(cur);
    assert(chars_views(done@) =~= chars_views(old_done).push(p));
    done
}

/// The pieces of `s` between its white-space characters, empty ones among them.
pub open spec fn split_space(s: Seq<char>) -> Seq<Seq<char>>
    decreases s.len(),
{
    if s.len() == 0 {
        seq![Seq::<char>::empty()]
    } else {
        let before = split_space(s.drop_last());
        if is_space(s.last()) {
            before.push(Seq::<char>::empty())
        } else {
            before.drop_last().push(before.last().push(s.last()))
        }
    }
}

/// The test for a piece with something in it.
pub open spec fn not_empty() -> spec_fn(Seq<char>) -> bool {
    |w: Seq<char>| w.len() > 0
}

/// The non-empty pieces of a list.
pub open spec fn kept(pieces: Seq<Seq<char>>) -> Seq<Seq<char>> {
    pieces.filter(not_empty())
}

/// Filtering keeps or drops the last piece and leaves the others alone.
pub proof fn kept_push(pieces: Seq<Seq<char>>, w: Seq<char>)
    ensures
        kept(pieces.push(w)) == (if w.len() > 0 {
            kept(pieces).push(w)
        } else {
            kept(pieces)
        }),
{
    reveal(Seq::filter);
    assert(pieces.push(w).drop_last() =~= pieces);
    assert(not_empty()(w) == (w.len() > 0));
}

/// The runs of characters that are not white space.
pub open spec fn words(s: Seq<char>) -> Seq<Seq<char>> {
    kept(split_space(s))
}

/// The runs of characters that are not white space.
pub fn split_words(v: &Vec<char>) -> (r: Vec<Vec<char>>)
    ensures
        chars_views(r@) == words(v@),
{
    let mut done: Vec<Vec<char>> = Vec::new();
    let mut cur: Vec<char> = Vec::new();
    let mut i: usize = 0;
    proof {
        reveal(Seq::filter);
        assert(split_space(v@.take(0)).drop_last() =~= Seq::<Seq<char>>::empty());
        assert(chars_views(done@) =~= kept(split_space(v@.take(0)).drop_last()));
    }
    while i < v.len()
        invariant
            i <= v.len(),
            split_space(v@.take(i as int)).len() > 0,
            split_space(v@.take(i as int)).last() == cur@,
            chars_views(done@) == kept(split_space(v@.take(i as int)).drop_last()),
        decreases v.len() - i,
    {
        let ghost before = split_space(v@.take(i as int));
        let ghost after = split_space(v@.take(i + 1));
        assert(v@.take(i + 1).drop_last() =~= v@.take(i as int));
        if space(v[i]) {
            proof {
                assert(before =~= before.drop_last().push(cur@));
                kept_push(before.drop_last(), cur@);
                assert(after.drop_last() =~= before);
            }
            if cur.len() > 0 {
                let ghost old_done = done@;
                let ghost p = cur@;
                done.push(cur);
                cur = Vec::new();
                assert(chars_views(done@) =~= chars_views(old_done).push(p));
            }
            assert(cur@ =~= Seq::<char>::empty());
        } else {
            cur.push(v[i]);
            assert(after.drop_last() =~= before.drop_last());
        }
        i = i + 1;
    }
    assert(v@.take(v@.len() as int) =~= v@);
    proof {
        assert(split_space(v@) =~= split_space(v@).drop_last().push(cur@));
        kept_push(split_space(v@).drop_last(), cur@);
    }
    if cur.len() > 0 {
        let ghost old_done = done@;
        let ghost p = cur@;
        done.push(cur);
        assert(chars_views(done@) =~= chars_views(old_done).push(p));
    }
    done
}

/// A line without the carriage return that ended it.
pub open spec fn without_cr(line: Seq<char>) -> Seq<char> {
    if line.len() > 0 && line.last() == '\r' {
        line.drop_last()
    } else {
        line
    }
}

/// The lines of a text. A line ends with a line feed, or with a carriage return
/// and a line feed; the ending of the last line is optional.
pub open spec fn lines_of(s: Seq<char>) -> Seq<Seq<char>> {
    let pieces = split_on(s, '\n');
    let ended = pieces.drop_last().map_values(|l: Seq<char>| without_cr(l));
    if pieces.last().len() == 0 {
        ended
    } else {
        ended.push(pieces.last())
    }
}

/// The lines of a text.
pub fn lines(v: &Vec<char>) -> (r: Vec<Vec<char>>)
    ensures
        chars_views(r@) == lines_of(v@),
{
    let mut pieces = split(v, '\n');
    proof {
        split_on_some(v@, '\n');
        assert(chars_views(pieces@).len() == pieces@.len());
    }
    let ghost all = split_on(v@, '\n');
    let n: usize = pieces.len() - 1;
    let mut out: Vec<Vec<char>> = Vec::new();
    let ghost ended = all.drop_last().map_values(|l: Seq<char>| without_cr(l));
    let mut i: usize = 0;
    while i < n
        invariant
            i <= n == pieces.len() - 1,
            all == chars_views(pieces@),
            ended == all.drop_last().map_values(|l: Seq<char>| without_cr(l)),
            chars_views(out@) == ended.take(i as int),
        decreases n - i,
    {
        let line = &pieces[i];
        let ghost old_out = out@;
        assert(all.drop_last()[i as int] == line@);
        if line.len() > 0 && line[line.len() - 1] == '\r' {
            let cut = part(line, 0, line.len() - 1);
            assert(cut@ =~= line@.drop_last());
            out.push(cut);
        } else {
            out.push(copied(line));
        }
        assert(chars_views(out@) =~= chars_views(old_out).push(ended[i as int]));
        assert(chars_views(out@) =~= ended.take(i + 1));
        i = i + 1;
    }
    assert(ended.take(n as int) =~= ended);
    let last = pieces.pop();
    match last {
        Some(line) => {
            assert(all.last() == line@);
            if line.len() > 0 {
                let ghost old_out = out@;
                let ghost p = line@;
                out.push(line);
                assert(chars_views(out@) =~= chars_views(old_out).push(p));
            }
        },
        None => {},
    }
    out
}

/// The position of the first `c` in `v`.
pub fn find_char(v: &Vec<char>, c: char) -> (r: Option<usize>)
    ensures
        match r {
            Some(i) => i < v.len() && v@[i as int] == c && !v@.take(i as int).contains(c),
            None => !v@.contains(c),
        },
{
    let mut i: usize = 0;
    while i < v.len()
        invariant
            i <= v.len(),
            forall|j: int| 0 <= j < i ==> v@[j] != c,
        decreases v.len() - i,
    {
        if v[i] == c {
            return Some(i);
        }
        i = i + 1;
    }
    None
}

/// The texts before and after the first `c`, where there is one.
pub open spec fn split_once_at(s: Seq<char>, c: char) -> Option<(Seq<char>, Seq<char>)>
    decreases s.len(),
{
    if s.len() == 0 {
        None
    } else if s[0] == c {
        Some((Seq::<char>::empty(), s.drop_first()))
    } else {
        match split_once_at(s.drop_first(), c) {
            Some((a, b)) => Some((seq![s[0]] + a, b)),
            None => None,
        }
    }
}

/// A text splits at the first occurrence of the character.
pub proof fn split_once_first(s: Seq<char>, c: char, i: int)
    requires
        0 <= i < s.len(),
        s[i] == c,
        forall|j: int| 0 <= j < i ==> s[j] != c,
    ensures
        split_once_at(s, c) == Some((s.take(i), s.skip(i + 1))),
    decreases i,
{
    if i == 0 {
        assert(s.take(0) =~= Seq::<char>::empty());
        assert(s.skip(1) =~= s.drop_first());
    } else {
        split_once_first(s.drop_first(), c, i - 1);
        assert(seq![s[0]] + s.drop_first().take(i - 1) =~= s.take(i));
        assert(s.drop_first().skip(i) =~= s.skip(i + 1));
    }
}

/// A text without the character does not split.
pub proof fn split_once_none(s: Seq<char>, c: char)
    requires
        !s.contains(c),
    ensures
        split_once_at(s, c) is None,
    decreases s.len(),
{
    if s.len() > 0 {
        assert(s[0] != c);
        assert forall|x: char| s.drop_first().contains(x) implies s.contains(x) by {
            let k = choose|k: int| 0 <= k < s.drop_first().len() && s.drop_first()[k] == x;
            assert(s[k + 1] == x);
        }
        split_once_none(s.drop_first(), c);
    }
}

/// The texts before and after the first `c`, where there is one.
pub fn split_once(v: &Vec<char>, c: char) -> (r: Option<(Vec<char>, Vec<char>)>)
    ensures
        match r {
            Some((a, b)) => split_once_at(v@, c) == Some((a@, b@)),
            None => split_once_at(v@, c) is None,
        },
{
    match find_char(v, c) {
        Some(i) => {
            let a = part(v, 0, i);
            let b = part(v, i + 1, v.len());
            proof {
                assert forall|j: int| 0 <= j < i implies v@[j] != c by {
                    assert(v@.take(i as int)[j] == v@[j]);
                }
                split_once_first(v@, c, i as int);
                assert(a@ =~= v@.take(i as int));
                assert(b@ =~= v@.skip(i + 1));
            }
            Some((a, b))
        },
        None => {
            proof {
                split_once_none(v@, c);
            }
            None
        },
    }
}

// --- Numbers ---------------------------------------------------------------

/// The value of one digit.
pub open spec fn digit_value(c: char) -> nat {
    (c as u32 - '0' as u32) as nat
}

/// Whether a text is digits only.
pub open spec fn all_digits(s: Seq<char>) -> bool {
    forall|i: int| 0 <= i < s.len() ==> is_digit(s[i])
}

/// The number that a sequence of digits writes in base ten.
pub open spec fn number(s: Seq<char>) -> nat
    decreases s.len(),
{
    if s.len() == 0 {
        0
    } else {
        number(s.drop_last()) * 10 + digit_value(s.last())
    }
}

/// A text without a leading plus sign.
pub open spec fn without_plus(s: Seq<char>) -> Seq<char> {
    if s.len() > 0 && s[0] == '+' {
        s.drop_first()
    } else {
        s
    }
}

/// The number that a text writes: digits behind an optional plus sign, at most
/// `max`.
pub open spec fn read_unsigned(s: Seq<char>, max: nat) -> Option<nat> {
    let d = without_plus(s);
    if d.len() > 0 && all_digits(d) && number(d) <= max {
        Some(number(d))
    } else {
        None
    }
}

/// More digits write a larger number.
pub proof fn number_grows(s: Seq<char>, i: int)
    requires
        0 <= i <= s.len(),
    ensures
        number(s.take(i)) <= number(s),
    decreases s.len(),
{
    if i == s.len() {
        assert(s.take(i) =~= s);
    } else {
        number_grows(s.drop_last(), i);
        assert(s.drop_last().take(i) =~= s.take(i));
    }
}

/// The number that digits write, where it is at most `max`.
pub fn parse_digits(v: &Vec<char>, max: u64) -> (r: Option<u64>)
    ensures
        match r {
            Some(n) => v@.len() > 0 && all_digits(v@) && number(v@) == n && n <= max,
            None => !(v@.len() > 0 && all_digits(v@) && number(v@) <= max),
        },
{
    if v.len() == 0 {
        return None;
    }
    let mut n: u64 = 0;
    let mut i: usize = 0;
    while i < v.len()
        invariant
            i <= v.len(),
            n <= max,
            number(v@.take(i as int)) == n,
            forall|j: int| 0 <= j < i ==> is_digit(v@[j]),
        decreases v.len() - i,
    {
        let c = v[i];
        if !digit(c) {
            return None;
        }
        let d: u64 = (c as u32 - '0' as u32) as u64;
        proof {
            assert(v@.take(i + 1).drop_last() =~= v@.take(i as int));
            assert(number(v@.take(i + 1)) == n * 10 + d);
            number_grows(v@, i + 1);
        }
        if d > max || n > (max - d) / 10 {
            return None;
        }
        n = n * 10 + d;
        i = i + 1;
    }
    assert(v@.take(v@.len() as int) =~= v@);
    Some(n)
}

/// The number that a text writes: digits behind an optional plus sign, at most
/// `max`.
pub fn parse_unsigned(v: &Vec<char>, max: u64) -> (r: Option<u64>)
    ensures
        match r {
            Some(n) => read_unsigned(v@, max as nat) == Some(n as nat),
            None => read_unsigned(v@, max as nat) is None,
        },
{
    if v.len() > 0 && v[0] == '+' {
        let d = part(v, 1, v.len());
        assert(d@ =~= v@.drop_first());
        parse_digits(&d, max)
    } else {
        parse_digits(v, max)
    }
}

/// The integer that a text writes: digits behind an optional sign, in the range
/// of `i64`.
pub open spec fn read_signed(s: Seq<char>) -> Option<int> {
    if s.len() > 0 && s[0] == '-' {
        let d = s.drop_first();
        if d.len() > 0 && all_digits(d) && number(d) <= 0x8000_0000_0000_0000 {
            Some(-(number(d) as int))
        } else {
            None
        }
    } else {
        match read_unsigned(s, i64::MAX as nat) {
            Some(n) => Some(n as int),
            None => None,
        }
    }
}

/// The integer that a text writes, in the range of `i64`.
pub fn parse_signed(v: &Vec<char>) -> (r: Option<i64>)
    ensures
        match r {
            Some(n) => read_signed(v@) == Some(n as int),
            None => read_signed(v@) is None,
        },
{
    if v.len() > 0 && v[0] == '-' {
        let d = part(v, 1, v.len());
        assert(d@ =~= v@.drop_first());
        match parse_digits(&d, 0x8000_0000_0000_0000) {
            Some(n) => if n == 0x8000_0000_0000_0000 {
                Some(i64::MIN)
            } else {
                Some(-(n as i64))
            },
            None => None,
        }
    } else {
        match parse_unsigned(v, i64::MAX as u64) {
            Some(n) => Some(n as i64),
            None => None,
        }
    }
}

/// The digit that writes a value below ten.
pub open spec fn digit_char(d: nat) -> char {
    (('0' as u32) + d) as char
}

/// How a number is written in base ten.
pub open spec fn decimal(n: nat) -> Seq<char>
    decreases n,
{
    if n < 10 {
        seq![digit_char(n)]
    } else {
        decimal(n / 10).push(digit_char(n % 10))
    }
}

/// How a number is written in base ten.
pub fn write_decimal(n: u64) -> (r: Vec<char>)
    ensures
        r@ == decimal(n as nat),
    decreases n,
{
    let d = ('0' as u8 + (n % 10) as u8) as char;
    if n < 10 {
        let mut out: Vec<char> = Vec::new();
        out.push(d);
        assert(out@ =~= decimal(n as nat));
        out
    } else {
        let mut out = write_decimal(n / 10);
        out.push(d);
        out
    }
}

/// Reading back a written number gives the number.
pub proof fn decimal_reads_back(n: nat)
    ensures
        decimal(n).len() > 0,
        all_digits(decimal(n)),
        number(decimal(n)) == n,
    decreases n,
{
    if n < 10 {
        assert(decimal(n).drop_last() =~= Seq::<char>::empty());
        assert(number(decimal(n).drop_last()) == 0);
    } else {
        decimal_reads_back(n / 10);
        assert(decimal(n).drop_last() =~= decimal(n / 10));
    }
}

// --- Laws ------------------------------------------------------------------

/// The contents of a list stand in the list's order, one for each member.
pub proof fn views_are_the_members(v: Seq<String>, w: Seq<Vec<char>>)
    ensures
        views(v).len() == v.len(),
        forall|i: int| 0 <= i < v.len() ==> #[trigger] views(v)[i] == v[i]@,
        chars_views(w).len() == w.len(),
        forall|i: int| 0 <= i < w.len() ==> #[trigger] chars_views(w)[i] == w[i]@,
{
}

/// A text that is there has its contents, and one that is missing has none.
pub proof fn opt_is_the_text(s: String)
    ensures
        opt(Some(s)) == Some(s@),
        opt(None) is None,
{
}

/// The ASCII blanks are white space; letters, digits and punctuation are not.
pub proof fn blanks_are_spaces(c: char)
    requires
        c <= '\u{7f}',
    ensures
        is_space(c) <==> c == ' ' || c == '\t' || c == '\n' || c == '\r' || c == '\u{b}' || c
            == '\u{c}',
{
}

/// Lowering maps each character by itself: the 26 ASCII capitals to the letters
/// 32 places behind them, every other character to itself. Lowering again
/// changes nothing.
pub proof fn lowered_by_character(s: Seq<char>)
    ensures
        lowered(s).len() == s.len(),
        forall|i: int|
            0 <= i < s.len() && 'A' <= s[i] <= 'Z' ==> (#[trigger] lowered(s)[i]) as u32 == s[i] as u32
                + 32,
        forall|i: int|
            0 <= i < s.len() && !('A' <= s[i] <= 'Z') ==> #[trigger] lowered(s)[i] == s[i],
        lowered(lowered(s)) == lowered(s),
{
    assert(lowered(lowered(s)) =~= lowered(s));
}

proof fn trim_start_is_a_suffix(s: Seq<char>) -> (i: int)
    ensures
        0 <= i <= s.len(),
        trim_start(s) == s.skip(i),
        forall|k: int| 0 <= k < i ==> is_space(#[trigger] s[k]),
        i < s.len() ==> !is_space(s[i]),
    decreases s.len(),
{
    if s.len() > 0 && is_space(s[0]) {
        let t = s.drop_first();
        let i = trim_start_is_a_suffix(t);
        assert(t.skip(i) =~= s.skip(i + 1));
        assert forall|k: int| 0 <= k < i + 1 implies is_space(#[trigger] s[k]) by {
            if k > 0 {
                assert(t[k - 1] == s[k]);
            }
        }
        i + 1
    } else {
        assert(s.skip(0) =~= s);
        0
    }
}

proof fn trim_end_is_a_prefix(s: Seq<char>) -> (j: int)
    ensures
        0 <= j <= s.len(),
        trim_end(s) == s.take(j),
        forall|k: int| j <= k < s.len() ==> is_space(#[trigger] s[k]),
        j > 0 ==> !is_space(s[j - 1]),
    decreases s.len(),
{
    if s.len() > 0 && is_space(s.last()) {
        let t = s.drop_last();
        let j = trim_end_is_a_prefix(t);
        assert(t.take(j) =~= s.take(j));
        assert forall|k: int| j <= k < s.len() implies is_space(#[trigger] s[k]) by {
            if k < s.len() - 1 {
                assert(t[k] == s[k]);
            }
        }
        j
    } else {
        assert(s.take(s.len() as int) =~= s);
        s.len() as int
    }
}

/// Trimming takes the white space off the two ends, all of it, and nothing else:
/// what is left begins and ends with something else, and so is not trimmed again.
pub proof fn trimmed_is_the_inside(s: Seq<char>)
    ensures
        exists|i: int, j: int|
            0 <= i <= j <= s.len() && #[trigger] s.subrange(i, j) == trimmed(s) && (forall|k: int|
                0 <= k < i || j <= k < s.len() ==> is_space(#[trigger] s[k])),
        trimmed(s).len() > 0 ==> !is_space(trimmed(s)[0]) && !is_space(trimmed(s).last()),
        trimmed(trimmed(s)) == trimmed(s),
{
    let i = trim_start_is_a_suffix(s);
    let t = trim_start(s);
    let n = trim_end_is_a_prefix(t);
    let r = trimmed(s);
    assert(r =~= s.subrange(i, i + n));
    assert forall|k: int| 0 <= k < i || i + n <= k < s.len() implies is_space(#[trigger] s[k]) by {
        if k >= i + n {
            assert(t[k - i] == s[k]);
        }
    }
    if r.len() > 0 {
        assert(r[0] == s[i]);
        assert(r.last() == t[n - 1]);
    }
    assert(trim_start(r) == r);
    assert(trim_end(r) == r);
}

/// A text surrounded by white space is trimmed to itself.
pub proof fn trimming_uncovers(before: Seq<char>, s: Seq<char>, after: Seq<char>)
    requires
        forall|k: int| 0 <= k < before.len() ==> is_space(#[trigger] before[k]),
        forall|k: int| 0 <= k < after.len() ==> is_space(#[trigger] after[k]),
        s.len() > 0,
        !is_space(s[0]),
        !is_space(s.last()),
    ensures
        trimmed(before + s + after) == s,
{
    let w = before + s + after;
    let i = trim_start_is_a_suffix(w);
    if i < before.len() {
        assert(w[i] == before[i]);
    }
    if i > before.len() {
        assert(w[before.len() as int] == s[0]);
    }
    let t = trim_start(w);
    assert(t =~= s + after);
    let j = trim_end_is_a_prefix(t);
    if j < s.len() {
        assert(t[s.len() - 1] == s.last());
    }
    if j > s.len() {
        assert(t[j - 1] == after[j - 1 - s.len()]);
    }
    assert(t.take(j) =~= s);
}

/// A text begins with a prefix, ends with a suffix and holds a part exactly where
/// something can be put around that to make the text.
pub proof fn parts_make_the_text(a: Seq<char>, p: Seq<char>, b: Seq<char>)
    ensures
        begins(p + b, p),
        ends(a + p, p),
        occurs(a + p + b, p),
        begins(a, p) ==> a == p + a.skip(p.len() as int),
        ends(a, p) ==> a == a.take(a.len() - p.len()) + p,
        occurs(a, p) ==> exists|i: int|
            0 <= i && i + p.len() <= a.len() && a == #[trigger] a.take(i) + p + a.skip(i + p.len()),
{
    assert((p + b).take(p.len() as int) =~= p);
    assert((a + p).skip(a.len() as int) =~= p);
    let w = a + p + b;
    assert(w.subrange(a.len() as int, (a.len() + p.len()) as int) =~= p);
    assert(occurs_at(w, p, a.len() as int));
    if begins(a, p) {
        assert(a =~= p + a.skip(p.len() as int));
    }
    if ends(a, p) {
        assert(a =~= a.take(a.len() - p.len()) + p);
    }
    if occurs(a, p) {
        let i = choose|i: int| occurs_at(a, p, i);
        assert(a =~= a.take(i) + a.subrange(i, i + p.len()) + a.skip(i + p.len()));
    }
}

/// Any number of copies of a suffix is taken off, and what is left does not end
/// with one more.
pub proof fn suffixes_come_off(s: Seq<char>, p: Seq<char>)
    requires
        p.len() > 0,
    ensures
        without_suffixes(s + p, p) == without_suffixes(s, p),
        !ends(s, p) ==> without_suffixes(s, p) == s,
        !ends(without_suffixes(s, p), p),
        begins(s, without_suffixes(s, p)),
    decreases s.len(),
{
    assert((s + p).skip(s.len() as int) =~= p);
    assert((s + p).take(s.len() as int) =~= s);
    if ends(s, p) {
        let t = s.take(s.len() - p.len());
        suffixes_come_off(t, p);
        let r = without_suffixes(s, p);
        assert(t.take(r.len() as int) =~= s.take(r.len() as int));
    } else {
        assert(s.take(s.len() as int) =~= s);
    }
}

/// Splitting undoes joining: a text without the separator is one piece, and a
/// separator between two texts parts their pieces.
pub proof fn pieces_of_a_joined_text(a: Seq<char>, sep: char, b: Seq<char>)
    ensures
        split_on(a.push(sep) + b, sep) == split_on(a, sep) + split_on(b, sep),
        !b.contains(sep) ==> split_on(b, sep) == seq![b],
    decreases b.len(),
{
    split_on_some(b, sep);
    if b.len() == 0 {
        assert(a.push(sep) + b =~= a.push(sep));
        assert(a.push(sep).drop_last() =~= a);
        assert(split_on(a.push(sep), sep) =~= split_on(a, sep) + split_on(b, sep));
        assert(b =~= Seq::<char>::empty());
    } else {
        let c = b.drop_last();
        pieces_of_a_joined_text(a, sep, c);
        split_on_some(c, sep);
        assert((a.push(sep) + b).drop_last() =~= a.push(sep) + c);
        let whole = split_on(a, sep) + split_on(c, sep);
        assert(whole.last() == split_on(c, sep).last());
        assert(split_on(a.push(sep) + b, sep) =~= split_on(a, sep) + split_on(b, sep));
        if !b.contains(sep) {
            assert(b.contains(b.last()));
            assert forall|x: char| c.contains(x) implies b.contains(x) by {
                let k = choose|k: int| 0 <= k < c.len() && c[k] == x;
                assert(b[k] == x);
            }
            assert(c.push(b.last()) =~= b);
            assert(split_on(b, sep) =~= seq![b]);
        }
    }
}

/// What is kept of two lists is what is kept of each, in order; a piece is kept
/// where it is not empty.
pub proof fn kept_by_piece(a: Seq<Seq<char>>, b: Seq<Seq<char>>, w: Seq<char>)
    ensures
        kept(a + b) == kept(a) + kept(b),
        kept(seq![w]) == (if w.len() > 0 {
            seq![w]
        } else {
            Seq::<Seq<char>>::empty()
        }),
{
    Seq::<Seq<char>>::filter_distributes_over_add(a, b, not_empty());
    let none = Seq::<Seq<char>>::empty();
    reveal(Seq::filter);
    assert(none.push(w) =~= seq![w]);
    kept_push(none, w);
    assert(kept(none) =~= none);
    assert(none.push(w) =~= seq![w]);
}

proof fn space_pieces(a: Seq<char>, c: char, b: Seq<char>)
    requires
        is_space(c),
    ensures
        split_space(b).len() > 0,
        split_space(a.push(c) + b) == split_space(a) + split_space(b),
        (forall|i: int| 0 <= i < b.len() ==> !is_space(#[trigger] b[i])) ==> split_space(b)
            == seq![b],
    decreases b.len(),
{
    if b.len() == 0 {
        assert(a.push(c) + b =~= a.push(c));
        assert(a.push(c).drop_last() =~= a);
        assert(split_space(a.push(c)) =~= split_space(a) + split_space(b));
        assert(b =~= Seq::<char>::empty());
    } else {
        let d = b.drop_last();
        space_pieces(a, c, d);
        assert((a.push(c) + b).drop_last() =~= a.push(c) + d);
        let whole = split_space(a) + split_space(d);
        assert(whole.last() == split_space(d).last());
        assert(split_space(a.push(c) + b) =~= split_space(a) + split_space(b));
        if forall|i: int| 0 <= i < b.len() ==> !is_space(#[trigger] b[i]) {
            assert forall|i: int| 0 <= i < d.len() implies !is_space(#[trigger] d[i]) by {
                assert(d[i] == b[i]);
            }
            assert(!is_space(b[b.len() - 1]));
            assert(d.push(b.last()) =~= b);
            assert(split_space(b) =~= seq![b]);
        }
    }
}

/// White space parts words: the words of two texts with a blank between them are
/// those of the one and then those of the other, and a text without any is one
/// word, or none where it is empty.
pub proof fn words_of_a_joined_text(a: Seq<char>, c: char, b: Seq<char>)
    requires
        is_space(c),
    ensures
        words(a.push(c) + b) == words(a) + words(b),
        (forall|i: int| 0 <= i < b.len() ==> !is_space(#[trigger] b[i])) ==> words(b) == (
        if b.len() > 0 {
            seq![b]
        } else {
            Seq::<Seq<char>>::empty()
        }),
{
    space_pieces(a, c, b);
    kept_by_piece(split_space(a), split_space(b), b);
}

/// A line feed ends a line, with the carriage return before it where there is
/// one; what stands behind the last is a line too, unless it is empty.
pub proof fn lines_of_a_text(line: Seq<char>, rest: Seq<char>)
    requires
        !line.contains('\n'),
    ensures
        lines_of(line.push('\n') + rest) == seq![
            if line.len() > 0 && line.last() == '\r' {
                line.drop_last()
            } else {
                line
            },
        ] + lines_of(rest),
        lines_of(line) == (if line.len() > 0 {
            seq![line]
        } else {
            Seq::<Seq<char>>::empty()
        }),
{
    pieces_of_a_joined_text(line, '\n', rest);
    pieces_of_a_joined_text(rest, '\n', line);
    split_on_some(rest, '\n');
    let p = split_on(line.push('\n') + rest, '\n');
    let q = split_on(rest, '\n');
    assert(p =~= seq![line] + q);
    assert(p.last() == q.last());
    assert(p.drop_last() =~= seq![line] + q.drop_last());
    assert(p.drop_last().map_values(|l: Seq<char>| without_cr(l)) =~= seq![without_cr(line)]
        + q.drop_last().map_values(|l: Seq<char>| without_cr(l)));
    assert(lines_of(line.push('\n') + rest) =~= seq![without_cr(line)] + lines_of(rest));
    let one = seq![line];
    assert(one.drop_last() =~= Seq::<Seq<char>>::empty());
    assert(one.drop_last().map_values(|l: Seq<char>| without_cr(l)) =~= Seq::<Seq<char>>::empty());
    assert(Seq::<Seq<char>>::empty().push(line) =~= one);
}

/// A text splits once at the first separator: what stands before it holds none.
pub proof fn first_separator_splits(a: Seq<char>, c: char, b: Seq<char>)
    requires
        !a.contains(c),
    ensures
        split_once_at(a.push(c) + b, c) == Some((a, b)),
        split_once_at(a, c) is None,
{
    let s = a.push(c) + b;
    assert forall|j: int| 0 <= j < a.len() implies s[j] != c by {
        assert(a.contains(a[j]));
    }
    split_once_first(s, c, a.len() as int);
    assert(s.take(a.len() as int) =~= a);
    assert(s.skip((a.len() + 1) as int) =~= b);
    split_once_none(a, c);
}

/// The written number has its units digit last and the tens before it; each digit
/// is the character that many places behind `0`.
pub proof fn decimal_digits(n: nat)
    ensures
        n < 10 ==> decimal(n).len() == 1,
        n >= 10 ==> decimal(n).drop_last() == decimal(n / 10),
        decimal(n).last() as int == '0' as int + n % 10,
{
    if n >= 10 {
        assert(decimal(n).drop_last() =~= decimal(n / 10));
    }
}

/// Every number up to the limit is read back from how it is written, with a plus
/// sign or without; one past the limit, and a text that is no number, is not.
pub proof fn written_numbers_are_read(n: nat, max: nat, c: char, s: Seq<char>)
    requires
        !('0' <= c <= '9'),
    ensures
        read_unsigned(decimal(n), max) == (if n <= max {
            Some(n)
        } else {
            None
        }),
        read_unsigned(seq!['+'] + decimal(n), max) == read_unsigned(decimal(n), max),
        read_unsigned(Seq::empty(), max) is None,
        read_unsigned(s.push(c), max) is None,
{
    decimal_reads_back(n);
    assert(is_digit(decimal(n)[0]));
    let p = seq!['+'] + decimal(n);
    assert(p.drop_first() =~= decimal(n));
    let d = without_plus(s.push(c));
    if d.len() > 0 {
        assert(d[d.len() - 1] == c);
    }
}

/// A signed number is read back too: the largest 64-bit one, the smallest, and
/// those in between.
pub proof fn written_signed_numbers_are_read(n: nat)
    ensures
        read_signed(decimal(n)) == (if n <= 0x7fff_ffff_ffff_ffff {
            Some(n as int)
        } else {
            None
        }),
        read_signed(seq!['-'] + decimal(n)) == (if n <= 0x8000_0000_0000_0000 {
            Some(-(n as int))
        } else {
            None
        }),
{
    decimal_reads_back(n);
    assert(is_digit(decimal(n)[0]));
    let m = seq!['-'] + decimal(n);
    assert(m.drop_first() =~= decimal(n));
    written_numbers_are_read(n, i64::MAX as nat, 'a', m);
}

} // verus!
