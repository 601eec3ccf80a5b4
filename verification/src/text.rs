//! Character-sequence model of the string operations the library needs,
//! with verified executable counterparts.

use vstd::prelude::*;

verus! {

/// `String::push` from std: afterwards the string is the old one with `ch`
/// appended at its end, as std documents it.
pub assume_specification[ String::push ](s: &mut String, ch: char)
    ensures
        final(s)@ == old(s)@.push(ch),
;

/// Unicode `White_Space`, as `char::is_whitespace` defines it.
pub open spec fn is_ws(c: char) -> bool {
    ||| c == '\t' || c == '\n' || c == '\x0B' || c == '\x0C' || c == '\r' || c == ' '
    ||| c == '\u{85}' || c == '\u{A0}' || c == '\u{1680}'
    ||| ('\u{2000}' <= c && c <= '\u{200A}')
    ||| c == '\u{2028}' || c == '\u{2029}' || c == '\u{202F}' || c == '\u{205F}' || c == '\u{3000}'
}

pub open spec fn trim_start(s: Seq<char>) -> Seq<char>
    decreases s.len(),
{
    if s.len() > 0 && is_ws(s[0]) {
        trim_start(s.drop_first())
    } else {
        s
    }
}

pub open spec fn trim_end(s: Seq<char>) -> Seq<char>
    decreases s.len(),
{
    if s.len() > 0 && is_ws(s.last()) {
        trim_end(s.drop_last())
    } else {
        s
    }
}

/// `str::trim`: both ends stripped of white space.
pub open spec fn trim(s: Seq<char>) -> Seq<char> {
    trim_end(trim_start(s))
}

pub open spec fn starts_with(s: Seq<char>, p: Seq<char>) -> bool {
    p.len() <= s.len() && s.take(p.len() as int) == p
}

pub open spec fn ends_with(s: Seq<char>, p: Seq<char>) -> bool {
    p.len() <= s.len() && s.skip(s.len() - p.len()) == p
}

/// `p` occurs in `s` starting at index `i`.
pub open spec fn occurs_at(s: Seq<char>, p: Seq<char>, i: int) -> bool {
    0 <= i && i + p.len() <= s.len() && s.subrange(i, i + p.len()) == p
}

/// The first index at or after `i` where `p` occurs in `s`.
pub open spec fn find_from(s: Seq<char>, p: Seq<char>, i: int) -> Option<int>
    decreases s.len() + 1 - i,
{
    if i < 0 || i + p.len() > s.len() {
        None
    } else if occurs_at(s, p, i) {
        Some(i)
    } else {
        find_from(s, p, i + 1)
    }
}

/// `str::find`: the first index where `p` occurs in `s`.
pub open spec fn find(s: Seq<char>, p: Seq<char>) -> Option<int> {
    find_from(s, p, 0)
}

/// `str::contains`.
pub open spec fn contains(s: Seq<char>, p: Seq<char>) -> bool {
    find(s, p) is Some
}

pub proof fn lemma_find_from_props(s: Seq<char>, p: Seq<char>, i: int)
    requires
        0 <= i,
    ensures
        find_from(s, p, i) matches Some(k) ==> i <= k && occurs_at(s, p, k)
            && forall|j: int| i <= j < k ==> !occurs_at(s, p, j),
        find_from(s, p, i) is None ==> forall|j: int| i <= j ==> !occurs_at(s, p, j),
    decreases s.len() + 1 - i,
{
    if i + p.len() > s.len() {
    } else if occurs_at(s, p, i) {
    } else {
        lemma_find_from_props(s, p, i + 1);
    }
}

/// Text that occurs at some index is found.
pub proof fn lemma_occurs_found(s: Seq<char>, q: Seq<char>, j: int)
    requires
        occurs_at(s, q, j),
    ensures
        contains(s, q),
{
    lemma_find_from_props(s, q, 0);
}

/// Text found in `b` is found in `a + b + c`.
pub proof fn lemma_contains_within(a: Seq<char>, b: Seq<char>, c: Seq<char>, q: Seq<char>)
    requires
        contains(b, q),
    ensures
        contains(a + b + c, q),
{
    lemma_find_from_props(b, q, 0);
    let k = find(b, q)->0;
    let r = a + b + c;
    assert(r.subrange(a.len() + k, a.len() + k + q.len()) =~= b.subrange(k, k + q.len()));
    lemma_occurs_found(r, q, a.len() + k);
}

/// Each part is found in the parts joined.
pub proof fn lemma_join_contains(parts: Seq<Seq<char>>, sep: Seq<char>, i: int)
    requires
        0 <= i < parts.len(),
    ensures
        contains(join(parts, sep), parts[i]),
    decreases parts.len(),
{
    let e = Seq::<char>::empty();
    if parts.len() == 1 {
        assert(parts[0].subrange(0, parts[0].len() as int) =~= parts[0]);
        lemma_occurs_found(parts[0], parts[0], 0);
    } else if i == parts.len() - 1 {
        let last = parts.last();
        assert(last.subrange(0, last.len() as int) =~= last);
        lemma_occurs_found(last, last, 0);
        lemma_contains_within(join(parts.drop_last(), sep) + sep, last, e, last);
        assert(join(parts.drop_last(), sep) + sep + last + e =~= join(parts, sep));
    } else {
        lemma_join_contains(parts.drop_last(), sep, i);
        assert(parts.drop_last()[i] == parts[i]);
        lemma_contains_within(e, join(parts.drop_last(), sep), sep + parts.last(), parts[i]);
        assert(e + join(parts.drop_last(), sep) + (sep + parts.last()) =~= join(parts, sep));
    }
}

/// The characters of `s`.
pub fn chars_of(s: &str) -> (r: Vec<char>)
    ensures
        r@ == s@,
{
    let mut r: Vec<char> = Vec::new();
    for c in it: s.chars()
        invariant
            r@ == it.seq().take(it.index() as int),
    {
        r.push(c);
    }
    r
}

/// A `String` holding the characters `v`.
pub fn string_of(v: &Vec<char>) -> (r: String)
    ensures
        r@ == v@,
{
    let mut r = String::new();
    let mut i: usize = 0;
    while i < v.len()
        invariant
            i <= v.len(),
            r@ == v@.take(i as int),
        decreases v.len() - i,
    {
        r.push(v[i]);
        i = i + 1;
        assert(r@ =~= v@.take(i as int));
    }
    assert(v@.take(v.len() as int) =~= v@);
    r
}

/// The characters `v[from..to]`.
pub fn slice(v: &Vec<char>, from: usize, to: usize) -> (r: Vec<char>)
    requires
        from <= to <= v.len(),
    ensures
        r@ == v@.subrange(from as int, to as int),
{
    let mut r: Vec<char> = Vec::new();
    let mut i: usize = from;
    while i < to
        invariant
            from <= i <= to <= v.len(),
            r@ == v@.subrange(from as int, i as int),
        decreases to - i,
    {
        r.push(v[i]);
        i = i + 1;
        assert(r@ =~= v@.subrange(from as int, i as int));
    }
    r
}

/// Appends the characters `w` to `v`.
pub fn extend(v: &mut Vec<char>, w: &Vec<char>)
    ensures
        final(v)@ == old(v)@ + w@,
{
    let mut i: usize = 0;
    while i < w.len()
        invariant
            i <= w.len(),
            v@ == old(v)@ + w@.take(i as int),
        decreases w.len() - i,
    {
        v.push(w[i]);
        i = i + 1;
        assert(v@ =~= old(v)@ + w@.take(i as int));
    }
    assert(w@.take(w.len() as int) =~= w@);
}

/// Appends the characters of `s` to `v`.
pub fn extend_str(v: &mut Vec<char>, s: &str)
    ensures
        final(v)@ == old(v)@ + s@,
{
    let w = chars_of(s);
    extend(v, &w);
}

pub fn is_ws_char(c: char) -> (r: bool)
    ensures
        r == is_ws(c),
{
    c == '\t' || c == '\n' || c == '\x0B' || c == '\x0C' || c == '\r' || c == ' '
        || c == '\u{85}' || c == '\u{A0}' || c == '\u{1680}'
        || ('\u{2000}' <= c && c <= '\u{200A}')
        || c == '\u{2028}' || c == '\u{2029}' || c == '\u{202F}' || c == '\u{205F}'
        || c == '\u{3000}'
}

/// Whether `v` equals `p`.
pub fn eq_chars(v: &Vec<char>, p: &Vec<char>) -> (r: bool)
    ensures
        r == (v@ == p@),
{
    if v.len() != p.len() {
        return false;
    }
    let mut i: usize = 0;
    while i < v.len()
        invariant
            i <= v.len(),
            v.len() == p.len(),
            forall|j: int| 0 <= j < i ==> v@[j] == p@[j],
        decreases v.len() - i,
    {
        if v[i] != p[i] {
            return false;
        }
        i = i + 1;
    }
    assert(v@ =~= p@);
    true
}

/// Whether `p` occurs in `v` at index `i`.
pub fn occurs_at_exec(v: &Vec<char>, p: &Vec<char>, i: usize) -> (r: bool)
    ensures
        r == occurs_at(v@, p@, i as int),
{
    if i > v.len() || p.len() > v.len() - i {
        return false;
    }
    let mut k: usize = 0;
    while k < p.len()
        invariant
            k <= p.len(),
            i + p.len() <= v.len(),
            forall|j: int| 0 <= j < k ==> v@[i + j] == p@[j],
        decreases p.len() - k,
    {
        if v[i + k] != p[k] {
            assert(v@.subrange(i as int, i + p.len())[k as int] != p@[k as int]);
            return false;
        }
        k = k + 1;
    }
    assert(v@.subrange(i as int, i + p.len()) =~= p@);
    true
}

/// The first index at or after `start` where `p` occurs in `v`.
pub fn find_from_exec(v: &Vec<char>, p: &Vec<char>, start: usize) -> (r: Option<usize>)
    ensures
        r matches Some(k) ==> find_from(v@, p@, start as int) == Some(k as int),
        r is None ==> find_from(v@, p@, start as int) is None,
{
    let mut i: usize = start;
    if i > v.len() || p.len() > v.len() - i {
        return None;
    }
    if p.len() == 0 {
        assert(v@.subrange(i as int, i as int) =~= p@);
        return Some(i);
    }
    while i <= v.len() - p.len()
        invariant
            start <= i,
            1 <= p.len() <= v.len(),
            i <= v.len() - p.len() + 1,
            find_from(v@, p@, start as int) == find_from(v@, p@, i as int),
        decreases v.len() - i,
    {
        if occurs_at_exec(v, p, i) {
            return Some(i);
        }
        i = i + 1;
    }
    None
}

pub fn find_exec(v: &Vec<char>, p: &Vec<char>) -> (r: Option<usize>)
    ensures
        r matches Some(k) ==> find(v@, p@) == Some(k as int),
        r is None ==> find(v@, p@) is None,
{
    find_from_exec(v, p, 0)
}

pub fn contains_exec(v: &Vec<char>, p: &Vec<char>) -> (r: bool)
    ensures
        r == contains(v@, p@),
{
    find_exec(v, p).is_some()
}

pub fn contains_str(v: &Vec<char>, p: &str) -> (r: bool)
    ensures
        r == contains(v@, p@),
{
    let pv = chars_of(p);
    contains_exec(v, &pv)
}

pub fn starts_with_exec(v: &Vec<char>, p: &Vec<char>) -> (r: bool)
    ensures
        r == starts_with(v@, p@),
{
    let r = occurs_at_exec(v, p, 0);
    assert(v@.subrange(0, p@.len() as int) =~= v@.take(p@.len() as int));
    r
}

pub fn starts_with_str(v: &Vec<char>, p: &str) -> (r: bool)
    ensures
        r == starts_with(v@, p@),
{
    let pv = chars_of(p);
    starts_with_exec(v, &pv)
}

pub fn ends_with_exec(v: &Vec<char>, p: &Vec<char>) -> (r: bool)
    ensures
        r == ends_with(v@, p@),
{
    if p.len() > v.len() {
        return false;
    }
    let r = occurs_at_exec(v, p, v.len() - p.len());
    assert(v@.subrange(v.len() - p.len(), v.len() as int) =~= v@.skip(v.len() - p.len()));
    r
}

pub fn ends_with_str(v: &Vec<char>, p: &str) -> (r: bool)
    ensures
        r == ends_with(v@, p@),
{
    let pv = chars_of(p);
    ends_with_exec(v, &pv)
}

pub fn eq_str(v: &Vec<char>, p: &str) -> (r: bool)
    ensures
        r == (v@ == p@),
{
    let pv = chars_of(p);
    eq_chars(v, &pv)
}

/// `str::trim`.
pub fn trim_exec(v: &Vec<char>) -> (r: Vec<char>)
    ensures
        r@ == trim(v@),
{
    let n = v.len();
    let mut i: usize = 0;
    assert(v@.subrange(0, n as int) =~= v@);
    while i < n && is_ws_char(v[i])
        invariant
            i <= n == v.len(),
            trim_start(v@) == trim_start(v@.subrange(i as int, n as int)),
        decreases n - i,
    {
        assert(v@.subrange(i as int, n as int).drop_first() =~= v@.subrange(i + 1, n as int));
        i = i + 1;
    }
    let mut j: usize = n;
    while j > i && is_ws_char(v[j - 1])
        invariant
            i <= j <= n == v.len(),
            trim_end(v@.subrange(i as int, n as int)) == trim_end(v@.subrange(i as int, j as int)),
        decreases j,
    {
        assert(v@.subrange(i as int, j as int).drop_last() =~= v@.subrange(i as int, j - 1));
        j = j - 1;
    }
    slice(v, i, j)
}


/// `s` split at every character that `seps` holds; empty pieces are kept,
/// so there is always one piece more than there are separators.
pub open spec fn split_by(s: Seq<char>, seps: Seq<char>) -> Seq<Seq<char>>
    decreases s.len(),
{
    if s.len() == 0 {
        seq![Seq::<char>::empty()]
    } else {
        let rest = split_by(s.drop_last(), seps);
        if seps.contains(s.last()) {
            rest.push(Seq::<char>::empty())
        } else {
            rest.update(rest.len() - 1, rest.last().push(s.last()))
        }
    }
}

pub proof fn lemma_split_by_nonempty(s: Seq<char>, seps: Seq<char>)
    ensures
        split_by(s, seps).len() >= 1,
    decreases s.len(),
{
    if s.len() > 0 {
        lemma_split_by_nonempty(s.drop_last(), seps);
    }
}

/// `line` with one trailing carriage return removed.
pub open spec fn strip_cr(line: Seq<char>) -> Seq<char> {
    if line.len() > 0 && line.last() == '\r' {
        line.drop_last()
    } else {
        line
    }
}

/// `str::lines`: the pieces between line feeds; a piece that a line feed
/// ends loses one carriage return before it, and a final line feed opens
/// no further line.
pub open spec fn lines(s: Seq<char>) -> Seq<Seq<char>> {
    let pieces = split_by(s, seq!['\n']);
    if s.len() == 0 {
        Seq::empty()
    } else if s.last() == '\n' {
        pieces.drop_last().map_values(|l: Seq<char>| strip_cr(l))
    } else {
        pieces.drop_last().map_values(|l: Seq<char>| strip_cr(l)).push(pieces.last())
    }
}

/// The pieces that are not empty, in order.
pub open spec fn non_empty(ps: Seq<Seq<char>>) -> Seq<Seq<char>>
    decreases ps.len(),
{
    if ps.len() == 0 {
        ps
    } else if ps.last().len() == 0 {
        non_empty(ps.drop_last())
    } else {
        non_empty(ps.drop_last()).push(ps.last())
    }
}

/// The white-space characters, for `split_by`.
pub open spec fn ws_chars() -> Seq<char> {
    seq![
        '\t', '\n', '\x0B', '\x0C', '\r', ' ', '\u{85}', '\u{A0}', '\u{1680}', '\u{2000}',
        '\u{2001}', '\u{2002}', '\u{2003}', '\u{2004}', '\u{2005}', '\u{2006}', '\u{2007}',
        '\u{2008}', '\u{2009}', '\u{200A}', '\u{2028}', '\u{2029}', '\u{202F}', '\u{205F}',
        '\u{3000}',
    ]
}

/// `str::split_whitespace`.
pub open spec fn split_ws(s: Seq<char>) -> Seq<Seq<char>> {
    non_empty(split_by(s, ws_chars()))
}

/// `[..].join(sep)`.
pub open spec fn join(parts: Seq<Seq<char>>, sep: Seq<char>) -> Seq<char>
    decreases parts.len(),
{
    if parts.len() == 0 {
        Seq::empty()
    } else if parts.len() == 1 {
        parts[0]
    } else {
        join(parts.drop_last(), sep) + sep + parts.last()
    }
}

/// `str::replacen(pat, with, 1)`.
pub open spec fn replace_first(s: Seq<char>, pat: Seq<char>, with: Seq<char>) -> Seq<char> {
    match find(s, pat) {
        Some(i) => s.take(i) + with + s.skip(i + pat.len()),
        None => s,
    }
}

/// `str::replace(pat, with)` for a pattern that is not empty.
pub open spec fn replace_all(s: Seq<char>, pat: Seq<char>, with: Seq<char>) -> Seq<char>
    decreases s.len(),
{
    if pat.len() == 0 {
        s
    } else {
        match find(s, pat) {
            Some(i) => if 0 <= i && i + pat.len() <= s.len() {
                s.take(i) + with + replace_all(s.skip(i + pat.len()), pat, with)
            } else {
                s
            },
            None => s,
        }
    }
}

/// The last index at or before `i` where `p` occurs in `s`.
pub open spec fn rfind_from(s: Seq<char>, p: Seq<char>, i: int) -> Option<int>
    decreases i + 1,
{
    if i < 0 {
        None
    } else if occurs_at(s, p, i) {
        Some(i)
    } else {
        rfind_from(s, p, i - 1)
    }
}

/// `str::rfind`: the last index where `p` occurs in `s`.
pub open spec fn rfind(s: Seq<char>, p: Seq<char>) -> Option<int> {
    rfind_from(s, p, s.len() - p.len())
}

/// `s` with every leading copy of `p` removed (`str::trim_start_matches`).
pub open spec fn trim_start_matches(s: Seq<char>, p: Seq<char>) -> Seq<char>
    decreases s.len(),
{
    if p.len() > 0 && starts_with(s, p) {
        trim_start_matches(s.skip(p.len() as int), p)
    } else {
        s
    }
}

/// Number of bytes of the UTF-8 encoding of `c`.
pub open spec fn utf8_width(c: char) -> nat {
    if (c as u32) < 0x80 {
        1
    } else if (c as u32) < 0x800 {
        2
    } else if (c as u32) < 0x10000 {
        3
    } else {
        4
    }
}

/// Number of bytes of the UTF-8 encoding of `s` (`str::len`).
pub open spec fn utf8_len(s: Seq<char>) -> nat
    decreases s.len(),
{
    if s.len() == 0 {
        0
    } else {
        utf8_len(s.drop_last()) + utf8_width(s.last())
    }
}

/// Lower-case hexadecimal digit of `d < 16`.
pub open spec fn hex_digit(d: nat) -> char {
    if d < 10 {
        ((d + 48) as u8) as char
    } else {
        ((d + 87) as u8) as char
    }
}

/// Lower-case hexadecimal numeral of `n`, without leading zeros.
pub open spec fn hex_str(n: nat) -> Seq<char>
    decreases n,
{
    if n < 16 {
        seq![hex_digit(n)]
    } else {
        hex_str(n / 16).push(hex_digit(n % 16))
    }
}

/// Decimal numeral of `n`.
pub open spec fn dec_str(n: nat) -> Seq<char>
    decreases n,
{
    if n < 10 {
        seq![hex_digit(n)]
    } else {
        dec_str(n / 10).push(hex_digit(n % 10))
    }
}

/// `s` padded on the left with `'0'` to at least `w` characters.
pub open spec fn zero_pad(s: Seq<char>, w: nat) -> Seq<char> {
    if s.len() < w {
        Seq::new((w - s.len()) as nat, |i: int| '0') + s
    } else {
        s
    }
}

/// `format!("{:0w$x}", n)`.
pub open spec fn hex_pad(n: nat, w: nat) -> Seq<char> {
    zero_pad(hex_str(n), w)
}

/// Value of digit `c` in base `radix` (10 or 16), if it is one.
pub open spec fn digit_value(c: char, radix: nat) -> Option<nat> {
    if '0' <= c && c <= '9' {
        Some(((c as nat) - 48) as nat)
    } else if radix == 16 && 'a' <= c && c <= 'f' {
        Some(((c as nat) - 87) as nat)
    } else if radix == 16 && 'A' <= c && c <= 'F' {
        Some(((c as nat) - 55) as nat)
    } else {
        None
    }
}

pub open spec fn all_digits(s: Seq<char>, radix: nat) -> bool {
    forall|i: int| 0 <= i < s.len() ==> digit_value(#[trigger] s[i], radix) is Some
}

/// Value of the numeral `s` in base `radix`.
pub open spec fn digits_value(s: Seq<char>, radix: nat) -> nat
    decreases s.len(),
{
    if s.len() == 0 {
        0
    } else {
        digits_value(s.drop_last(), radix) * radix + match digit_value(s.last(), radix) {
            Some(d) => d,
            None => 0,
        }
    }
}

/// `from_str_radix` for an unsigned type whose largest value is `max`:
/// an optional `+`, then at least one digit, and a value at most `max`.
pub open spec fn parse_uint(s: Seq<char>, radix: nat, max: nat) -> Option<nat> {
    let body = if s.len() > 0 && s[0] == '+' {
        s.drop_first()
    } else {
        s
    };
    if body.len() > 0 && all_digits(body, radix) && digits_value(body, radix) <= max {
        Some(digits_value(body, radix))
    } else {
        None
    }
}


/// The character sequences that a vector of character vectors holds.
pub open spec fn views(v: Seq<Vec<char>>) -> Seq<Seq<char>> {
    v.map_values(|x: Vec<char>| x@)
}

/// The character sequences that a vector of strings holds.
pub open spec fn str_views(v: Seq<String>) -> Seq<Seq<char>> {
    v.map_values(|x: String| x@)
}

pub proof fn lemma_views_push(v: Seq<Vec<char>>, x: Vec<char>)
    ensures
        views(v.push(x)) == views(v).push(x@),
{
    assert(views(v.push(x)) =~= views(v).push(x@));
}

pub proof fn lemma_str_views_push(v: Seq<String>, x: String)
    ensures
        str_views(v.push(x)) == str_views(v).push(x@),
{
    assert(str_views(v.push(x)) =~= str_views(v).push(x@));
}

pub fn in_chars(seps: &Vec<char>, c: char) -> (r: bool)
    ensures
        r == seps@.contains(c),
{
    let mut i: usize = 0;
    while i < seps.len()
        invariant
            i <= seps.len(),
            forall|j: int| 0 <= j < i ==> seps@[j] != c,
        decreases seps.len() - i,
    {
        if seps[i] == c {
            return true;
        }
        i = i + 1;
    }
    false
}

/// `v` split at the characters in `seps`.
pub fn split_by_exec(v: &Vec<char>, seps: &Vec<char>) -> (r: Vec<Vec<char>>)
    ensures
        views(r@) == split_by(v@, seps@),
{
    let mut done: Vec<Vec<char>> = Vec::new();
    let mut cur: Vec<char> = Vec::new();
    let mut i: usize = 0;
    assert(v@.take(0) =~= Seq::<char>::empty());
    assert(views(done@).push(cur@) =~= split_by(v@.take(0), seps@));
    while i < v.len()
        invariant
            i <= v.len(),
            views(done@).push(cur@) == split_by(v@.take(i as int), seps@),
        decreases v.len() - i,
    {
        let c = v[i];
        let ghost prev = v@.take(i as int);
        assert(v@.take(i + 1).drop_last() =~= prev);
        assert(v@.take(i + 1).last() == c);
        if in_chars(seps, c) {
            let ghost old_done = done@;
            let ghost old_cur = cur@;
            done.push(cur);
            cur = Vec::new();
            assert(views(done@) =~= views(old_done).push(old_cur));
            assert(views(done@).push(cur@) =~= split_by(v@.take(i + 1), seps@));
        } else {
            let ghost old_cur = cur@;
            cur.push(c);
            assert(views(done@).push(cur@) =~= split_by(v@.take(i + 1), seps@));
        }
        i = i + 1;
    }
    assert(v@.take(v.len() as int) =~= v@);
    let ghost d = done@;
    done.push(cur);
    assert(views(done@) =~= views(d).push(cur@));
    done
}

/// `str::lines`.
pub fn lines_exec(v: &Vec<char>) -> (r: Vec<Vec<char>>)
    ensures
        views(r@) == lines(v@),
{
    let nl: Vec<char> = vec!['\n'];
    assert(nl@ =~= seq!['\n']);
    let pieces = split_by_exec(v, &nl);
    proof {
        lemma_split_by_nonempty(v@, seq!['\n']);
    }
    let mut out: Vec<Vec<char>> = Vec::new();
    if v.len() == 0 {
        assert(views(out@) =~= lines(v@));
        return out;
    }
    let n = pieces.len() - 1;
    let mut i: usize = 0;
    while i < n
        invariant
            i <= n,
            n == pieces@.len() - 1,
            out@.len() == i,
            forall|j: int| 0 <= j < i ==> (#[trigger] out@[j])@ == strip_cr(pieces@[j]@),
        decreases n - i,
    {
        let p = &pieces[i];
        let mut l = slice(p, 0, p.len());
        if p.len() > 0 && p[p.len() - 1] == '\r' {
            l = slice(p, 0, p.len() - 1);
        }
        assert(l@ == strip_cr(pieces@[i as int]@)) by {
            assert(p@.subrange(0, p.len() as int) =~= p@);
            assert(p@.subrange(0, p.len() - 1) =~= p@.drop_last());
        }
        out.push(l);
        i = i + 1;
    }
    let ghost firsts = views(pieces@).drop_last().map_values(|l: Seq<char>| strip_cr(l));
    assert(views(out@) =~= firsts);
    if v[v.len() - 1] != '\n' {
        let last = slice(&pieces[n], 0, pieces[n].len());
        assert(last@ =~= views(pieces@).last());
        proof {
            lemma_views_push(out@, last);
        }
        out.push(last);
    }
    assert(views(out@) =~= lines(v@));
    out
}

/// The pieces of `ps` that are not empty.
pub fn non_empty_exec(ps: Vec<Vec<char>>) -> (r: Vec<Vec<char>>)
    ensures
        views(r@) == non_empty(views(ps@)),
{
    let mut out: Vec<Vec<char>> = Vec::new();
    let mut i: usize = 0;
    assert(views(ps@).take(0) =~= Seq::<Seq<char>>::empty());
    while i < ps.len()
        invariant
            i <= ps.len(),
            views(out@) == non_empty(views(ps@).take(i as int)),
        decreases ps.len() - i,
    {
        assert(views(ps@).take(i + 1).drop_last() =~= views(ps@).take(i as int));
        if ps[i].len() > 0 {
            let p = slice(&ps[i], 0, ps[i].len());
            assert(p@ =~= views(ps@)[i as int]);
            proof {
                lemma_views_push(out@, p);
            }
            out.push(p);
        }
        i = i + 1;
        assert(views(out@) =~= non_empty(views(ps@).take(i as int)));
    }
    assert(views(ps@).take(ps.len() as int) =~= views(ps@));
    out
}

pub fn ws_chars_exec() -> (r: Vec<char>)
    ensures
        r@ == ws_chars(),
{
    let r = vec![
        '\t', '\n', '\x0B', '\x0C', '\r', ' ', '\u{85}', '\u{A0}', '\u{1680}', '\u{2000}',
        '\u{2001}', '\u{2002}', '\u{2003}', '\u{2004}', '\u{2005}', '\u{2006}', '\u{2007}',
        '\u{2008}', '\u{2009}', '\u{200A}', '\u{2028}', '\u{2029}', '\u{202F}', '\u{205F}',
        '\u{3000}',
    ];
    assert(r@ =~= ws_chars());
    r
}

/// `str::split_whitespace`.
pub fn split_ws_exec(v: &Vec<char>) -> (r: Vec<Vec<char>>)
    ensures
        views(r@) == split_ws(v@),
{
    let ws = ws_chars_exec();
    let pieces = split_by_exec(v, &ws);
    non_empty_exec(pieces)
}

/// `parts.join(sep)`.
pub fn join_exec(parts: &Vec<Vec<char>>, sep: &Vec<char>) -> (r: Vec<char>)
    ensures
        r@ == join(views(parts@), sep@),
{
    let mut out: Vec<char> = Vec::new();
    let mut i: usize = 0;
    assert(views(parts@).take(0) =~= Seq::<Seq<char>>::empty());
    while i < parts.len()
        invariant
            i <= parts.len(),
            out@ == join(views(parts@).take(i as int), sep@),
        decreases parts.len() - i,
    {
        assert(views(parts@).take(i + 1).drop_last() =~= views(parts@).take(i as int));
        if i > 0 {
            extend(&mut out, sep);
        }
        extend(&mut out, &parts[i]);
        i = i + 1;
        proof {
            if i == 1 {
                assert(out@ =~= views(parts@).take(1)[0]);
            }
        }
        assert(out@ =~= join(views(parts@).take(i as int), sep@));
    }
    assert(views(parts@).take(parts.len() as int) =~= views(parts@));
    out
}

/// `parts.join(sep)` for strings.
pub fn join_strings(parts: &Vec<String>, sep: &str) -> (r: String)
    ensures
        r@ == join(str_views(parts@), sep@),
{
    let mut vs: Vec<Vec<char>> = Vec::new();
    let mut i: usize = 0;
    while i < parts.len()
        invariant
            i <= parts.len(),
            views(vs@) == str_views(parts@).take(i as int),
        decreases parts.len() - i,
    {
        let c = chars_of(parts[i].as_str());
        proof {
            lemma_views_push(vs@, c);
        }
        vs.push(c);
        i = i + 1;
        assert(views(vs@) =~= str_views(parts@).take(i as int));
    }
    assert(str_views(parts@).take(parts.len() as int) =~= str_views(parts@));
    let sepv = chars_of(sep);
    let j = join_exec(&vs, &sepv);
    string_of(&j)
}

/// `s.replacen(pat, with, 1)`.
pub fn replace_first_exec(v: &Vec<char>, pat: &Vec<char>, with: &Vec<char>) -> (r: Vec<char>)
    ensures
        r@ == replace_first(v@, pat@, with@),
{
    match find_exec(v, pat) {
        Some(i) => {
            proof {
                lemma_find_from_props(v@, pat@, 0);
            }
            let mut out = slice(v, 0, i);
            extend(&mut out, with);
            let rest = slice(v, i + pat.len(), v.len());
            extend(&mut out, &rest);
            out
        },
        None => slice(v, 0, v.len()),
    }
}

/// `s.replace(pat, with)` for a pattern that is not empty.
pub fn replace_all_exec(v: &Vec<char>, pat: &Vec<char>, with: &Vec<char>) -> (r: Vec<char>)
    requires
        pat@.len() > 0,
    ensures
        r@ == replace_all(v@, pat@, with@),
{
    let mut out: Vec<char> = Vec::new();
    let mut rest = slice(v, 0, v.len());
    assert(rest@ =~= v@);
    assert(out@ + replace_all(rest@, pat@, with@) =~= replace_all(rest@, pat@, with@));
    loop
        invariant
            pat@.len() > 0,
            replace_all(v@, pat@, with@) == out@ + replace_all(rest@, pat@, with@),
        decreases rest@.len(),
    {
        match find_exec(&rest, pat) {
            Some(i) => {
                proof {
                    lemma_find_from_props(rest@, pat@, 0);
                }
                let head = slice(&rest, 0, i);
                extend(&mut out, &head);
                extend(&mut out, with);
                let ghost old_out = out@;
                let next = slice(&rest, i + pat.len(), rest.len());
                proof {
                    assert(old_out =~= (out@));
                }
                rest = next;
            },
            None => {
                extend(&mut out, &rest);
                return out;
            },
        }
    }
}

/// Replaces the first `{}` of `template` with `arg`.
pub fn fill(template: &String, arg: &str) -> (r: String)
    ensures
        r@ == replace_first(template@, "{}"@, arg@),
{
    let v = chars_of(template.as_str());
    let pat = chars_of("{}");
    let a = chars_of(arg);
    let out = replace_first_exec(&v, &pat, &a);
    string_of(&out)
}

/// Replaces every `{}` of `template` with `arg`.
pub fn fill_all(template: &String, arg: &str) -> (r: String)
    ensures
        r@ == replace_all(template@, "{}"@, arg@),
{
    let v = chars_of(template.as_str());
    let pat = chars_of("{}");
    proof { reveal_strlit("{}"); }
    let a = chars_of(arg);
    let out = replace_all_exec(&v, &pat, &a);
    string_of(&out)
}


pub fn rfind_exec(v: &Vec<char>, p: &Vec<char>) -> (r: Option<usize>)
    ensures
        r matches Some(k) ==> rfind(v@, p@) == Some(k as int),
        r is None ==> rfind(v@, p@) is None,
{
    if p.len() > v.len() {
        return None;
    }
    let mut i: usize = v.len() - p.len();
    loop
        invariant
            i <= v.len() - p.len(),
            rfind(v@, p@) == rfind_from(v@, p@, i as int),
        decreases i,
    {
        if occurs_at_exec(v, p, i) {
            return Some(i);
        }
        if i == 0 {
            return None;
        }
        i = i - 1;
    }
}

/// `str::trim_start_matches(p)`.
pub fn trim_start_matches_exec(v: &Vec<char>, p: &Vec<char>) -> (r: Vec<char>)
    ensures
        r@ == trim_start_matches(v@, p@),
{
    let mut i: usize = 0;
    assert(v@.skip(0) =~= v@);
    if p.len() == 0 {
        return slice(v, 0, v.len());
    }
    while p.len() <= v.len() - i && occurs_at_exec(v, p, i)
        invariant
            i <= v.len(),
            p.len() > 0,
            trim_start_matches(v@, p@) == trim_start_matches(v@.skip(i as int), p@),
        decreases v.len() - i,
    {
        assert(v@.skip(i as int).take(p.len() as int) =~= v@.subrange(i as int, i + p.len()));
        assert(v@.skip(i as int).skip(p.len() as int) =~= v@.skip(i + p.len()));
        i = i + p.len();
    }
    proof {
        if i + p.len() <= v.len() {
            assert(v@.skip(i as int).take(p.len() as int) =~= v@.subrange(i as int, i + p.len()));
        }
    }
    let r = slice(v, i, v.len());
    assert(r@ =~= v@.skip(i as int));
    r
}

pub fn utf8_width_exec(c: char) -> (r: usize)
    ensures
        r == utf8_width(c),
{
    let u = c as u32;
    if u < 0x80 {
        1
    } else if u < 0x800 {
        2
    } else if u < 0x10000 {
        3
    } else {
        4
    }
}

/// Number of bytes of the UTF-8 encoding of `v`.
pub fn utf8_len_exec(v: &Vec<char>) -> (r: usize)
    requires
        v.len() <= usize::MAX / 4,
    ensures
        r == utf8_len(v@),
{
    let mut n: usize = 0;
    let mut i: usize = 0;
    while i < v.len()
        invariant
            i <= v.len() <= usize::MAX / 4,
            n == utf8_len(v@.take(i as int)),
            n <= 4 * i,
        decreases v.len() - i,
    {
        assert(v@.take(i + 1).drop_last() =~= v@.take(i as int));
        n = n + utf8_width_exec(v[i]);
        i = i + 1;
    }
    assert(v@.take(v.len() as int) =~= v@);
    n
}

pub fn hex_digit_exec(d: u64) -> (r: char)
    requires
        d < 16,
    ensures
        r == hex_digit(d as nat),
{
    if d < 10 {
        ((d + 48) as u8) as char
    } else {
        ((d + 87) as u8) as char
    }
}

/// Lower-case hexadecimal numeral of `n`.
pub fn hex_str_exec(n: u64) -> (r: Vec<char>)
    ensures
        r@ == hex_str(n as nat),
    decreases n,
{
    if n < 16 {
        let r = vec![hex_digit_exec(n)];
        assert(r@ =~= seq![hex_digit(n as nat)]);
        r
    } else {
        let mut r = hex_str_exec(n / 16);
        r.push(hex_digit_exec(n % 16));
        r
    }
}

/// Decimal numeral of `n`.
pub fn dec_str_exec(n: u64) -> (r: Vec<char>)
    ensures
        r@ == dec_str(n as nat),
    decreases n,
{
    if n < 10 {
        let r = vec![hex_digit_exec(n)];
        assert(r@ =~= seq![hex_digit(n as nat)]);
        r
    } else {
        let mut r = dec_str_exec(n / 10);
        r.push(hex_digit_exec(n % 10));
        r
    }
}

/// `v` padded on the left with zeros to at least `w` characters.
pub fn zero_pad_exec(v: &Vec<char>, w: usize) -> (r: Vec<char>)
    ensures
        r@ == zero_pad(v@, w as nat),
{
    let mut r: Vec<char> = Vec::new();
    if v.len() < w {
        let k = w - v.len();
        let mut i: usize = 0;
        while i < k
            invariant
                i <= k,
                r@ == Seq::new(i as nat, |j: int| '0'),
            decreases k - i,
        {
            r.push('0');
            i = i + 1;
            assert(r@ =~= Seq::new(i as nat, |j: int| '0'));
        }
    }
    extend(&mut r, v);
    assert(r@ =~= zero_pad(v@, w as nat));
    r
}

/// `format!("{:0w$x}", n)`.
pub fn hex_pad_exec(n: u64, w: usize) -> (r: Vec<char>)
    ensures
        r@ == hex_pad(n as nat, w as nat),
{
    let h = hex_str_exec(n);
    zero_pad_exec(&h, w)
}

pub fn digit_value_exec(c: char, radix: u64) -> (r: Option<u64>)
    ensures
        r matches Some(d) ==> digit_value(c, radix as nat) == Some(d as nat) && d < 16,
        r is None ==> digit_value(c, radix as nat) is None,
{
    if '0' <= c && c <= '9' {
        Some((c as u64) - 48)
    } else if radix == 16 && 'a' <= c && c <= 'f' {
        Some((c as u64) - 87)
    } else if radix == 16 && 'A' <= c && c <= 'F' {
        Some((c as u64) - 55)
    } else {
        None
    }
}

pub proof fn lemma_digits_value_grows(s: Seq<char>, radix: nat)
    requires
        s.len() > 0,
        radix >= 1,
    ensures
        digits_value(s, radix) >= digits_value(s.drop_last(), radix),
{
    let a = digits_value(s.drop_last(), radix);
    assert(a * radix >= a) by (nonlinear_arith)
        requires
            radix >= 1,
            a >= 0,
    ;
}

/// A digit that `hex_digit` writes reads back as its value, and is neither
/// `:` nor `.` nor `+`.
pub proof fn lemma_hex_digit(k: nat)
    requires
        k < 16,
    ensures
        digit_value(hex_digit(k), 16) == Some(k),
        k < 10 ==> digit_value(hex_digit(k), 10) == Some(k),
        hex_digit(k) != ':' && hex_digit(k) != '.' && hex_digit(k) != '+',
{
    if k < 10 {
        assert(((k + 48) as u8) as char == (k + 48) as char);
    } else {
        assert(((k + 87) as u8) as char == (k + 87) as char);
    }
}

/// The text is made of digits of `radix` only, none of them `:`, `.` or `+`.
pub open spec fn plain_digits(s: Seq<char>, radix: nat) -> bool {
    &&& all_digits(s, radix)
    &&& forall|i: int| 0 <= i < s.len() ==> #[trigger] s[i] != ':' && s[i] != '.' && s[i] != '+'
}

/// `hex_str` writes hexadecimal digits that read back as the number.
pub proof fn lemma_hex_str_reads_back(n: nat)
    ensures
        hex_str(n).len() >= 1,
        plain_digits(hex_str(n), 16),
        digits_value(hex_str(n), 16) == n,
    decreases n,
{
    if n < 16 {
        lemma_hex_digit(n);
        let t = hex_str(n);
        assert(t.drop_last() =~= Seq::<char>::empty());
        assert(t.last() == hex_digit(n));
        assert(digits_value(t.drop_last(), 16) == 0);
        assert(0nat * 16 == 0) by (nonlinear_arith);
    } else {
        lemma_hex_str_reads_back(n / 16);
        lemma_hex_digit(n % 16);
        let t = hex_str(n);
        assert(t.drop_last() =~= hex_str(n / 16));
        assert forall|i: int| 0 <= i < t.len() implies digit_value(#[trigger] t[i], 16) is Some
            && t[i] != ':' && t[i] != '.' && t[i] != '+' by {
            if i < t.len() - 1 {
                assert(t[i] == hex_str(n / 16)[i]);
            }
        }
        assert(t.last() == hex_digit(n % 16));
        assert(digits_value(t, 16) == (n / 16) * 16 + n % 16);
        assert((n / 16) * 16 + n % 16 == n) by (nonlinear_arith);
    }
}

/// `dec_str` writes decimal digits that read back as the number.
pub proof fn lemma_dec_str_reads_back(n: nat)
    ensures
        dec_str(n).len() >= 1,
        plain_digits(dec_str(n), 10),
        digits_value(dec_str(n), 10) == n,
    decreases n,
{
    if n < 10 {
        lemma_hex_digit(n);
        let t = dec_str(n);
        assert(t.drop_last() =~= Seq::<char>::empty());
        assert(t.last() == hex_digit(n));
        assert(digits_value(t.drop_last(), 10) == 0);
        assert(0nat * 10 == 0) by (nonlinear_arith);
    } else {
        lemma_dec_str_reads_back(n / 10);
        lemma_hex_digit(n % 10);
        let t = dec_str(n);
        assert(t.drop_last() =~= dec_str(n / 10));
        assert forall|i: int| 0 <= i < t.len() implies digit_value(#[trigger] t[i], 10) is Some
            && t[i] != ':' && t[i] != '.' && t[i] != '+' by {
            if i < t.len() - 1 {
                assert(t[i] == dec_str(n / 10)[i]);
            }
        }
        assert(t.last() == hex_digit(n % 10));
        assert(digits_value(t, 10) == (n / 10) * 10 + n % 10);
        assert((n / 10) * 10 + n % 10 == n) by (nonlinear_arith);
    }
}

/// Leading zeros change nothing of a numeral's value.
proof fn lemma_zeros_read_as_nothing(z: Seq<char>, s: Seq<char>, radix: nat)
    requires
        forall|i: int| 0 <= i < z.len() ==> z[i] == '0',
    ensures
        digits_value(z + s, radix) == digits_value(s, radix),
    decreases s.len() + z.len(),
{
    if s.len() == 0 {
        assert(z + s =~= z);
        if z.len() > 0 {
            lemma_zeros_read_as_nothing(z.drop_last(), s, radix);
            assert(z.drop_last() + s =~= z.drop_last());
            assert(digit_value(z.last(), radix) == Some(0nat));
            assert(digits_value(z.drop_last(), radix) == 0);
            assert(digits_value(z, radix) == 0 * radix + 0);
        }
    } else {
        lemma_zeros_read_as_nothing(z, s.drop_last(), radix);
        assert((z + s).drop_last() =~= z + s.drop_last());
        assert((z + s).last() == s.last());
    }
}

/// `hex_pad` writes hexadecimal digits that read back as the number.
pub proof fn lemma_hex_pad_reads_back(n: nat, w: nat)
    ensures
        hex_pad(n, w).len() >= 1,
        plain_digits(hex_pad(n, w), 16),
        digits_value(hex_pad(n, w), 16) == n,
{
    lemma_hex_str_reads_back(n);
    let h = hex_str(n);
    if h.len() < w {
        let z = Seq::new((w - h.len()) as nat, |i: int| '0');
        lemma_zeros_read_as_nothing(z, h, 16);
        let t = z + h;
        assert(digit_value('0', 16) == Some(0nat));
        assert forall|i: int| 0 <= i < t.len() implies digit_value(#[trigger] t[i], 16) is Some
            && t[i] != ':' && t[i] != '.' && t[i] != '+' by {
            if i < z.len() {
                assert(t[i] == '0');
            } else {
                assert(t[i] == h[i - z.len()]);
            }
        }
    }
}

/// Plain digits of a value up to `max` parse back as that value.
pub proof fn lemma_parse_plain_digits(s: Seq<char>, radix: nat, max: nat)
    requires
        s.len() >= 1,
        plain_digits(s, radix),
        digits_value(s, radix) <= max,
    ensures
        parse_uint(s, radix, max) == Some(digits_value(s, radix)),
{
    assert(s[0] != '+');
}

/// Appending text without separators to `a` extends the last piece of
/// `a`'s split by it.
pub proof fn lemma_split_by_append(a: Seq<char>, b: Seq<char>, seps: Seq<char>)
    requires
        forall|i: int| 0 <= i < b.len() ==> !seps.contains(#[trigger] b[i]),
    ensures
        split_by(a + b, seps) == split_by(a, seps).update(split_by(a, seps).len() - 1,
            split_by(a, seps).last() + b),
    decreases b.len(),
{
    lemma_split_by_nonempty(a, seps);
    let r = split_by(a, seps);
    if b.len() == 0 {
        assert(a + b =~= a);
        assert(r.last() + b =~= r.last());
        assert(r.update(r.len() - 1, r.last()) =~= r);
    } else {
        lemma_split_by_append(a, b.drop_last(), seps);
        assert((a + b).drop_last() =~= a + b.drop_last());
        assert((a + b).last() == b.last());
        assert(!seps.contains(b.last()));
        let r1 = r.update(r.len() - 1, r.last() + b.drop_last());
        assert((r.last() + b.drop_last()).push(b.last()) =~= r.last() + b);
        assert(r1.update(r1.len() - 1, r1.last().push(b.last())) =~= r.update(r.len() - 1, r.last() + b));
    }
}

/// `from_str_radix` for an unsigned type whose largest value is `max`.
pub fn parse_uint_exec(v: &Vec<char>, radix: u64, max: u64) -> (r: Option<u64>)
    requires
        radix == 10 || radix == 16,
    ensures
        r matches Some(x) ==> parse_uint(v@, radix as nat, max as nat) == Some(x as nat),
        r is None ==> parse_uint(v@, radix as nat, max as nat) is None,
{
    let start: usize = if v.len() > 0 && v[0] == '+' { 1 } else { 0 };
    let ghost body = if v@.len() > 0 && v@[0] == '+' { v@.drop_first() } else { v@ };
    assert(body =~= v@.skip(start as int));
    if start >= v.len() {
        return None;
    }
    let mut val: u64 = 0;
    let mut over = false;
    let mut i: usize = start;
    assert(body.take(0) =~= Seq::<char>::empty());
    while i < v.len()
        invariant
            start <= i <= v.len(),
            body == v@.skip(start as int),
            body == (if v@.len() > 0 && v@[0] == '+' { v@.drop_first() } else { v@ }),
            radix == 10 || radix == 16,
            all_digits(body.take(i - start), radix as nat),
            !over ==> val == digits_value(body.take(i - start), radix as nat) && val <= max,
            over ==> digits_value(body.take(i - start), radix as nat) > max,
        decreases v.len() - i,
    {
        let ghost t = body.take(i + 1 - start);
        assert(t.drop_last() =~= body.take(i - start));
        assert(t.last() == v@[i as int]);
        match digit_value_exec(v[i], radix) {
            None => {
                proof {
                    assert(body[i - start] == v@[i as int]);
                    assert(digit_value(body[i - start], radix as nat) is None);
                    assert(!all_digits(body, radix as nat));
                    assert(parse_uint(v@, radix as nat, max as nat) is None);
                }
                return None;
            },
            Some(d) => {
                proof {
                    lemma_digits_value_grows(t, radix as nat);
                }
                if !over {
                    match val.checked_mul(radix) {
                        Some(m) => match m.checked_add(d) {
                            Some(nv) => {
                                if nv > max {
                                    over = true;
                                } else {
                                    val = nv;
                                }
                            },
                            None => {
                                over = true;
                            },
                        },
                        None => {
                            assert(val * radix + d >= val * radix);
                            over = true;
                        },
                    }
                }
                assert(all_digits(t, radix as nat)) by {
                    assert forall|k: int| 0 <= k < t.len() implies digit_value(#[trigger] t[k], radix as nat) is Some by {
                        if k < t.len() - 1 {
                            assert(t[k] == body.take(i - start)[k]);
                        }
                    }
                }
            },
        }
        i = i + 1;
    }
    assert(body.take(v.len() - start) =~= body);
    if over {
        None
    } else {
        Some(val)
    }
}

pub proof fn lemma_rfind_from_bound(s: Seq<char>, p: Seq<char>, i: int)
    ensures
        rfind_from(s, p, i) matches Some(k) ==> 0 <= k && k + p.len() <= s.len(),
    decreases i + 1,
{
    if i >= 0 && !occurs_at(s, p, i) {
        lemma_rfind_from_bound(s, p, i - 1);
    }
}

pub proof fn lemma_rfind_bound(s: Seq<char>, p: Seq<char>)
    ensures
        rfind(s, p) matches Some(k) ==> 0 <= k && k + p.len() <= s.len(),
{
    lemma_rfind_from_bound(s, p, s.len() - p.len());
}


/// Whether two strings hold the same characters.
pub fn same(a: &str, b: &str) -> (r: bool)
    ensures
        r == (a@ == b@),
{
    let av = chars_of(a);
    eq_str(&av, b)
}


/// `str::trim_end`.
pub fn trim_end_exec(v: &Vec<char>) -> (r: Vec<char>)
    ensures
        r@ == trim_end(v@),
{
    let mut j: usize = v.len();
    assert(v@.subrange(0, j as int) =~= v@);
    while j > 0 && is_ws_char(v[j - 1])
        invariant
            j <= v.len(),
            trim_end(v@) == trim_end(v@.subrange(0, j as int)),
        decreases j,
    {
        assert(v@.subrange(0, j as int).drop_last() =~= v@.subrange(0, j - 1));
        j = j - 1;
    }
    slice(v, 0, j)
}

} // verus!
