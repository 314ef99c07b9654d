//! Text primitives: every operation is stated over the sequence of characters
//! that a string holds.

use vstd::prelude::*;
use vstd::string::*;

verus! {

/// `String::push` appends one character to the end of the string.
pub assume_specification[ String::push ](s: &mut String, c: char)
    ensures
        final(s)@ == old(s)@.push(c),
;

// ---------------------------------------------------------------------------
// Conversions
// ---------------------------------------------------------------------------

/// The characters of a string, in order.
pub fn chars_of(s: &str) -> (cs: Vec<char>)
    ensures
        cs@ == s@,
{
    let mut cs: Vec<char> = Vec::new();
    for c in it: s.chars()
        invariant
            it.seq() == s@,
            cs@ == s@.take(it.index() as int),
    {
        proof {
            assert(s@.take(it.index() + 1) =~= s@.take(it.index() as int).push(c));
        }
        cs.push(c);
    }
    assert(s@.take(s@.len() as int) =~= s@);
    cs
}

/// The string made of the characters `from..to` of `cs`.
pub fn string_of(cs: &Vec<char>, from: usize, to: usize) -> (r: String)
    requires
        from <= to <= cs@.len(),
    ensures
        r@ == cs@.subrange(from as int, to as int),
{
    let mut r = String::new();
    let mut i: usize = from;
    while i < to
        invariant
            from <= i <= to <= cs@.len(),
            r@ == cs@.subrange(from as int, i as int),
        decreases to - i,
    {
        r.push(cs[i]);
        proof {
            assert(cs@.subrange(from as int, i + 1) =~= cs@.subrange(from as int, i as int).push(
                cs@[i as int],
            ));
        }
        i += 1;
    }
    r
}

/// The views of a list of strings.
pub open spec fn texts(v: Seq<String>) -> Seq<Seq<char>> {
    v.map_values(|s: String| s@)
}

/// The view of an optional string.
pub open spec fn opt_text(o: Option<String>) -> Option<Seq<char>> {
    match o {
        Some(s) => Some(s@),
        None => None,
    }
}

/// The view of an optional string slice.
pub open spec fn opt_str(o: Option<&str>) -> Option<Seq<char>> {
    match o {
        Some(s) => Some(s@),
        None => None,
    }
}

/// A copy of an optional string.
pub fn clone_opt(o: &Option<String>) -> (r: Option<String>)
    ensures
        opt_text(r) == opt_text(*o),
        r == *o,
{
    match o {
        Some(s) => Some(s.clone()),
        None => None,
    }
}

/// A copy of a list of strings.
pub fn clone_texts(v: &Vec<String>) -> (r: Vec<String>)
    ensures
        texts(r@) == texts(v@),
        r@ == v@,
{
    let mut r: Vec<String> = Vec::new();
    let mut i: usize = 0;
    while i < v.len()
        invariant
            i <= v@.len(),
            r@ == v@.take(i as int),
        decreases v.len() - i,
    {
        r.push(v[i].clone());
        proof {
            assert(v@.take(i + 1) =~= v@.take(i as int).push(v@[i as int]));
        }
        i += 1;
    }
    assert(v@.take(v@.len() as int) =~= v@);
    r
}

// ---------------------------------------------------------------------------
// Equality and concatenation
// ---------------------------------------------------------------------------

/// Whether two strings hold the same characters.
pub fn same(a: &str, b: &str) -> (r: bool)
    ensures
        r == (a@ == b@),
{
    let x = a.to_owned();
    let y = b.to_owned();
    x == y
}

/// Two texts, one after the other.
pub fn cat2(a: &str, b: &str) -> (r: String)
    ensures
        r@ == a@ + b@,
{
    let mut r = a.to_owned();
    r.append(b);
    r
}

/// Three texts, one after the other.
pub fn cat3(a: &str, b: &str, c: &str) -> (r: String)
    ensures
        r@ == a@ + b@ + c@,
{
    let mut r = a.to_owned();
    r.append(b);
    r.append(c);
    r
}

/// Four texts, one after the other.
pub fn cat4(a: &str, b: &str, c: &str, d: &str) -> (r: String)
    ensures
        r@ == a@ + b@ + c@ + d@,
{
    let mut r = a.to_owned();
    r.append(b);
    r.append(c);
    r.append(d);
    r
}

/// Five texts, one after the other.
pub fn cat5(a: &str, b: &str, c: &str, d: &str, e: &str) -> (r: String)
    ensures
        r@ == a@ + b@ + c@ + d@ + e@,
{
    let mut r = a.to_owned();
    r.append(b);
    r.append(c);
    r.append(d);
    r.append(e);
    r
}

/// The parts of a list with `sep` between neighbours.
pub open spec fn joined(parts: Seq<Seq<char>>, sep: Seq<char>) -> Seq<char>
    decreases parts.len(),
{
    if parts.len() == 0 {
        Seq::empty()
    } else if parts.len() == 1 {
        parts[0]
    } else {
        joined(parts.drop_last(), sep) + sep + parts.last()
    }
}

/// Join a list of strings with a separator.
pub fn join(parts: &Vec<String>, sep: &str) -> (r: String)
    ensures
        r@ == joined(texts(parts@), sep@),
{
    let mut r = String::new();
    let mut i: usize = 0;
    assert(texts(parts@).take(0) =~= Seq::empty());
    while i < parts.len()
        invariant
            i <= parts@.len(),
            r@ == joined(texts(parts@).take(i as int), sep@),
        decreases parts.len() - i,
    {
        proof {
            let t = texts(parts@);
            assert(t.take(i + 1).drop_last() =~= t.take(i as int));
            assert(t.take(i + 1).last() == parts@[i as int]@);
            assert(r@ + sep@ + parts@[i as int]@ =~= r@ + sep@ + parts@[i as int]@);
        }
        if i > 0 {
            r.append(sep);
        }
        r.append(parts[i].as_str());
        proof {
            let t = texts(parts@);
            if i == 0 {
                assert(t.take(1)[0] == parts@[0]@);
                assert(r@ =~= parts@[0]@);
            }
        }
        i += 1;
    }
    assert(texts(parts@).take(parts@.len() as int) =~= texts(parts@));
    r
}

// ---------------------------------------------------------------------------
// Whitespace
// ---------------------------------------------------------------------------

/// The code points with the Unicode `White_Space` property.
pub open spec fn is_white(c: char) -> bool {
    let n = c as int;
    ||| 0x9 <= n <= 0xd
    ||| n == 0x20
    ||| n == 0x85
    ||| n == 0xa0
    ||| n == 0x1680
    ||| 0x2000 <= n <= 0x200a
    ||| n == 0x2028
    ||| n == 0x2029
    ||| n == 0x202f
    ||| n == 0x205f
    ||| n == 0x3000
}

/// Whether a character is Unicode whitespace.
pub fn is_whitespace(c: char) -> (r: bool)
    ensures
        r == is_white(c),
{
    let n: u32 = c as u32;
    (0x9 <= n && n <= 0xd) || n == 0x20 || n == 0x85 || n == 0xa0 || n == 0x1680 || (0x2000 <= n
        && n <= 0x200a) || n == 0x2028 || n == 0x2029 || n == 0x202f || n == 0x205f || n == 0x3000
}

/// `s` without its leading whitespace.
pub open spec fn trimmed_start(s: Seq<char>) -> Seq<char>
    decreases s.len(),
{
    if s.len() > 0 && is_white(s[0]) {
        trimmed_start(s.skip(1))
    } else {
        s
    }
}

/// `s` without its trailing whitespace.
pub open spec fn trimmed_end(s: Seq<char>) -> Seq<char>
    decreases s.len(),
{
    if s.len() > 0 && is_white(s.last()) {
        trimmed_end(s.drop_last())
    } else {
        s
    }
}

/// `s` without leading and trailing whitespace.
pub open spec fn trimmed(s: Seq<char>) -> Seq<char> {
    trimmed_end(trimmed_start(s))
}

proof fn start_is_not_white(s: Seq<char>)
    ensures
        trimmed_start(s).len() > 0 ==> !is_white(trimmed_start(s)[0]),
    decreases s.len(),
{
    if s.len() > 0 && is_white(s[0]) {
        start_is_not_white(s.skip(1));
    }
}

proof fn end_keeps_start(s: Seq<char>)
    ensures
        trimmed_end(s).len() > 0 ==> s.len() > 0 && trimmed_end(s)[0] == s[0],
    decreases s.len(),
{
    if s.len() > 0 && is_white(s.last()) {
        end_keeps_start(s.drop_last());
    }
}

/// What is left without whitespace does not begin with it.
pub proof fn trimmed_begins(s: Seq<char>)
    ensures
        trimmed(s).len() > 0 ==> !is_white(trimmed(s)[0]),
{
    start_is_not_white(s);
    end_keeps_start(trimmed_start(s));
}

/// Remove leading whitespace.
pub fn trim_start<'a>(s: &'a str) -> (r: &'a str)
    ensures
        r@ == trimmed_start(s@),
{
    let cs = chars_of(s);
    let mut i: usize = 0;
    assert(cs@.skip(0) =~= cs@);
    while i < cs.len() && is_whitespace(cs[i])
        invariant
            i <= cs@.len(),
            cs@ == s@,
            trimmed_start(s@) == trimmed_start(s@.skip(i as int)),
        decreases cs.len() - i,
    {
        assert(s@.skip(i as int).skip(1) =~= s@.skip(i + 1));
        i += 1;
    }
    assert(s@.subrange(i as int, s@.len() as int) =~= s@.skip(i as int));
    s.substring_char(i, cs.len())
}

/// Remove trailing whitespace.
pub fn trim_end<'a>(s: &'a str) -> (r: &'a str)
    ensures
        r@ == trimmed_end(s@),
{
    let cs = chars_of(s);
    let mut j: usize = cs.len();
    assert(cs@.take(cs@.len() as int) =~= cs@);
    while j > 0 && is_whitespace(cs[j - 1])
        invariant
            j <= cs@.len(),
            cs@ == s@,
            trimmed_end(s@) == trimmed_end(s@.take(j as int)),
        decreases j,
    {
        assert(s@.take(j as int).drop_last() =~= s@.take(j - 1));
        j -= 1;
    }
    assert(s@.subrange(0, j as int) =~= s@.take(j as int));
    s.substring_char(0, j)
}

/// Remove leading and trailing whitespace.
pub fn trim<'a>(s: &'a str) -> (r: &'a str)
    ensures
        r@ == trimmed(s@),
{
    trim_end(trim_start(s))
}

// ---------------------------------------------------------------------------
// ASCII case
// ---------------------------------------------------------------------------

/// The ASCII lowercase form of a character; others are unchanged.
pub open spec fn ascii_lower(c: char) -> char {
    if 'A' <= c <= 'Z' {
        (c as int + 32) as char
    } else {
        c
    }
}

/// The ASCII lowercase form of a text.
pub open spec fn ascii_lowered(s: Seq<char>) -> Seq<char> {
    s.map_values(|c: char| ascii_lower(c))
}

/// Lowercase one ASCII letter.
pub fn ascii_lower_char(c: char) -> (r: char)
    ensures
        r == ascii_lower(c),
{
    if 'A' <= c && c <= 'Z' {
        let n: u8 = c as u8;
        (n + 32) as char
    } else {
        c
    }
}

/// Lowercase the ASCII letters of a text.
pub fn to_ascii_lower(s: &str) -> (r: String)
    ensures
        r@ == ascii_lowered(s@),
{
    let cs = chars_of(s);
    let mut r = String::new();
    let mut i: usize = 0;
    assert(ascii_lowered(s@).take(0) =~= Seq::empty());
    while i < cs.len()
        invariant
            i <= cs@.len(),
            cs@ == s@,
            r@ == ascii_lowered(s@).take(i as int),
        decreases cs.len() - i,
    {
        r.push(ascii_lower_char(cs[i]));
        proof {
            assert(ascii_lowered(s@).take(i + 1) =~= ascii_lowered(s@).take(i as int).push(
                ascii_lowered(s@)[i as int],
            ));
        }
        i += 1;
    }
    assert(ascii_lowered(s@).take(s@.len() as int) =~= ascii_lowered(s@));
    r
}

/// Whether two texts are equal up to ASCII case.
pub fn same_ignoring_ascii_case(a: &str, b: &str) -> (r: bool)
    ensures
        r == (ascii_lowered(a@) == ascii_lowered(b@)),
{
    let x = to_ascii_lower(a);
    let y = to_ascii_lower(b);
    x == y
}

/// The lowercase form of a text, by the Unicode rules that
/// `str::to_lowercase` applies.
pub uninterp spec fn lowercased(s: Seq<char>) -> Seq<char>;

/// Whether a text holds ASCII characters only.
pub open spec fn all_ascii(s: Seq<char>) -> bool {
    forall|i: int| 0 <= i < s.len() ==> #[trigger] s[i] <= '\u{7f}'
}

/// `str::to_lowercase`: its result is named [`lowercased`]. Of an ASCII text it
/// is the text with the letters `A` to `Z` as `a` to `z`.
pub assume_specification[ str::to_lowercase ](s: &str) -> (r: String)
    ensures
        r@ == lowercased(s@),
        all_ascii(s@) ==> r@ == ascii_lowered(s@),
;

/// An ASCII letter as upper case; other characters stay.
pub open spec fn raised(c: char) -> char {
    if 'a' <= c <= 'z' {
        (c as int - 32) as char
    } else {
        c
    }
}

/// A text with its ASCII letters as upper case.
pub open spec fn ascii_raised(s: Seq<char>) -> Seq<char> {
    s.map_values(|c: char| raised(c))
}

/// Upper case is not seen in lower case.
pub proof fn raised_is_lowered(s: Seq<char>)
    ensures
        ascii_lowered(ascii_raised(s)) == ascii_lowered(s),
{
    assert(ascii_lowered(ascii_raised(s)) =~= ascii_lowered(s));
}

/// Lower case stays, and ASCII stays ASCII.
pub proof fn lowered_stays(s: Seq<char>)
    ensures
        ascii_lowered(ascii_lowered(s)) == ascii_lowered(s),
        all_ascii(s) ==> all_ascii(ascii_lowered(s)),
{
    assert(ascii_lowered(ascii_lowered(s)) =~= ascii_lowered(s));
}

/// Upper case is not whitespace.
pub proof fn raised_is_trimmed(s: Seq<char>)
    ensures
        trimmed(ascii_raised(s)) == ascii_raised(trimmed(s)),
{
    raised_trimmed_start(s);
    raised_trimmed_end(trimmed_start(s));
}

proof fn raised_trimmed_start(s: Seq<char>)
    ensures
        trimmed_start(ascii_raised(s)) == ascii_raised(trimmed_start(s)),
    decreases s.len(),
{
    if s.len() > 0 {
        assert(ascii_raised(s)[0] == raised(s[0]));
        assert(ascii_raised(s).skip(1) =~= ascii_raised(s.skip(1)));
        raised_trimmed_start(s.skip(1));
    }
}

proof fn raised_trimmed_end(s: Seq<char>)
    ensures
        trimmed_end(ascii_raised(s)) == ascii_raised(trimmed_end(s)),
    decreases s.len(),
{
    if s.len() > 0 {
        assert(ascii_raised(s).last() == raised(s.last()));
        assert(ascii_raised(s).drop_last() =~= ascii_raised(s.drop_last()));
        raised_trimmed_end(s.drop_last());
    }
}

// ---------------------------------------------------------------------------
// Search
// ---------------------------------------------------------------------------

/// Whether `p` occurs in `s` at position `i`.
pub open spec fn occurs_at(s: Seq<char>, p: Seq<char>, i: int) -> bool {
    0 <= i && i + p.len() <= s.len() && s.subrange(i, i + p.len()) == p
}

/// Whether `p` occurs somewhere in `s`.
pub open spec fn has(s: Seq<char>, p: Seq<char>) -> bool {
    exists|i: int| occurs_at(s, p, i)
}

/// Whether `s` begins with `p`.
pub open spec fn begins(s: Seq<char>, p: Seq<char>) -> bool {
    occurs_at(s, p, 0)
}

/// Whether `s` ends with `p`.
pub open spec fn ends(s: Seq<char>, p: Seq<char>) -> bool {
    occurs_at(s, p, s.len() - p.len())
}

/// Whether `p` occurs in `s` at position `i`.
pub fn matches_at(s: &Vec<char>, p: &Vec<char>, i: usize) -> (r: bool)
    ensures
        r == occurs_at(s@, p@, i as int),
{
    if i > s.len() || p.len() > s.len() - i {
        return false;
    }
    let mut k: usize = 0;
    while k < p.len()
        invariant
            k <= p@.len(),
            i + p.len() <= s.len(),
            forall|j: int| 0 <= j < k ==> s@[i + j] == p@[j],
        decreases p.len() - k,
    {
        if s[i + k] != p[k] {
            proof {
                assert(s@.subrange(i as int, i + p@.len())[k as int] == s@[i + k]);
            }
            return false;
        }
        k += 1;
    }
    assert(s@.subrange(i as int, i + p@.len()) =~= p@);
    true
}

/// Whether `s` contains `p`.
pub fn contains(s: &str, p: &str) -> (r: bool)
    ensures
        r == has(s@, p@),
{
    let cs = chars_of(s);
    let ps = chars_of(p);
    if ps.len() > cs.len() {
        return false;
    }
    let last: usize = cs.len() - ps.len();
    let mut i: usize = 0;
    loop
        invariant
            cs@ == s@,
            ps@ == p@,
            i <= last,
            last == cs@.len() - ps@.len(),
            forall|j: int| 0 <= j < i ==> !occurs_at(s@, p@, j),
        decreases last - i,
    {
        if matches_at(&cs, &ps, i) {
            return true;
        }
        if i == last {
            return false;
        }
        i += 1;
    }
}

/// Whether `s` begins with `p`.
pub fn starts_with(s: &str, p: &str) -> (r: bool)
    ensures
        r == begins(s@, p@),
{
    let cs = chars_of(s);
    let ps = chars_of(p);
    matches_at(&cs, &ps, 0)
}

/// Whether `s` ends with `p`.
pub fn ends_with(s: &str, p: &str) -> (r: bool)
    ensures
        r == ends(s@, p@),
{
    let cs = chars_of(s);
    let ps = chars_of(p);
    if ps.len() > cs.len() {
        return false;
    }
    matches_at(&cs, &ps, cs.len() - ps.len())
}

/// `s` behind its prefix `p`, when it has that prefix.
pub open spec fn after_prefix(s: Seq<char>, p: Seq<char>) -> Option<Seq<char>> {
    if begins(s, p) {
        Some(s.skip(p.len() as int))
    } else {
        None
    }
}

/// Remove a prefix.
pub fn strip_prefix<'a>(s: &'a str, p: &str) -> (r: Option<&'a str>)
    ensures
        opt_str(r) == after_prefix(s@, p@),
{
    if starts_with(s, p) {
        let n = s.unicode_len();
        let k = p.unicode_len();
        assert(s@.subrange(k as int, n as int) =~= s@.skip(k as int));
        Some(s.substring_char(k, n))
    } else {
        None
    }
}

/// How many characters stand before the first `c` in `s` (all of them when
/// `c` does not occur).
pub open spec fn before(s: Seq<char>, c: char) -> nat
    decreases s.len(),
{
    if s.len() == 0 || s[0] == c {
        0
    } else {
        1 + before(s.skip(1), c)
    }
}

/// `before` is the length of the longest prefix without `c`.
pub proof fn before_is_first(s: Seq<char>, c: char)
    ensures
        before(s, c) <= s.len(),
        before(s, c) < s.len() ==> s[before(s, c) as int] == c,
        forall|i: int| 0 <= i < before(s, c) ==> s[i] != c,
    decreases s.len(),
{
    if s.len() > 0 && s[0] != c {
        before_is_first(s.skip(1), c);
        assert forall|i: int| 0 <= i < before(s, c) implies s[i] != c by {
            if i > 0 {
                assert(s[i] == s.skip(1)[i - 1]);
            }
        }
    }
}

/// A position is `before(s, c)` when it is the first to hold `c`, or the end.
pub proof fn before_unique(s: Seq<char>, c: char, i: int)
    requires
        0 <= i <= s.len(),
        i < s.len() ==> s[i] == c,
        forall|j: int| 0 <= j < i ==> s[j] != c,
    ensures
        before(s, c) == i,
{
    before_is_first(s, c);
}

/// The position of the first `c` in `s[from..]`, or the end of `s`.
pub fn find_char(s: &Vec<char>, from: usize, c: char) -> (r: usize)
    requires
        from <= s@.len(),
    ensures
        from <= r <= s@.len(),
        r < s@.len() ==> s@[r as int] == c,
        forall|j: int| from <= j < r ==> s@[j] != c,
        r == from + before(s@.skip(from as int), c),
{
    let mut i: usize = from;
    while i < s.len() && s[i] != c
        invariant
            from <= i <= s@.len(),
            forall|j: int| from <= j < i ==> s@[j] != c,
        decreases s.len() - i,
    {
        i += 1;
    }
    proof {
        before_unique(s@.skip(from as int), c, i - from);
    }
    i
}

/// `s` cut at the first `c`: what stands before it and what stands behind it.
pub open spec fn cut(s: Seq<char>, c: char) -> Option<(Seq<char>, Seq<char>)> {
    let n = before(s, c) as int;
    if n < s.len() {
        Some((s.take(n), s.skip(n + 1)))
    } else {
        None
    }
}

/// Split a text at the first occurrence of a character.
pub fn split_once<'a>(s: &'a str, c: char) -> (r: Option<(&'a str, &'a str)>)
    ensures
        match r {
            Some((a, b)) => cut(s@, c) == Some((a@, b@)),
            None => cut(s@, c) is None,
        },
{
    let cs = chars_of(s);
    let n = find_char(&cs, 0, c);
    assert(cs@.skip(0) =~= cs@);
    if n < cs.len() {
        assert(s@.subrange(0, n as int) =~= s@.take(n as int));
        assert(s@.subrange(n + 1, s@.len() as int) =~= s@.skip(n + 1));
        Some((s.substring_char(0, n), s.substring_char(n + 1, cs.len())))
    } else {
        None
    }
}

/// The pieces of `s` between the occurrences of `c`.
pub open spec fn pieces(s: Seq<char>, c: char) -> Seq<Seq<char>>
    decreases s.len(),
{
    let n = before(s, c) as int;
    if 0 <= n < s.len() {
        seq![s.take(n)] + pieces(s.skip(n + 1), c)
    } else {
        seq![s]
    }
}

/// Split a text at every occurrence of a character.
pub fn split_char(s: &str, c: char) -> (r: Vec<String>)
    ensures
        texts(r@) == pieces(s@, c),
{
    let cs = chars_of(s);
    let mut r: Vec<String> = Vec::new();
    let mut i: usize = 0;
    assert(s@.skip(0) =~= s@);
    assert(Seq::<Seq<char>>::empty() + pieces(s@, c) =~= pieces(s@, c));
    assert(texts(r@) =~= Seq::<Seq<char>>::empty());
    loop
        invariant
            cs@ == s@,
            i <= cs@.len(),
            pieces(s@, c) == texts(r@) + pieces(s@.skip(i as int), c),
        decreases cs@.len() - i,
    {
        let n = find_char(&cs, i, c);
        let piece = string_of(&cs, i, n);
        let ghost old_r = texts(r@);
        r.push(piece);
        proof {
            let rest = s@.skip(i as int);
            assert(rest.take(n - i) =~= s@.subrange(i as int, n as int));
            assert(texts(r@) =~= old_r.push(piece@));
            if n < cs@.len() {
                assert(rest.skip(n - i + 1) =~= s@.skip(n + 1));
                assert(old_r + (seq![piece@] + pieces(s@.skip(n + 1), c)) =~= old_r.push(piece@)
                    + pieces(s@.skip(n + 1), c));
            } else {
                assert(rest.take(n - i) =~= rest);
                assert(old_r + seq![piece@] =~= old_r.push(piece@));
            }
        }
        if n == cs.len() {
            return r;
        }
        i = n + 1;
    }
}

/// A line without the carriage return that belongs to its line ending.
pub open spec fn without_cr(s: Seq<char>) -> Seq<char> {
    if s.len() > 0 && s.last() == '\r' {
        s.drop_last()
    } else {
        s
    }
}

/// The lines of `s`: a line ends at `\n` or `\r\n`, and a final line ending
/// opens no further line.
pub open spec fn lines_of(s: Seq<char>) -> Seq<Seq<char>>
    decreases s.len(),
{
    let n = before(s, '\n') as int;
    if s.len() == 0 {
        Seq::empty()
    } else if 0 <= n < s.len() {
        seq![without_cr(s.take(n))] + lines_of(s.skip(n + 1))
    } else {
        seq![s]
    }
}

/// Split a text into its lines.
pub fn lines(s: &str) -> (r: Vec<String>)
    ensures
        texts(r@) == lines_of(s@),
{
    let cs = chars_of(s);
    let mut r: Vec<String> = Vec::new();
    let mut i: usize = 0;
    assert(s@.skip(0) =~= s@);
    assert(texts(r@) =~= Seq::<Seq<char>>::empty());
    assert(Seq::<Seq<char>>::empty() + lines_of(s@) =~= lines_of(s@));
    while i < cs.len()
        invariant
            cs@ == s@,
            i <= cs@.len(),
            lines_of(s@) == texts(r@) + lines_of(s@.skip(i as int)),
        decreases cs@.len() - i,
    {
        let n = find_char(&cs, i, '\n');
        let ghost rest = s@.skip(i as int);
        let ghost old_r = texts(r@);
        if n < cs.len() {
            let mut e: usize = n;
            if e > i && cs[e - 1] == '\r' {
                e = e - 1;
            }
            let line = string_of(&cs, i, e);
            r.push(line);
            proof {
                assert(rest.take(n - i) =~= s@.subrange(i as int, n as int));
                assert(without_cr(rest.take(n - i)) =~= line@);
                assert(rest.skip(n - i + 1) =~= s@.skip(n + 1));
                assert(texts(r@) =~= old_r.push(line@));
                assert(old_r + (seq![line@] + lines_of(s@.skip(n + 1))) =~= old_r.push(line@)
                    + lines_of(s@.skip(n + 1)));
            }
            i = n + 1;
        } else {
            let line = string_of(&cs, i, n);
            r.push(line);
            proof {
                assert(rest =~= line@);
                assert(texts(r@) =~= old_r.push(line@));
                assert(s@.skip(n as int) =~= Seq::<char>::empty());
                assert(old_r + seq![line@] =~= old_r.push(line@) + Seq::<Seq<char>>::empty());
            }
            i = n;
        }
    }
    assert(s@.skip(i as int) =~= Seq::<char>::empty());
    assert(texts(r@) + Seq::<Seq<char>>::empty() =~= texts(r@));
    r
}

/// The first `n` characters of a text, or all of it when it is shorter.
pub open spec fn head(s: Seq<char>, n: nat) -> Seq<char> {
    if s.len() > n {
        s.take(n as int)
    } else {
        s
    }
}

/// Keep at most `n` leading characters.
pub fn take_chars<'a>(s: &'a str, n: usize) -> (r: &'a str)
    ensures
        r@ == head(s@, n as nat),
{
    let len = s.unicode_len();
    if len > n {
        assert(s@.subrange(0, n as int) =~= s@.take(n as int));
        s.substring_char(0, n)
    } else {
        s
    }
}

/// The position of the last `c`.
pub open spec fn last_of(s: Seq<char>, c: char) -> Option<int>
    decreases s.len(),
{
    if s.len() == 0 {
        None
    } else if s.last() == c {
        Some(s.len() - 1)
    } else {
        last_of(s.drop_last(), c)
    }
}

/// A position is the last `c` when none follows.
pub proof fn last_of_at(s: Seq<char>, c: char, i: int)
    requires
        0 <= i < s.len(),
        s[i] == c,
        forall|j: int| i < j < s.len() ==> s[j] != c,
    ensures
        last_of(s, c) == Some(i),
    decreases s.len(),
{
    if i < s.len() - 1 {
        last_of_at(s.drop_last(), c, i);
    }
}

/// The last `c` is one, and none follows.
pub proof fn last_of_is_last(s: Seq<char>, c: char)
    ensures
        match last_of(s, c) {
            Some(i) => 0 <= i < s.len() && s[i] == c && forall|j: int| i < j < s.len() ==> s[j]
                != c,
            None => forall|j: int| 0 <= j < s.len() ==> s[j] != c,
        },
    decreases s.len(),
{
    if s.len() > 0 && s.last() != c {
        last_of_is_last(s.drop_last(), c);
        assert forall|j: int| 0 <= j < s.len() - 1 implies s[j] == s.drop_last()[j] by {}
    }
}

/// The position of the last `c`.
pub fn find_last(s: &Vec<char>, c: char) -> (r: Option<usize>)
    ensures
        match r {
            Some(i) => i < s@.len() && last_of(s@, c) == Some(i as int),
            None => last_of(s@, c) is None,
        },
{
    let mut i: usize = s.len();
    assert(s@.take(i as int) =~= s@);
    while i > 0
        invariant
            i <= s@.len(),
            last_of(s@, c) == last_of(s@.take(i as int), c),
        decreases i,
    {
        i -= 1;
        assert(s@.take(i + 1).drop_last() =~= s@.take(i as int));
        assert(s@.take(i + 1).last() == s@[i as int]);
        if s[i] == c {
            return Some(i);
        }
    }
    None
}

/// Whether a list has a text.
pub fn lists(v: &Vec<String>, s: &str) -> (r: bool)
    ensures
        r == texts(v@).contains(s@),
{
    let mut i: usize = 0;
    while i < v.len()
        invariant
            i <= v@.len(),
            forall|k: int| 0 <= k < i ==> (#[trigger] v@[k])@ != s@,
        decreases v.len() - i,
    {
        if same(v[i].as_str(), s) {
            assert(texts(v@)[i as int] == s@);
            return true;
        }
        i += 1;
    }
    false
}

// ---------------------------------------------------------------------------
// Quotation
// ---------------------------------------------------------------------------

/// A text in quotation marks and with escapes, as the `Debug` of `str` writes
/// it.
pub uninterp spec fn quoted(s: Seq<char>) -> Seq<char>;

/// The `Debug` of `str`, through `format!`: the text is named [`quoted`].
#[verifier::external_body]
pub(crate) fn quote(s: &str) -> (r: String)
    ensures
        r@ == quoted(s@),
{
    format!("{:?}", s)
}

// ---------------------------------------------------------------------------
// Decimal numbers
// ---------------------------------------------------------------------------

/// The decimal digit of a value below ten.
pub open spec fn digit(d: nat) -> char {
    ('0' as int + d) as char
}

/// The decimal numeral of `n`, without leading zeros.
pub open spec fn decimal(n: nat) -> Seq<char>
    decreases n,
{
    if n < 10 {
        seq![digit(n)]
    } else {
        decimal(n / 10).push(digit(n % 10))
    }
}

/// The digit character of a value below ten.
pub fn digit_char(d: u64) -> (c: char)
    requires
        d < 10,
    ensures
        c == digit(d as nat),
{
    ('0' as u8 + d as u8) as char
}

/// The decimal numeral of a number.
pub fn wide_decimal_text(n: u128) -> (r: String)
    ensures
        r@ == decimal(n as nat),
    decreases n,
{
    if n < 10 {
        let mut r = String::new();
        r.push(digit_char(n as u64));
        assert(r@ =~= seq![digit(n as nat)]);
        r
    } else {
        let mut r = wide_decimal_text(n / 10);
        r.push(digit_char((n % 10) as u64));
        r
    }
}

/// The decimal numeral of a number.
pub fn decimal_text(n: u64) -> (r: String)
    ensures
        r@ == decimal(n as nat),
{
    wide_decimal_text(n as u128)
}

/// The decimal numeral of an integer, with a minus sign when it is negative.
pub open spec fn integer(n: int) -> Seq<char> {
    if n < 0 {
        "-"@ + decimal((-n) as nat)
    } else {
        decimal(n as nat)
    }
}

/// The decimal numeral of a signed number.
pub fn integer_text(n: i64) -> (r: String)
    ensures
        r@ == integer(n as int),
{
    if n < 0 {
        let m: u64 = (-(n + 1)) as u64 + 1;
        let d = decimal_text(m);
        cat2("-", d.as_str())
    } else {
        decimal_text(n as u64)
    }
}

/// Whether a character is an ASCII decimal digit.
pub open spec fn is_digit(c: char) -> bool {
    '0' <= c <= '9'
}

/// Whether every character is an ASCII decimal digit.
pub open spec fn all_digits(s: Seq<char>) -> bool {
    forall|i: int| 0 <= i < s.len() ==> is_digit(#[trigger] s[i])
}

/// The value that a run of decimal digits denotes.
pub open spec fn digits_value(s: Seq<char>) -> nat
    decreases s.len(),
{
    if s.len() == 0 {
        0
    } else {
        (digits_value(s.drop_last()) * 10 + (s.last() as int - '0' as int)) as nat
    }
}

/// Longer runs of digits denote larger or equal values.
pub proof fn digits_value_grows(s: Seq<char>, i: int)
    requires
        all_digits(s),
        0 <= i <= s.len(),
    ensures
        digits_value(s.take(i)) <= digits_value(s),
    decreases s.len() - i,
{
    if i == s.len() {
        assert(s.take(i) =~= s);
    } else {
        digits_value_grows(s, i + 1);
        assert(s.take(i + 1).drop_last() =~= s.take(i));
        assert(is_digit(s[i]));
    }
}

/// So many digits denote at most so large a value.
pub proof fn digits_value_bound(s: Seq<char>)
    requires
        all_digits(s),
        s.len() <= 3,
    ensures
        s.len() == 1 ==> digits_value(s) <= 9,
        s.len() == 2 ==> digits_value(s) <= 99,
        digits_value(s) <= 999,
{
    reveal_with_fuel(digits_value, 4);
    assert(forall|i: int| 0 <= i < s.len() ==> is_digit(#[trigger] s[i]));
    if s.len() > 0 {
        assert(is_digit(s[s.len() - 1]));
    }
    if s.len() > 1 {
        assert(is_digit(s[s.len() - 2]));
    }
    if s.len() > 2 {
        assert(is_digit(s[s.len() - 3]));
    }
}

/// The number written in `s` with decimal digits only, when it is one and is
/// at most `max`.
pub open spec fn number_in(s: Seq<char>, max: nat) -> Option<nat> {
    if s.len() > 0 && all_digits(s) && digits_value(s) <= max {
        Some(digits_value(s))
    } else {
        None
    }
}

/// Read a number written with decimal digits only.
pub fn read_number(s: &str, max: u64) -> (r: Option<u64>)
    ensures
        match r {
            Some(n) => number_in(s@, max as nat) == Some(n as nat),
            None => number_in(s@, max as nat) is None,
        },
{
    let cs = chars_of(s);
    if cs.len() == 0 {
        return None;
    }
    let mut n: u64 = 0;
    let mut i: usize = 0;
    assert(cs@.take(0) =~= Seq::empty());
    while i < cs.len()
        invariant
            cs@ == s@,
            i <= cs@.len(),
            n == digits_value(s@.take(i as int)),
            n <= max,
            all_digits(s@.take(i as int)),
        decreases cs.len() - i,
    {
        let c = cs[i];
        if c < '0' || '9' < c {
            proof {
                assert(!is_digit(s@[i as int]));
            }
            return None;
        }
        let d: u64 = (c as u8 - '0' as u8) as u64;
        proof {
            assert(s@.take(i + 1).drop_last() =~= s@.take(i as int));
            assert(s@.take(i + 1).last() == c);
            if all_digits(s@) {
                digits_value_grows(s@, i + 1);
            }
        }
        if n > (max - d.min(max)) / 10 || d > max {
            proof {
                assert(n * 10 + d > max);
            }
            return None;
        }
        n = n * 10 + d;
        proof {
            assert(all_digits(s@.take(i + 1))) by {
                assert forall|j: int| 0 <= j < i + 1 implies is_digit(#[trigger] s@.take(i + 1)[j]) by {
                    if j < i {
                        assert(s@.take(i + 1)[j] == s@.take(i as int)[j]);
                    }
                }
            }
        }
        i += 1;
    }
    assert(s@.take(i as int) =~= s@);
    Some(n)
}

/// The numeral of a number reads back as that number.
pub proof fn decimal_reads_back(n: nat)
    ensures
        decimal(n).len() > 0,
        all_digits(decimal(n)),
        digits_value(decimal(n)) == n,
    decreases n,
{
    if n < 10 {
        assert(decimal(n).drop_last() =~= Seq::empty());
        assert(digits_value(Seq::empty()) == 0);
        assert(decimal(n).last() == digit(n));
        assert(is_digit(digit(n)));
    } else {
        decimal_reads_back(n / 10);
        assert(decimal(n).drop_last() =~= decimal(n / 10));
        assert forall|i: int| 0 <= i < decimal(n).len() implies is_digit(
            #[trigger] decimal(n)[i],
        ) by {
            if i < decimal(n / 10).len() {
                assert(decimal(n)[i] == decimal(n / 10)[i]);
            } else {
                assert(is_digit(digit(n % 10)));
            }
        }
    }
}

// ---------------------------------------------------------------------------
// Order
// ---------------------------------------------------------------------------

/// Whether a text comes before another in the order of their characters.
pub open spec fn precedes(a: Seq<char>, b: Seq<char>) -> bool
    decreases b.len(),
{
    if b.len() == 0 {
        false
    } else if a.len() == 0 {
        true
    } else if a[0] != b[0] {
        a[0] < b[0]
    } else {
        precedes(a.skip(1), b.skip(1))
    }
}

/// Whether a text comes before another in the order of their characters.
pub fn comes_before(a: &str, b: &str) -> (r: bool)
    ensures
        r == precedes(a@, b@),
{
    let x = chars_of(a);
    let y = chars_of(b);
    let mut i: usize = 0;
    assert(a@.skip(0) =~= a@);
    assert(b@.skip(0) =~= b@);
    while i < x.len() && i < y.len()
        invariant
            x@ == a@,
            y@ == b@,
            i <= x@.len(),
            i <= y@.len(),
            precedes(a@, b@) == precedes(a@.skip(i as int), b@.skip(i as int)),
        decreases x.len() - i,
    {
        assert(a@.skip(i as int)[0] == a@[i as int]);
        assert(b@.skip(i as int)[0] == b@[i as int]);
        if x[i] != y[i] {
            return x[i] < y[i];
        }
        assert(a@.skip(i as int).skip(1) =~= a@.skip(i + 1));
        assert(b@.skip(i as int).skip(1) =~= b@.skip(i + 1));
        i += 1;
    }
    i < y.len()
}

/// The order of texts is total.
pub proof fn precedes_total(a: Seq<char>, b: Seq<char>)
    ensures
        precedes(a, b) || precedes(b, a) || a == b,
        !(precedes(a, b) && precedes(b, a)),
        a == b ==> !precedes(a, b),
    decreases a.len(),
{
    if a.len() > 0 && b.len() > 0 && a[0] == b[0] {
        precedes_total(a.skip(1), b.skip(1));
        if a.skip(1) == b.skip(1) {
            assert(a =~= seq![a[0]] + a.skip(1));
            assert(b =~= seq![b[0]] + b.skip(1));
        }
    } else if a.len() == 0 && b.len() == 0 {
        assert(a =~= b);
    }
}

/// The order of texts is transitive.
pub proof fn precedes_transitive(a: Seq<char>, b: Seq<char>, c: Seq<char>)
    requires
        precedes(a, b),
        precedes(b, c),
    ensures
        precedes(a, c),
    decreases a.len(),
{
    if a.len() > 0 && b.len() > 0 && c.len() > 0 && a[0] == b[0] && b[0] == c[0] {
        precedes_transitive(a.skip(1), b.skip(1), c.skip(1));
    }
}

/// The first character in which two texts differ decides their order.
pub proof fn precedes_at(a: Seq<char>, b: Seq<char>, k: int)
    requires
        0 <= k < a.len(),
        k < b.len(),
        forall|i: int| 0 <= i < k ==> a[i] == b[i],
        a[k] < b[k],
    ensures
        precedes(a, b),
    decreases k,
{
    if k > 0 {
        assert(a[0] == b[0]);
        assert(a.skip(1)[k - 1] == a[k] && b.skip(1)[k - 1] == b[k]);
        assert forall|i: int| 0 <= i < k - 1 implies a.skip(1)[i] == b.skip(1)[i] by {
            assert(a[i + 1] == b[i + 1]);
        }
        precedes_at(a.skip(1), b.skip(1), k - 1);
    }
}

/// What is written behind texts of one length does not change their order.
pub proof fn precedes_goes_on(a: Seq<char>, b: Seq<char>, s: Seq<char>, t: Seq<char>)
    requires
        a.len() == b.len(),
        precedes(a, b),
    ensures
        precedes(a + s, b + t),
    decreases a.len(),
{
    assert((a + s)[0] == a[0] && (b + t)[0] == b[0]);
    if a[0] == b[0] {
        precedes_goes_on(a.skip(1), b.skip(1), s, t);
        assert((a + s).skip(1) =~= a.skip(1) + s);
        assert((b + t).skip(1) =~= b.skip(1) + t);
    }
}

/// What is written in front of texts does not change their order.
pub proof fn precedes_behind(p: Seq<char>, s: Seq<char>, t: Seq<char>)
    requires
        precedes(s, t),
    ensures
        precedes(p + s, p + t),
    decreases p.len(),
{
    if p.len() == 0 {
        assert(p + s =~= s);
        assert(p + t =~= t);
    } else {
        precedes_behind(p.skip(1), s, t);
        assert((p + s)[0] == p[0] && (p + t)[0] == p[0]);
        assert((p + s).skip(1) =~= p.skip(1) + s);
        assert((p + t).skip(1) =~= p.skip(1) + t);
    }
}

/// A list with one more text, in front of those that come after it.
pub open spec fn filed(v: Seq<Seq<char>>, s: Seq<char>) -> Seq<Seq<char>>
    decreases v.len(),
{
    if v.len() > 0 && precedes(s, v.last()) {
        filed(v.drop_last(), s).push(v.last())
    } else {
        v.push(s)
    }
}

/// The texts of a list, in order.
pub open spec fn ordered(v: Seq<Seq<char>>) -> Seq<Seq<char>>
    decreases v.len(),
{
    if v.len() == 0 {
        Seq::empty()
    } else {
        filed(ordered(v.drop_last()), v.last())
    }
}

/// Whether no text of a list comes before an earlier one.
pub open spec fn in_order(v: Seq<Seq<char>>) -> bool {
    forall|i: int, j: int|
        0 <= i < j < v.len() ==> !precedes(#[trigger] v[j], #[trigger] v[i])
}

proof fn filed_at(v: Seq<Seq<char>>, s: Seq<char>, k: int)
    requires
        0 <= k <= v.len(),
        forall|j: int| k <= j < v.len() ==> precedes(s, #[trigger] v[j]),
        k > 0 ==> !precedes(s, v[k - 1]),
    ensures
        filed(v, s) == v.insert(k, s),
    decreases v.len(),
{
    if k == v.len() {
        assert(v.push(s) =~= v.insert(k, s));
    } else {
        let before = v.drop_last();
        assert forall|j: int| k <= j < before.len() implies precedes(s, #[trigger] before[j]) by {
            assert(before[j] == v[j]);
        }
        filed_at(before, s, k);
        assert(precedes(s, v[v.len() - 1]));
        assert(before.insert(k, s).push(v.last()) =~= v.insert(k, s));
    }
}

/// The texts of a list, in order.
pub fn sort(v: Vec<String>) -> (r: Vec<String>)
    ensures
        texts(r@) == ordered(texts(v@)),
{
    let ghost model = texts(v@);
    let mut r: Vec<String> = Vec::new();
    let mut i: usize = 0;
    assert(model.take(0) =~= Seq::empty());
    assert(texts(r@) =~= Seq::empty());
    while i < v.len()
        invariant
            i <= v@.len(),
            model == texts(v@),
            texts(r@) == ordered(model.take(i as int)),
        decreases v.len() - i,
    {
        proof {
            assert(model.take(i + 1).drop_last() =~= model.take(i as int));
            assert(model.take(i + 1).last() == v@[i as int]@);
        }
        let s = v[i].clone();
        let ghost before = texts(r@);
        let mut k: usize = r.len();
        while k > 0 && comes_before(s.as_str(), r[k - 1].as_str())
            invariant
                k <= r@.len(),
                before == texts(r@),
                forall|j: int| k <= j < r@.len() ==> precedes(s@, (#[trigger] r@[j])@),
            decreases k,
        {
            k -= 1;
        }
        proof {
            assert forall|j: int| k <= j < before.len() implies precedes(
                s@,
                #[trigger] before[j],
            ) by {
                assert(before[j] == r@[j]@);
            }
            filed_at(before, s@, k as int);
        }
        r.insert(k, s);
        assert(texts(r@) =~= before.insert(k as int, s@));
        i += 1;
    }
    assert(model.take(i as int) =~= model);
    r
}

proof fn filed_in_order(v: Seq<Seq<char>>, s: Seq<char>)
    requires
        in_order(v),
    ensures
        in_order(filed(v, s)),
        filed(v, s).to_multiset() == v.to_multiset().insert(s),
        filed(v, s).len() == v.len() + 1,
    decreases v.len(),
{
    broadcast use vstd::seq_lib::group_to_multiset_ensures;

    let r = filed(v, s);
    if v.len() > 0 && precedes(s, v.last()) {
        let before = v.drop_last();
        assert(in_order(before)) by {
            assert forall|a: int, b: int| 0 <= a < b < before.len() implies !precedes(
                #[trigger] before[b],
                #[trigger] before[a],
            ) by {
                assert(before[a] == v[a] && before[b] == v[b]);
            }
        }
        filed_in_order(before, s);
        let front = filed(before, s);
        assert(before.push(v.last()) =~= v);
        assert(r.to_multiset() =~= v.to_multiset().insert(s));
        assert forall|a: int, b: int| 0 <= a < b < r.len() implies !precedes(
            #[trigger] r[b],
            #[trigger] r[a],
        ) by {
            if b < front.len() {
                assert(r[a] == front[a] && r[b] == front[b]);
            } else {
                assert(front.to_multiset().contains(front[a]));
                if front[a] == s {
                    precedes_total(v.last(), s);
                } else {
                    assert(before.to_multiset().count(front[a]) > 0);
                    assert(before.contains(front[a]));
                    let c = choose|c: int| 0 <= c < before.len() && before[c] == front[a];
                    assert(v[c] == front[a]);
                    assert(v[v.len() - 1] == v.last());
                }
            }
        }
    } else {
        assert forall|a: int, b: int| 0 <= a < b < r.len() implies !precedes(
            #[trigger] r[b],
            #[trigger] r[a],
        ) by {
            if b < v.len() {
                assert(r[a] == v[a] && r[b] == v[b]);
            } else if a < v.len() - 1 {
                assert(!precedes(v[v.len() - 1], v[a]));
                if precedes(s, v[a]) {
                    precedes_total(v.last(), s);
                    precedes_total(v[a], v.last());
                    if precedes(v.last(), s) {
                        precedes_transitive(v.last(), s, v[a]);
                    }
                }
            }
        }
    }
}

/// An ordered list is in order, and has the same texts.
pub proof fn ordered_is_in_order(v: Seq<Seq<char>>)
    ensures
        in_order(ordered(v)),
        ordered(v).to_multiset() == v.to_multiset(),
        ordered(v).len() == v.len(),
    decreases v.len(),
{
    broadcast use vstd::seq_lib::group_to_multiset_ensures;

    if v.len() > 0 {
        ordered_is_in_order(v.drop_last());
        filed_in_order(ordered(v.drop_last()), v.last());
        assert(v.drop_last().push(v.last()) =~= v);
    } else {
        assert(v =~= Seq::empty());
    }
}

// ---------------------------------------------------------------------------
// Searching and replacing
// ---------------------------------------------------------------------------

/// Where `p` first occurs in `s`.
pub open spec fn found(s: Seq<char>, p: Seq<char>) -> Option<int>
    decreases s.len(),
{
    if begins(s, p) {
        Some(0)
    } else if s.len() == 0 {
        None
    } else {
        match found(s.skip(1), p) {
            Some(i) => Some(i + 1),
            None => None,
        }
    }
}

/// Where `p` first occurs in `s`, from a position on.
pub fn find_text(s: &Vec<char>, from: usize, p: &str) -> (r: Option<usize>)
    requires
        from <= s@.len(),
    ensures
        match r {
            Some(i) => from <= i && i + p@.len() <= s@.len() && found(s@.skip(from as int), p@)
                == Some(i - from),
            None => found(s@.skip(from as int), p@) is None,
        },
{
    let pc = chars_of(p);
    let n: usize = s.len();
    let mut i: usize = from;
    loop
        invariant
            from <= i <= n == s@.len(),
            pc@ == p@,
            found(s@.skip(from as int), p@) == match found(s@.skip(i as int), p@) {
                Some(k) => Some(k + (i - from)),
                None => None,
            },
        decreases n - i,
    {
        if matches_at(s, &pc, i) {
            assert(s@.skip(i as int).take(p@.len() as int) =~= s@.subrange(
                i as int,
                i + p@.len(),
            ));
            return Some(i);
        }
        assert(!begins(s@.skip(i as int), p@)) by {
            if begins(s@.skip(i as int), p@) {
                assert(s@.skip(i as int).subrange(0, p@.len() as int) =~= s@.subrange(
                    i as int,
                    i + p@.len(),
                ));
            }
        }
        if i == n {
            return None;
        }
        assert(s@.skip(i as int).skip(1) =~= s@.skip(i + 1));
        i += 1;
    }
}

/// `s` with every `p` replaced by `by`, from left to right.
pub open spec fn replaced(s: Seq<char>, p: Seq<char>, by: Seq<char>) -> Seq<char>
    decreases s.len(),
{
    if s.len() == 0 || p.len() == 0 {
        s
    } else if begins(s, p) {
        by + replaced(s.skip(p.len() as int), p, by)
    } else {
        seq![s[0]] + replaced(s.skip(1), p, by)
    }
}

/// Replace every `p` in `s` by `by`, from left to right.
pub fn replace(s: &str, p: &str, by: &str) -> (r: String)
    requires
        p@.len() > 0,
    ensures
        r@ == replaced(s@, p@, by@),
{
    let cs = chars_of(s);
    let pc = chars_of(p);
    let mut r = String::new();
    let mut i: usize = 0;
    assert(s@.skip(0) =~= s@);
    assert(r@ + replaced(s@, p@, by@) =~= replaced(s@, p@, by@));
    while i < cs.len()
        invariant
            i <= cs@.len(),
            cs@ == s@,
            pc@ == p@,
            p@.len() > 0,
            replaced(s@, p@, by@) == r@ + replaced(s@.skip(i as int), p@, by@),
        decreases cs@.len() - i,
    {
        let ghost rest = s@.skip(i as int);
        let ghost done = r@;
        if matches_at(&cs, &pc, i) {
            assert(rest.subrange(0, p@.len() as int) =~= s@.subrange(i as int, i + p@.len()));
            assert(rest.skip(p@.len() as int) =~= s@.skip(i + p@.len()));
            r.append(by);
            assert(done + (by@ + replaced(s@.skip(i + p@.len()), p@, by@)) =~= r@ + replaced(
                s@.skip(i + p@.len()),
                p@,
                by@,
            ));
            i += pc.len();
        } else {
            assert(!begins(rest, p@)) by {
                if begins(rest, p@) {
                    assert(rest.subrange(0, p@.len() as int) =~= s@.subrange(
                        i as int,
                        i + p@.len(),
                    ));
                }
            }
            assert(rest.skip(1) =~= s@.skip(i + 1));
            assert(rest[0] == s@[i as int]);
            r.push(cs[i]);
            assert(done + (seq![rest[0]] + replaced(s@.skip(i + 1), p@, by@)) =~= r@ + replaced(
                s@.skip(i + 1),
                p@,
                by@,
            ));
            i += 1;
        }
    }
    assert(s@.skip(i as int) =~= Seq::empty());
    assert(r@ + Seq::<char>::empty() =~= r@);
    r
}

/// The number that a text is, with a plus sign or without.
pub open spec fn unsigned_in(s: Seq<char>) -> Option<nat> {
    number_in(
        if s.len() > 0 && s[0] == '+' {
            s.skip(1)
        } else {
            s
        },
        u64::MAX as nat,
    )
}

/// Read a number, with a plus sign or without.
pub fn read_unsigned(s: &str) -> (r: Option<u64>)
    ensures
        match r {
            Some(n) => unsigned_in(s@) == Some(n as nat),
            None => unsigned_in(s@) is None,
        },
{
    let n: usize = s.unicode_len();
    if n > 0 && s.get_char(0) == '+' {
        assert(s@.subrange(1, n as int) =~= s@.skip(1));
        read_number(s.substring_char(1, n), u64::MAX)
    } else {
        read_number(s, u64::MAX)
    }
}

// ---------------------------------------------------------------------------
// Laws
// ---------------------------------------------------------------------------

proof fn start_is_cut(s: Seq<char>)
    ensures
        trimmed_start(s).len() <= s.len(),
        trimmed_start(s) == s.skip(s.len() - trimmed_start(s).len()),
        forall|j: int| 0 <= j < s.len() - trimmed_start(s).len() ==> is_white(#[trigger] s[j]),
        trimmed_start(s).len() > 0 ==> !is_white(trimmed_start(s)[0]),
    decreases s.len(),
{
    if s.len() > 0 && is_white(s[0]) {
        let rest = s.skip(1);
        start_is_cut(rest);
        let n = trimmed_start(s).len();
        assert(rest.skip(rest.len() - n) =~= s.skip(s.len() - n));
        assert forall|j: int| 0 <= j < s.len() - n implies is_white(#[trigger] s[j]) by {
            if j > 0 {
                assert(rest[j - 1] == s[j]);
            }
        }
    } else {
        assert(s.skip(0) =~= s);
    }
}

proof fn end_is_cut(s: Seq<char>)
    ensures
        trimmed_end(s).len() <= s.len(),
        trimmed_end(s) == s.take(trimmed_end(s).len() as int),
        forall|j: int| trimmed_end(s).len() <= j < s.len() ==> is_white(#[trigger] s[j]),
        trimmed_end(s).len() > 0 ==> !is_white(trimmed_end(s).last()),
    decreases s.len(),
{
    if s.len() > 0 && is_white(s.last()) {
        let rest = s.drop_last();
        end_is_cut(rest);
        let n = trimmed_end(s).len() as int;
        assert(rest.take(n) =~= s.take(n));
        assert forall|j: int| n <= j < s.len() implies is_white(#[trigger] s[j]) by {
            if j < s.len() - 1 {
                assert(rest[j] == s[j]);
            }
        }
    } else {
        assert(s.take(s.len() as int) =~= s);
    }
}

/// Trimming cuts the blanks at both ends and nothing else: what is left is a
/// stretch of the text with only blanks before and behind it, and it neither
/// begins nor ends with a blank.
pub proof fn trimming_cuts_only_blanks(s: Seq<char>)
    ensures
        exists|i: int|
            {
                &&& #[trigger] occurs_at(s, trimmed(s), i)
                &&& forall|j: int| 0 <= j < i ==> is_white(#[trigger] s[j])
                &&& forall|j: int|
                    i + trimmed(s).len() <= j < s.len() ==> is_white(#[trigger] s[j])
            },
        trimmed(s).len() > 0 ==> !is_white(trimmed(s)[0]) && !is_white(trimmed(s).last()),
{
    let a = trimmed_start(s);
    start_is_cut(s);
    end_is_cut(a);
    trimmed_begins(s);
    let i = s.len() - a.len();
    let n = trimmed(s).len() as int;
    assert(s.subrange(i, i + n) =~= trimmed(s));
    assert(occurs_at(s, trimmed(s), i));
    assert forall|j: int| i + n <= j < s.len() implies is_white(#[trigger] s[j]) by {
        assert(a[j - i] == s[j]);
    }
}

/// A text that neither begins nor ends with a blank stays as it is.
pub proof fn trimmed_stays(s: Seq<char>)
    ensures
        s.len() > 0 && !is_white(s[0]) && !is_white(s.last()) ==> trimmed(s) == s,
        trimmed(trimmed(s)) == trimmed(s),
{
    trimming_cuts_only_blanks(s);
}

/// A line that ends is the first of its text; the rest has its own lines. A
/// carriage return at its end does not count.
pub proof fn a_line_ends(line: Seq<char>, rest: Seq<char>)
    requires
        forall|j: int| 0 <= j < line.len() ==> #[trigger] line[j] != '\n',
    ensures
        lines_of(line + seq!['\n'] + rest) == seq![without_cr(line)] + lines_of(rest),
        line.len() > 0 ==> lines_of(line) == seq![line],
{
    let s = line + seq!['\n'] + rest;
    before_unique(s, '\n', line.len() as int);
    assert(s.take(line.len() as int) =~= line);
    assert(s.skip(line.len() as int + 1) =~= rest);
    before_unique(line, '\n', line.len() as int);
}

/// The lines of a text that ends with a line end, and of what follows it, are
/// the lines of the two together.
pub proof fn lines_add_up(front: Seq<char>, rest: Seq<char>)
    requires
        front.len() == 0 || front.last() == '\n',
    ensures
        lines_of(front + rest) == lines_of(front) + lines_of(rest),
    decreases front.len(),
{
    if front.len() == 0 {
        assert(front + rest =~= rest);
        assert(lines_of(front) + lines_of(rest) =~= lines_of(rest));
    } else {
        let n = before(front, '\n') as int;
        before_is_first(front, '\n');
        if n == front.len() {
            assert(front[front.len() - 1] == '\n');
        }
        let line = front.take(n);
        let tail = front.skip(n + 1);
        assert(front =~= line + seq!['\n'] + tail);
        a_line_ends(line, tail);
        assert(front + rest =~= line + seq!['\n'] + (tail + rest));
        a_line_ends(line, tail + rest);
        if tail.len() > 0 {
            assert(tail.last() == front.last());
        }
        lines_add_up(tail, rest);
        assert(lines_of(front + rest) =~= lines_of(front) + lines_of(rest));
    }
}

/// The pieces of a text, joined by what parted them, are the text; none of
/// them holds what parts them.
pub proof fn pieces_rebuild_the_text(s: Seq<char>, c: char)
    ensures
        pieces(s, c).len() > 0,
        joined(pieces(s, c), seq![c]) == s,
        forall|i: int, j: int|
            0 <= i < pieces(s, c).len() && 0 <= j < pieces(s, c)[i].len() ==> #[trigger] pieces(
                s,
                c,
            )[i][j] != c,
    decreases s.len(),
{
    let n = before(s, c) as int;
    before_is_first(s, c);
    if n < s.len() {
        let rest = s.skip(n + 1);
        pieces_rebuild_the_text(rest, c);
        let all = pieces(s, c);
        assert(all =~= seq![s.take(n)] + pieces(rest, c));
        joined_front(s.take(n), pieces(rest, c), seq![c]);
        assert(s =~= s.take(n) + seq![c] + rest);
        assert forall|i: int, j: int| 0 <= i < all.len() && 0 <= j < all[i].len() implies
            #[trigger] all[i][j] != c by {
            if i > 0 {
                assert(all[i] == pieces(rest, c)[i - 1]);
            }
        }
    } else {
        let all = pieces(s, c);
        assert(all =~= seq![s]);
    }
}

/// Joining puts the separator between neighbours, and nowhere else.
pub proof fn joined_front(first: Seq<char>, parts: Seq<Seq<char>>, sep: Seq<char>)
    ensures
        joined(Seq::empty(), sep) == Seq::<char>::empty(),
        joined(seq![first], sep) == first,
        parts.len() > 0 ==> joined(seq![first] + parts, sep) == first + sep + joined(parts, sep),
    decreases parts.len(),
{
    let all = seq![first] + parts;
    assert(seq![first][0] == first);
    if parts.len() == 1 {
        assert(all.drop_last() =~= seq![first]);
        assert(joined(all.drop_last(), sep) == first);
        assert(all.last() == parts[0]);
    } else if parts.len() > 1 {
        joined_front(first, parts.drop_last(), sep);
        assert(all.drop_last() =~= seq![first] + parts.drop_last());
        assert(all.last() == parts.last());
        assert(joined(all, sep) =~= first + sep + joined(parts, sep));
    }
}

/// What is found is the first place where it occurs.
pub proof fn found_is_first(s: Seq<char>, p: Seq<char>, i: int)
    requires
        occurs_at(s, p, i),
        forall|j: int| 0 <= j < i ==> !#[trigger] occurs_at(s, p, j),
    ensures
        found(s, p) == Some(i),
    decreases s.len(),
{
    if i > 0 {
        assert(!occurs_at(s, p, 0));
        let rest = s.skip(1);
        assert(rest.subrange(i - 1, i - 1 + p.len()) =~= s.subrange(i, i + p.len()));
        assert forall|j: int| 0 <= j < i - 1 implies !#[trigger] occurs_at(rest, p, j) by {
            assert(!occurs_at(s, p, j + 1));
            if j + p.len() <= rest.len() {
                assert(rest.subrange(j, j + p.len()) =~= s.subrange(j + 1, j + 1 + p.len()));
            }
        }
        found_is_first(rest, p, i - 1);
    }
}

/// What occurs nowhere is not found.
pub proof fn nothing_is_found(s: Seq<char>, p: Seq<char>)
    requires
        forall|j: int| !#[trigger] occurs_at(s, p, j),
    ensures
        found(s, p) is None,
    decreases s.len(),
{
    assert(!occurs_at(s, p, 0));
    if s.len() > 0 {
        let rest = s.skip(1);
        assert forall|j: int| !#[trigger] occurs_at(rest, p, j) by {
            if 0 <= j && j + p.len() <= rest.len() {
                assert(rest.subrange(j, j + p.len()) =~= s.subrange(j + 1, j + 1 + p.len()));
                assert(!occurs_at(s, p, j + 1));
            }
        }
        nothing_is_found(rest, p);
    }
}

/// A text in which a pattern does not occur is not changed by replacing it; the
/// first occurrence is replaced, and then what follows it.
pub proof fn the_first_is_replaced(
    front: Seq<char>,
    p: Seq<char>,
    rest: Seq<char>,
    by: Seq<char>,
)
    requires
        p.len() > 0,
        forall|j: int| 0 <= j < front.len() ==> front[j] != p[0],
    ensures
        replaced(front + p + rest, p, by) == front + by + replaced(rest, p, by),
        replaced(front, p, by) == front,
    decreases front.len(),
{
    let s = front + p + rest;
    if front.len() == 0 {
        assert(s.subrange(0, p.len() as int) =~= p);
        assert(s.skip(p.len() as int) =~= rest);
        assert(front + by + replaced(rest, p, by) =~= by + replaced(rest, p, by));
    } else {
        let tail = front.skip(1);
        the_first_is_replaced(tail, p, rest, by);
        assert(front[0] != p[0]);
        if begins(s, p) {
            assert(s.subrange(0, p.len() as int)[0] == p[0]);
        }
        if begins(front, p) {
            assert(front.subrange(0, p.len() as int)[0] == p[0]);
        }
        assert(s.skip(1) =~= tail + p + rest);
        assert(seq![front[0]] + (tail + by + replaced(rest, p, by)) =~= front + by + replaced(
            rest,
            p,
            by,
        ));
        assert(seq![front[0]] + tail =~= front);
    }
}

} // verus!
