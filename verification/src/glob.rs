//! Patterns for names whose parts are separated by slashes.
//!
//! `*` and `?` stay within a part, `**` goes over slashes, `[abc]`, `[a-z]`
//! and `[!a]` stand for one character, and `\` takes the next character
//! literally.

use crate::text;
use vstd::prelude::*;

verus! {

/// Whether a character is one of a class, given what stands between the
/// brackets.
pub open spec fn class_has(items: Seq<char>, c: char) -> bool
    decreases items.len(),
{
    if items.len() == 0 {
        false
    } else if items[0] == '\\' && items.len() > 1 {
        items[1] == c || class_has(items.skip(2), c)
    } else if items.len() > 2 && items[1] == '-' {
        items[0] <= c <= items[2] || class_has(items.skip(3), c)
    } else {
        items[0] == c || class_has(items.skip(1), c)
    }
}

/// Whether a class excludes its characters.
pub open spec fn excludes(items: Seq<char>) -> bool {
    items.len() > 0 && (items[0] == '!' || items[0] == '^')
}

/// What stands between the brackets of a class, after the sign that it excludes
/// its characters.
pub open spec fn listed(items: Seq<char>) -> Seq<char> {
    if excludes(items) {
        items.skip(1)
    } else {
        items
    }
}

/// The class that the pattern `p` begins with: how long it is and whether `c`
/// is in it. `None` when the bracket is not closed or the class is empty.
pub open spec fn class_at(p: Seq<char>, c: char) -> Option<(nat, bool)> {
    let n = text::before(p.skip(1), ']');
    let items = p.subrange(1, 1 + n as int);
    if 1 + n >= p.len() || listed(items).len() == 0 {
        None
    } else {
        Some((n + 2, class_has(listed(items), c) != excludes(items)))
    }
}

/// What stands between brackets, when no bracket closes before.
proof fn closed_by(items: Seq<char>, rest: Seq<char>)
    requires
        !items.contains(']'),
    ensures
        ({
            let p = seq!['['] + items + seq![']'] + rest;
            &&& text::before(p.skip(1), ']') == items.len()
            &&& p.subrange(1, 1 + items.len() as int) == items
        }),
{
    let p = seq!['['] + items + seq![']'] + rest;
    let s = p.skip(1);
    assert(s =~= items + seq![']'] + rest);
    assert forall|i: int| 0 <= i < items.len() implies s[i] != ']' by {
        assert(items.contains(items[i]));
    }
    text::before_unique(s, ']', items.len() as int);
    assert(p.subrange(1, 1 + items.len() as int) =~= items);
}

/// A class that excludes what is listed behind its sign.
proof fn signed_class(sign: char, body: Seq<char>, rest: Seq<char>, c: char)
    requires
        sign == '!' || sign == '^',
        body.len() > 0,
        !body.contains(']'),
    ensures
        class_at(seq!['[', sign] + body + seq![']'] + rest, c) == Some(
            ((body.len() + 3) as nat, !class_has(body, c)),
        ),
{
    let signed = seq![sign] + body;
    assert forall|i: int| 0 <= i < signed.len() implies signed[i] != ']' by {
        if i > 0 {
            assert(body.contains(body[i - 1]));
        }
    }
    closed_by(signed, rest);
    assert(seq!['[', sign] + body + seq![']'] + rest =~= seq!['['] + signed + seq![']'] + rest);
    assert(signed.skip(1) =~= body);
}

/// `[body]` is a class; `[!body]` and `[^body]` hold the characters that it
/// does not.
pub proof fn classes_exclude(body: Seq<char>, rest: Seq<char>, c: char)
    requires
        body.len() > 0,
        !body.contains(']'),
        body[0] != '!' && body[0] != '^',
    ensures
        class_at(seq!['['] + body + seq![']'] + rest, c) == Some(
            ((body.len() + 2) as nat, class_has(body, c)),
        ),
        class_at(seq!['[', '!'] + body + seq![']'] + rest, c) == Some(
            ((body.len() + 3) as nat, !class_has(body, c)),
        ),
        class_at(seq!['[', '^'] + body + seq![']'] + rest, c) == Some(
            ((body.len() + 3) as nat, !class_has(body, c)),
        ),
{
    closed_by(body, rest);
    signed_class('!', body, rest, c);
    signed_class('^', body, rest, c);
}

/// A bracket that is not closed, or with nothing listed, is no class.
pub proof fn no_class(p: Seq<char>, rest: Seq<char>, c: char)
    requires
        p.len() > 0,
        !p.skip(1).contains(']'),
    ensures
        class_at(p, c) is None,
        class_at(seq!['[', ']'] + rest, c) is None,
        class_at(seq!['[', '!', ']'] + rest, c) is None,
        class_at(seq!['[', '^', ']'] + rest, c) is None,
{
    let s = p.skip(1);
    assert forall|i: int| 0 <= i < s.len() implies s[i] != ']' by {
        assert(s.contains(s[i]));
    }
    text::before_unique(s, ']', s.len() as int);
    let none = Seq::<char>::empty();
    closed_by(none, rest);
    assert(seq!['[', ']'] + rest =~= seq!['['] + none + seq![']'] + rest);
    closed_by(seq!['!'], rest);
    assert(seq!['[', '!', ']'] + rest =~= seq!['['] + seq!['!'] + seq![']'] + rest);
    closed_by(seq!['^'], rest);
    assert(seq!['[', '^', ']'] + rest =~= seq!['['] + seq!['^'] + seq![']'] + rest);
}

/// How many stars the pattern begins with.
pub open spec fn stars(p: Seq<char>) -> nat
    decreases p.len(),
{
    if p.len() > 0 && p[0] == '*' {
        1 + stars(p.skip(1))
    } else {
        0
    }
}

/// The stars are part of the pattern.
pub proof fn stars_fit(p: Seq<char>)
    ensures
        stars(p) <= p.len(),
    decreases p.len(),
{
    if p.len() > 0 && p[0] == '*' {
        stars_fit(p.skip(1));
    }
}

/// Whether the first `k` characters of `v` can stand for stars: any can for two
/// or more, those without a slash for one.
pub open spec fn spans(v: Seq<char>, k: int, stars: nat) -> bool {
    0 <= k <= v.len() && (stars > 1 || forall|j: int| 0 <= j < k ==> v[j] != '/')
}

/// Whether the pattern `p` matches all of `v`.
pub open spec fn globs(p: Seq<char>, v: Seq<char>) -> bool
    decreases p.len(),
{
    if p.len() == 0 {
        v.len() == 0
    } else if p[0] == '*' {
        proof {
            stars_fit(p);
        }
        exists|k: int| #[trigger]
            spans(v, k, stars(p)) && globs(p.skip(stars(p) as int), v.skip(k))
    } else if p[0] == '?' {
        v.len() > 0 && v[0] != '/' && globs(p.skip(1), v.skip(1))
    } else if p[0] == '[' {
        v.len() > 0 && match class_at(p, v[0]) {
            Some((n, inside)) => inside && globs(p.skip(n as int), v.skip(1)),
            None => v[0] == '[' && globs(p.skip(1), v.skip(1)),
        }
    } else if p[0] == '\\' && p.len() > 1 {
        v.len() > 0 && v[0] == p[1] && globs(p.skip(2), v.skip(1))
    } else {
        v.len() > 0 && v[0] == p[0] && globs(p.skip(1), v.skip(1))
    }
}

fn read_class_has(p: &Vec<char>, from: usize, to: usize, c: char) -> (r: bool)
    requires
        from <= to <= p@.len(),
    ensures
        r == class_has(p@.subrange(from as int, to as int), c),
{
    let mut i: usize = from;
    while i < to
        invariant
            from <= i <= to <= p@.len(),
            class_has(p@.subrange(from as int, to as int), c) == class_has(
                p@.subrange(i as int, to as int),
                c,
            ),
        decreases to - i,
    {
        let ghost items = p@.subrange(i as int, to as int);
        if p[i] == '\\' && to - i > 1 {
            if p[i + 1] == c {
                return true;
            }
            assert(items.skip(2) =~= p@.subrange(i + 2, to as int));
            i += 2;
        } else if to - i > 2 && p[i + 1] == '-' {
            if p[i] <= c && c <= p[i + 2] {
                return true;
            }
            assert(items.skip(3) =~= p@.subrange(i + 3, to as int));
            i += 3;
        } else {
            if p[i] == c {
                return true;
            }
            assert(items.skip(1) =~= p@.subrange(i + 1, to as int));
            i += 1;
        }
    }
    false
}

/// The class that the pattern has at `start`: where the pattern goes on, and
/// whether a character is in the class. `None` when there is no class.
pub fn char_class_match(p: &Vec<char>, start: usize, c: char) -> (r: Option<(usize, bool)>)
    requires
        start < p@.len(),
    ensures
        match r {
            Some((next, inside)) => start < next <= p@.len() && class_at(
                p@.skip(start as int),
                c,
            ) == Some(((next - start) as nat, inside)),
            None => class_at(p@.skip(start as int), c) is None,
        },
{
    let ghost rest = p@.skip(start as int);
    let m: usize = p.len();
    let end: usize = text::find_char(p, start + 1, ']');
    assert(rest.skip(1) =~= p@.skip(start + 1));
    if end == m {
        return None;
    }
    let ghost items = rest.subrange(1, end - start);
    assert(items =~= p@.subrange(start + 1, end as int));
    let negated = end > start + 1 && (p[start + 1] == '!' || p[start + 1] == '^');
    let from: usize = if negated {
        start + 2
    } else {
        start + 1
    };
    assert(listed(items) =~= p@.subrange(from as int, end as int));
    if from == end {
        return None;
    }
    let inside = read_class_has(p, from, end, c);
    Some((end + 1, inside != negated))
}

fn count_stars(p: &Vec<char>, start: usize) -> (r: usize)
    requires
        start <= p@.len(),
    ensures
        start <= r <= p@.len(),
        r - start == stars(p@.skip(start as int)),
    decreases p@.len() - start,
{
    if start < p.len() && p[start] == '*' {
        assert(p@.skip(start as int).skip(1) =~= p@.skip(start + 1));
        count_stars(p, start + 1)
    } else {
        start
    }
}

/// A row of the table: whether the rest of the pattern matches the rests of
/// the value.
spec fn is_row(row: Seq<bool>, p: Seq<char>, v: Seq<char>) -> bool {
    &&& row.len() == v.len() + 1
    &&& forall|j: int| 0 <= j <= v.len() ==> #[trigger] row[j] == globs(p, v.skip(j))
}

/// Whether some rest of the value that a star can reach is matched.
fn any_reached(row: &Vec<bool>, v: &Vec<char>, from: usize, stars: usize, p: Ghost<Seq<char>>) -> (r:
    bool)
    requires
        from <= v@.len(),
        is_row(row@, p@, v@),
    ensures
        r == exists|k: int| #[trigger]
            spans(v@.skip(from as int), k, stars as nat) && globs(p@, v@.skip(from as int).skip(k)),
{
    let ghost rest = v@.skip(from as int);
    let mut i: usize = from;
    loop
        invariant
            from <= i <= v@.len(),
            is_row(row@, p@, v@),
            rest == v@.skip(from as int),
            spans(rest, i - from, stars as nat),
            forall|k: int|
                0 <= k < i - from ==> !(#[trigger] spans(rest, k, stars as nat) && globs(p@, rest.skip(k))),
        decreases v@.len() - i,
    {
        assert(rest.skip(i - from) =~= v@.skip(i as int));
        if row[i] {
            assert(spans(rest, i - from, stars as nat) && globs(p@, rest.skip(i - from)));
            return true;
        }
        if i == v.len() || (stars <= 1 && v[i] == '/') {
            proof {
                assert forall|k: int| !(#[trigger] spans(rest, k, stars as nat) && globs(
                    p@,
                    rest.skip(k),
                )) by {
                    if spans(rest, k, stars as nat) && k > i - from {
                        assert(rest[i - from] == v@[i as int]);
                    }
                }
            }
            return false;
        }
        assert(rest[i - from] == v@[i as int]);
        i += 1;
    }
}

/// Whether a pattern matches a name, character by character.
pub fn glob_matches_chars(value: &Vec<char>, pattern: &Vec<char>) -> (r: bool)
    ensures
        r == globs(pattern@, value@),
{
    let n: usize = value.len();
    let m: usize = pattern.len();
    let ghost p = pattern@;
    let ghost v = value@;
    // The row for the rest of the pattern from `i` on is `rows[m - i]`.
    let mut rows: Vec<Vec<bool>> = Vec::new();
    let mut last: Vec<bool> = Vec::new();
    let mut j: usize = 0;
    assert(p.skip(m as int) =~= Seq::empty());
    while j < n
        invariant
            j <= n,
            n == v.len(),
            p.skip(m as int).len() == 0,
            last@.len() == j,
            forall|k: int| 0 <= k < j ==> #[trigger] last@[k] == globs(p.skip(m as int), v.skip(k)),
        decreases n - j,
    {
        last.push(false);
        j += 1;
    }
    last.push(true);
    assert(v.skip(n as int).len() == 0);
    assert(is_row(last@, p.skip(m as int), v));
    rows.push(last);
    let mut i: usize = m;
    while i > 0
        invariant
            i <= m,
            m == pattern@.len(),
            n == value@.len(),
            p == pattern@,
            v == value@,
            rows@.len() == m - i + 1,
            forall|k: int| i <= k <= m ==> is_row(#[trigger] rows@[m - k]@, p.skip(k), v),
        decreases i,
    {
        i -= 1;
        let ghost rest = p.skip(i as int);
        let mut row: Vec<bool> = Vec::new();
        let mut j: usize = 0;
        let c = pattern[i];
        let stars_end: usize = count_stars(pattern, i);
        loop
            invariant_except_break
                j <= n,
                row@.len() == j,
                forall|k: int| 0 <= k < j ==> #[trigger] row@[k] == globs(rest, v.skip(k)),
            invariant
                i < m,
                m == pattern@.len(),
                n == value@.len(),
                p == pattern@,
                v == value@,
                rest == p.skip(i as int),
                c == p[i as int],
                i <= stars_end <= m,
                stars_end - i == stars(rest),
                rows@.len() == m - i,
                forall|k: int| i < k <= m ==> is_row(#[trigger] rows@[m - k]@, p.skip(k), v),
            ensures
                is_row(row@, rest, v),
            decreases n - j,
        {
            let ghost tail = v.skip(j as int);
            assert(rest[0] == c);
            let cell: bool;
            if c == '*' {
                assert(is_row(rows@[m - stars_end]@, p.skip(stars_end as int), v));
                assert(rest.skip(stars(rest) as int) =~= p.skip(stars_end as int));
                cell = any_reached(
                    &rows[m - stars_end],
                    value,
                    j,
                    stars_end - i,
                    Ghost(p.skip(stars_end as int)),
                );
            } else if j == n {
                cell = false;
            } else {
                assert(tail[0] == v[j as int]);
                assert(tail.skip(1) =~= v.skip(j + 1));
                assert(rest.skip(1) =~= p.skip(i + 1));
                assert(is_row(rows@[m - (i + 1)]@, p.skip(i + 1), v));
                if c == '?' {
                    cell = value[j] != '/' && rows[m - (i + 1)][j + 1];
                } else if c == '[' {
                    match char_class_match(pattern, i, value[j]) {
                        Some((next, inside)) => {
                            assert(rest.skip(next - i) =~= p.skip(next as int));
                            assert(is_row(rows@[m - next]@, p.skip(next as int), v));
                            cell = inside && rows[m - next][j + 1];
                                },
                        None => {
                            cell = value[j] == '[' && rows[m - (i + 1)][j + 1];
                        },
                    }
                } else if c == '\\' && i + 1 < m {
                    assert(rest[1] == p[i + 1]);
                    assert(rest.skip(2) =~= p.skip(i + 2));
                    assert(is_row(rows@[m - (i + 2)]@, p.skip(i + 2), v));
                    cell = value[j] == pattern[i + 1] && rows[m - (i + 2)][j + 1];
                } else {
                    cell = value[j] == c && rows[m - (i + 1)][j + 1];
                }
            }
            assert(cell == globs(rest, tail));
            row.push(cell);
            if j == n {
                break;
            }
            j += 1;
        }
        rows.push(row);
    }
    assert(p.skip(0) =~= p);
    assert(v.skip(0) =~= v);
    assert(is_row(rows@[m - 0]@, p.skip(0), v));
    rows[m][0]
}

/// A pattern without signs matches itself and nothing else.
pub proof fn a_plain_pattern_matches_itself(p: Seq<char>, v: Seq<char>)
    requires
        forall|i: int|
            0 <= i < p.len() ==> p[i] != '*' && p[i] != '?' && p[i] != '[' && p[i] != '\\',
    ensures
        globs(p, v) <==> p == v,
    decreases p.len(),
{
    if p.len() == 0 {
        if v.len() == 0 {
            assert(p =~= v);
        }
    } else if v.len() > 0 {
        a_plain_pattern_matches_itself(p.skip(1), v.skip(1));
        assert(p =~= seq![p[0]] + p.skip(1));
        assert(v =~= seq![v[0]] + v.skip(1));
    }
}

/// One star matches what has no slash.
pub proof fn a_star_stays_within_a_part(v: Seq<char>)
    ensures
        globs(seq!['*'], v) <==> forall|i: int| 0 <= i < v.len() ==> v[i] != '/',
{
    let p = seq!['*'];
    reveal_with_fuel(stars, 2);
    reveal_with_fuel(globs, 2);
    assert(p.skip(1) =~= Seq::empty());
    assert(stars(p) == 1);
    if forall|i: int| 0 <= i < v.len() ==> v[i] != '/' {
        assert(spans(v, v.len() as int, stars(p)));
        assert(v.skip(v.len() as int).len() == 0);
    }
}

/// A plain character stands for itself, a question mark for any character but
/// a slash, and a backslash takes the meaning off the character behind it.
pub proof fn characters_stand_for_themselves(
    c: char,
    p: Seq<char>,
    d: char,
    v: Seq<char>,
)
    ensures
        c != '*' && c != '?' && c != '[' && c != '\\' ==> globs(seq![c] + p, seq![d] + v) == (c
            == d && globs(p, v)),
        globs(seq!['?'] + p, seq![d] + v) == (d != '/' && globs(p, v)),
        globs(seq!['\\', c] + p, seq![d] + v) == (c == d && globs(p, v)),
        !globs(seq!['?'] + p, Seq::empty()),
{
    assert((seq![c] + p).skip(1) =~= p);
    assert((seq!['?'] + p).skip(1) =~= p);
    assert((seq!['\\', c] + p).skip(2) =~= p);
    assert((seq![d] + v).skip(1) =~= v);
}

/// A star stands for any characters of one part of a name, none among them, and
/// two stars for any characters at all.
pub proof fn stars_stand_for_many(a: Seq<char>, p: Seq<char>, v: Seq<char>)
    requires
        p.len() == 0 || p[0] != '*',
        globs(p, v),
    ensures
        (forall|j: int| 0 <= j < a.len() ==> a[j] != '/') ==> globs(seq!['*'] + p, a + v),
        globs(seq!['*', '*'] + p, a + v),
{
    let one = seq!['*'] + p;
    let two = seq!['*', '*'] + p;
    let all = a + v;
    let k = a.len() as int;
    reveal_with_fuel(stars, 3);
    assert(one.skip(1) =~= p);
    assert(two.skip(1) =~= one);
    assert(stars(one) == 1);
    assert(stars(two) == 2);
    assert(two.skip(2) =~= p);
    assert(all.skip(k) =~= v);
    assert(spans(all, k, 2));
    if forall|j: int| 0 <= j < a.len() ==> a[j] != '/' {
        assert forall|j: int| 0 <= j < k implies all[j] != '/' by {
            assert(all[j] == a[j]);
        }
        assert(spans(all, k, 1));
    }
}

/// A class has the characters that it lists and those of its ranges.
pub proof fn classes_list_characters(a: char, b: char, c: char, rest: Seq<char>)
    requires
        a != '\\',
        rest.len() == 0 || rest[0] != '-',
    ensures
        class_has(seq![a] + rest, c) == (a == c || class_has(rest, c)),
        class_has(seq![a, '-', b] + rest, c) == (a <= c <= b || class_has(rest, c)),
        !class_has(Seq::empty(), c),
{
    assert((seq![a] + rest).skip(1) =~= rest);
    assert((seq![a, '-', b] + rest).skip(3) =~= rest);
}

} // verus!
