//! File paths as text.
//!
//! On Windows a path may begin with a prefix, such as `C:`, `\\server\share`,
//! `\\.\device` or the verbatim `\\?\C:`, and its components are separated by
//! backslashes or slashes; behind a verbatim prefix by backslashes only.
//! Elsewhere there is no prefix, and `/` separates.

use crate::text;
use vstd::prelude::*;
use vstd::string::*;

verus! {

// ---------------------------------------------------------------------------
// Separators
// ---------------------------------------------------------------------------

/// Whether a character separates components.
pub open spec fn separates(c: char, windows: bool) -> bool {
    c == '/' || windows && c == '\\'
}

/// Where the component that begins at `i` of a Windows path ends. Slashes are
/// part of it when the path is verbatim.
pub open spec fn part_end(p: Seq<char>, i: int, verbatim: bool) -> int
    decreases p.len() - i,
{
    if i >= p.len() {
        p.len() as int
    } else if p[i] == '\\' || p[i] == '/' && !verbatim {
        i
    } else {
        part_end(p, i + 1, verbatim)
    }
}

proof fn part_ends(p: Seq<char>, i: int, verbatim: bool)
    requires
        0 <= i <= p.len(),
    ensures
        i <= part_end(p, i, verbatim) <= p.len(),
        forall|j: int|
            i <= j < part_end(p, i, verbatim) ==> p[j] != '\\' && (p[j] != '/' || verbatim),
        part_end(p, i, verbatim) < p.len() ==> p[part_end(p, i, verbatim)] == '\\' || p[part_end(
            p,
            i,
            verbatim,
        )] == '/' && !verbatim,
    decreases p.len() - i,
{
    if i < p.len() && !(p[i] == '\\' || p[i] == '/' && !verbatim) {
        part_ends(p, i + 1, verbatim);
    }
}

/// The end of a component is the first separator.
proof fn part_end_is(p: Seq<char>, i: int, verbatim: bool, e: int)
    requires
        0 <= i <= e < p.len(),
        forall|j: int| i <= j < e ==> p[j] != '\\' && (p[j] != '/' || verbatim),
        p[e] == '\\' || p[e] == '/' && !verbatim,
    ensures
        part_end(p, i, verbatim) == e,
    decreases e - i,
{
    if i < e {
        part_end_is(p, i + 1, verbatim, e);
    }
}

fn find_part_end(p: &Vec<char>, from: usize, verbatim: bool) -> (r: usize)
    requires
        from <= p@.len(),
    ensures
        from <= r <= p@.len(),
        r == part_end(p@, from as int, verbatim),
{
    let mut i: usize = from;
    while i < p.len() && !(p[i] == '\\' || p[i] == '/' && !verbatim)
        invariant
            from <= i <= p@.len(),
            part_end(p@, from as int, verbatim) == part_end(p@, i as int, verbatim),
        decreases p.len() - i,
    {
        i += 1;
    }
    i
}

// ---------------------------------------------------------------------------
// Prefixes
// ---------------------------------------------------------------------------

/// Whether a drive letter and a colon stand at `i`.
pub open spec fn drive_at(p: Seq<char>, i: int) -> bool {
    &&& i + 2 <= p.len()
    &&& ('a' <= p[i] <= 'z' || 'A' <= p[i] <= 'Z')
    &&& p[i + 1] == ':'
}

/// Whether a Windows path begins with `\\?\`.
pub open spec fn is_verbatim(p: Seq<char>) -> bool {
    p.len() >= 4 && p[0] == '\\' && p[1] == '\\' && p[2] == '?' && p[3] == '\\'
}

/// Whether a Windows path begins with `\\.\`.
pub open spec fn is_device(p: Seq<char>) -> bool {
    p.len() >= 4 && separates(p[0], true) && separates(p[1], true) && p[2] == '.' && separates(
        p[3],
        true,
    )
}

/// Whether a Windows path begins with the names of a server and a share.
pub open spec fn is_share(p: Seq<char>) -> bool {
    &&& p.len() >= 2 && separates(p[0], true) && separates(p[1], true)
    &&& 2 < part_end(p, 2, false)
    &&& part_end(p, 2, false) + 1 < p.len()
    &&& !separates(p[part_end(p, 2, false) + 1], true)
}

/// Where the verbatim prefix of a path ends.
pub open spec fn verbatim_end(p: Seq<char>) -> int {
    if p.len() >= 8 && p[4] == 'U' && p[5] == 'N' && p[6] == 'C' && separates(p[7], true) {
        let server = part_end(p, 8, true);
        if server + 1 < p.len() {
            let share = part_end(p, server + 1, true);
            if share > server + 1 {
                share
            } else {
                server
            }
        } else {
            server
        }
    } else if drive_at(p, 4) && (p.len() == 6 || separates(p[6], true)) {
        6
    } else {
        part_end(p, 4, true)
    }
}

/// Where the prefix of a path ends: 0 when it has none.
pub open spec fn prefix_end(p: Seq<char>, windows: bool) -> int {
    if !windows {
        0
    } else if is_verbatim(p) {
        verbatim_end(p)
    } else if is_device(p) {
        part_end(p, 4, false)
    } else if is_share(p) {
        part_end(p, part_end(p, 2, false) + 1, false)
    } else if drive_at(p, 0) {
        2
    } else {
        0
    }
}

/// Whether a path says where it starts. On Windows that takes a prefix, and a
/// separator behind it where the prefix is a drive.
pub open spec fn absolute(p: Seq<char>, windows: bool) -> bool {
    if windows {
        ||| is_verbatim(p)
        ||| is_device(p)
        ||| is_share(p)
        ||| drive_at(p, 0) && p.len() > 2 && separates(p[2], true)
    } else {
        p.len() > 0 && p[0] == '/'
    }
}

/// A prefix is within its path.
pub proof fn prefixes_fit(p: Seq<char>, windows: bool)
    ensures
        0 <= prefix_end(p, windows) <= p.len(),
        windows && (is_verbatim(p) || is_device(p)) ==> prefix_end(p, windows) >= 4,
{
    if windows {
        if p.len() >= 2 {
            part_ends(p, 2, false);
            let e = part_end(p, 2, false);
            if e + 1 < p.len() {
                part_ends(p, e + 1, false);
            }
        }
        if p.len() >= 4 {
            part_ends(p, 4, true);
            part_ends(p, 4, false);
        }
        if p.len() >= 8 {
            part_ends(p, 8, true);
            let e = part_end(p, 8, true);
            if e + 1 < p.len() {
                part_ends(p, e + 1, true);
            }
        }
    }
}

fn starts_verbatim(p: &Vec<char>) -> (r: bool)
    ensures
        r == is_verbatim(p@),
{
    p.len() >= 4 && p[0] == '\\' && p[1] == '\\' && p[2] == '?' && p[3] == '\\'
}

fn is_separator(c: char, windows: bool) -> (r: bool)
    ensures
        r == separates(c, windows),
{
    c == '/' || windows && c == '\\'
}

fn starts_with_drive(p: &Vec<char>, i: usize) -> (r: bool)
    requires
        i <= 4,
    ensures
        r == drive_at(p@, i as int),
{
    i + 2 <= p.len() && ('a' <= p[i] && p[i] <= 'z' || 'A' <= p[i] && p[i] <= 'Z') && p[i + 1]
        == ':'
}

fn starts_with_device(p: &Vec<char>) -> (r: bool)
    ensures
        r == is_device(p@),
{
    p.len() >= 4 && is_separator(p[0], true) && is_separator(p[1], true) && p[2] == '.'
        && is_separator(p[3], true)
}

fn starts_with_share(p: &Vec<char>) -> (r: bool)
    ensures
        r == is_share(p@),
{
    if p.len() < 2 || !is_separator(p[0], true) || !is_separator(p[1], true) {
        return false;
    }
    let e = find_part_end(p, 2, false);
    2 < e && e < p.len() && e + 1 < p.len() && !is_separator(p[e + 1], true)
}

fn find_verbatim_end(p: &Vec<char>) -> (r: usize)
    requires
        is_verbatim(p@),
    ensures
        r == verbatim_end(p@),
        r <= p@.len(),
{
    let n: usize = p.len();
    if n >= 8 && p[4] == 'U' && p[5] == 'N' && p[6] == 'C' && is_separator(p[7], true) {
        let server = find_part_end(p, 8, true);
        if server < n && server + 1 < n {
            let share = find_part_end(p, server + 1, true);
            if share > server + 1 {
                share
            } else {
                server
            }
        } else {
            server
        }
    } else if starts_with_drive(p, 4) && (n == 6 || is_separator(p[6], true)) {
        6
    } else {
        find_part_end(p, 4, true)
    }
}

fn find_prefix_end(p: &Vec<char>, windows: bool) -> (r: usize)
    ensures
        r == prefix_end(p@, windows),
        r <= p@.len(),
{
    if !windows {
        0
    } else if starts_verbatim(p) {
        find_verbatim_end(p)
    } else if starts_with_device(p) {
        find_part_end(p, 4, false)
    } else if starts_with_share(p) {
        let n: usize = p.len();
        let e = find_part_end(p, 2, false);
        assert(e + 1 < n);
        find_part_end(p, e + 1, false)
    } else if starts_with_drive(p, 0) {
        2
    } else {
        0
    }
}

/// How long the prefix of a path is.
pub fn prefix_length(p: &str, windows: bool) -> (r: usize)
    ensures
        r == prefix_end(p@, windows),
        r <= p@.len(),
{
    find_prefix_end(&text::chars_of(p), windows)
}

/// Whether a path says where it starts.
pub fn is_absolute(p: &str, windows: bool) -> (r: bool)
    ensures
        r == absolute(p@, windows),
{
    let cs = text::chars_of(p);
    if windows {
        starts_verbatim(&cs) || starts_with_device(&cs) || starts_with_share(&cs) || (
        starts_with_drive(&cs, 0) && cs.len() > 2 && is_separator(cs[2], true))
    } else {
        cs.len() > 0 && cs[0] == '/'
    }
}

// ---------------------------------------------------------------------------
// Joining
// ---------------------------------------------------------------------------

/// The components of a path from `i` on, without empty ones.
pub open spec fn parts_from(p: Seq<char>, i: int, verbatim: bool) -> Seq<Seq<char>>
    decreases p.len() - i,
    when 0 <= i <= p.len()
    via parts_from_ends
{
    let e = part_end(p, i, verbatim);
    let rest = if e < p.len() {
        parts_from(p, e + 1, verbatim)
    } else {
        Seq::empty()
    };
    if e > i {
        seq![p.subrange(i, e)] + rest
    } else {
        rest
    }
}

#[via_fn]
proof fn parts_from_ends(p: Seq<char>, i: int, verbatim: bool) {
    part_ends(p, i, verbatim);
}

/// The components of a directory behind its verbatim prefix with those of a
/// relative path: `.` is left out, and `..` takes a component off.
pub open spec fn climbed(dir: Seq<Seq<char>>, parts: Seq<Seq<char>>) -> Seq<Seq<char>>
    decreases parts.len(),
{
    if parts.len() == 0 {
        dir
    } else {
        let before = climbed(dir, parts.drop_last());
        let part = parts.last();
        if part == "."@ {
            before
        } else if part == ".."@ {
            if before.len() > 0 && before.last() != "."@ && before.last() != ".."@ {
                before.drop_last()
            } else {
                before
            }
        } else {
            before.push(part)
        }
    }
}

/// A path behind a verbatim prefix.
pub open spec fn below_verbatim(base: Seq<char>, p: Seq<char>) -> Seq<char> {
    let end = verbatim_end(base);
    let based = end < base.len() && separates(base[end], true);
    let rooted = p.len() > 0 && separates(p[0], true);
    let dir = if rooted {
        Seq::empty()
    } else {
        parts_from(
            base,
            if based {
                end + 1
            } else {
                end
            },
            true,
        )
    };
    let parts = climbed(dir, parts_from(p, 0, false));
    if based || rooted || parts.len() > 0 {
        base.take(end) + "\\"@ + text::joined(parts, "\\"@)
    } else {
        base.take(end)
    }
}

/// `p` seen from the directory `base`. An absolute path stays as it is, and so
/// does one with a prefix; one that begins with a separator keeps the prefix of
/// the directory; any other is below the directory.
pub open spec fn resolved(base: Seq<char>, p: Seq<char>, windows: bool) -> Seq<char> {
    if prefix_end(p, windows) > 0 {
        p
    } else if windows && is_verbatim(base) && p.len() > 0 {
        below_verbatim(base, p)
    } else if p.len() > 0 && separates(p[0], windows) {
        base.take(prefix_end(base, windows)) + p
    } else if base.len() == 0 || separates(base.last(), windows) || windows && drive_at(base, 0)
        && base.len() == 2 {
        base + p
    } else if windows {
        base + "\\"@ + p
    } else {
        base + "/"@ + p
    }
}

fn read_parts(p: &Vec<char>, from: usize, verbatim: bool) -> (r: Vec<String>)
    requires
        from <= p@.len(),
    ensures
        text::texts(r@) == parts_from(p@, from as int, verbatim),
{
    let mut r: Vec<String> = Vec::new();
    let mut i: usize = from;
    let ghost whole = parts_from(p@, from as int, verbatim);
    assert(text::texts(r@) + parts_from(p@, i as int, verbatim) =~= whole);
    loop
        invariant_except_break
            i <= p@.len(),
            text::texts(r@) + parts_from(p@, i as int, verbatim) == whole,
        ensures
            text::texts(r@) == whole,
        decreases p@.len() - i,
    {
        let e = find_part_end(p, i, verbatim);
        let ghost before = text::texts(r@);
        let ghost rest = if e < p@.len() {
            parts_from(p@, e + 1, verbatim)
        } else {
            Seq::empty()
        };
        if e > i {
            let part = text::string_of(p, i, e);
            r.push(part);
            proof {
                assert(text::texts(r@) =~= before.push(part@));
                assert(before + (seq![part@] + rest) =~= before.push(part@) + rest);
            }
        }
        assert(text::texts(r@) + rest =~= whole);
        if e == p.len() {
            assert(text::texts(r@) + rest =~= text::texts(r@));
            break;
        }
        i = e + 1;
    }
    r
}

fn climb(dir: Vec<String>, parts: &Vec<String>) -> (r: Vec<String>)
    ensures
        text::texts(r@) == climbed(text::texts(dir@), text::texts(parts@)),
{
    let ghost steps = text::texts(parts@);
    let mut r = dir;
    let mut i: usize = 0;
    assert(steps.take(0) =~= Seq::empty());
    while i < parts.len()
        invariant
            i <= parts@.len(),
            steps == text::texts(parts@),
            text::texts(r@) == climbed(text::texts(dir@), steps.take(i as int)),
        decreases parts.len() - i,
    {
        let ghost before = text::texts(r@);
        proof {
            assert(steps.take(i + 1).drop_last() =~= steps.take(i as int));
            assert(steps.take(i + 1).last() == parts@[i as int]@);
        }
        if text::same(parts[i].as_str(), ".") {
        } else if text::same(parts[i].as_str(), "..") {
            let n: usize = r.len();
            if n > 0 {
                assert(before.last() == r@[n - 1]@);
                if !text::same(r[n - 1].as_str(), ".") && !text::same(r[n - 1].as_str(), "..") {
                    let _gone = r.pop();
                    assert(text::texts(r@) =~= before.drop_last());
                }
            }
        } else {
            r.push(parts[i].clone());
            assert(text::texts(r@) =~= before.push(parts@[i as int]@));
        }
        i += 1;
    }
    assert(steps.take(i as int) =~= steps);
    r
}

fn join_verbatim(base: &str, p: &str) -> (r: String)
    requires
        is_verbatim(base@),
    ensures
        r@ == below_verbatim(base@, p@),
{
    let b = text::chars_of(base);
    let c = text::chars_of(p);
    let end = find_verbatim_end(&b);
    let based = end < b.len() && is_separator(b[end], true);
    let rooted = c.len() > 0 && is_separator(c[0], true);
    let dir = if rooted {
        let none: Vec<String> = Vec::new();
        assert(text::texts(none@) =~= Seq::empty());
        none
    } else if based {
        read_parts(&b, end + 1, true)
    } else {
        read_parts(&b, end, true)
    };
    let steps = read_parts(&c, 0, false);
    let parts = climb(dir, &steps);
    assert(base@.subrange(0, end as int) =~= base@.take(end as int));
    let prefix = base.substring_char(0, end);
    if based || rooted || parts.len() > 0 {
        let below = text::join(&parts, "\\");
        text::cat3(prefix, "\\", below.as_str())
    } else {
        prefix.to_owned()
    }
}

/// Resolve a path against a directory.
pub fn resolve_path(base: &str, p: &str, windows: bool) -> (r: String)
    ensures
        r@ == resolved(base@, p@, windows),
{
    let b = text::chars_of(base);
    let c = text::chars_of(p);
    let n: usize = b.len();
    if find_prefix_end(&c, windows) > 0 {
        p.to_owned()
    } else if windows && starts_verbatim(&b) && c.len() > 0 {
        join_verbatim(base, p)
    } else if c.len() > 0 && is_separator(c[0], windows) {
        let end = find_prefix_end(&b, windows);
        assert(base@.subrange(0, end as int) =~= base@.take(end as int));
        text::cat2(base.substring_char(0, end), p)
    } else if n == 0 || is_separator(b[n - 1], windows) || windows && starts_with_drive(&b, 0) && n
        == 2 {
        text::cat2(base, p)
    } else if windows {
        text::cat3(base, "\\", p)
    } else {
        text::cat3(base, "/", p)
    }
}

// ---------------------------------------------------------------------------
// The directories above
// ---------------------------------------------------------------------------

/// Where the root of a path ends: behind its prefix, and behind the separator
/// that follows.
pub open spec fn root_end(p: Seq<char>, windows: bool) -> int {
    let end = prefix_end(p, windows);
    if end < p.len() && separates(p[end], windows) {
        end + 1
    } else {
        end
    }
}

/// Where the last component of `p[..end]` begins, not before `root`.
pub open spec fn last_start(p: Seq<char>, root: int, end: int, windows: bool) -> int
    decreases end,
{
    if end <= root || end <= 0 || separates(p[end - 1], windows) && !(is_verbatim(p) && p[end - 1]
        == '/') {
        end
    } else {
        last_start(p, root, end - 1, windows)
    }
}

/// The directory that a path is in, for a path longer than its root.
pub open spec fn above(p: Seq<char>, windows: bool) -> Seq<char> {
    let root = root_end(p, windows);
    let start = last_start(p, root, p.len() as int, windows);
    if start <= root {
        p.take(root)
    } else {
        p.take(start - 1)
    }
}

proof fn last_starts(p: Seq<char>, root: int, end: int, windows: bool)
    requires
        0 <= root <= end <= p.len(),
    ensures
        root <= last_start(p, root, end, windows) <= end,
    decreases end,
{
    if end > root && !(separates(p[end - 1], windows) && !(is_verbatim(p) && p[end - 1] == '/')) {
        last_starts(p, root, end - 1, windows);
    }
}

/// The directory above is a shorter path.
pub proof fn above_is_shorter(p: Seq<char>, windows: bool)
    requires
        p.len() > root_end(p, windows),
    ensures
        above(p, windows).len() < p.len(),
{
    prefixes_fit(p, windows);
    last_starts(p, root_end(p, windows), p.len() as int, windows);
}

/// A path and the directories above it, the nearest first. The path has no
/// empty components and does not end with a separator, unless it is a root.
pub open spec fn ancestors(p: Seq<char>, windows: bool) -> Seq<Seq<char>>
    decreases p.len(),
{
    if p.len() <= root_end(p, windows) {
        seq![p]
    } else {
        proof {
            above_is_shorter(p, windows);
        }
        seq![p] + ancestors(above(p, windows), windows)
    }
}

fn find_root_end(p: &Vec<char>, windows: bool) -> (r: usize)
    ensures
        r == root_end(p@, windows),
        r <= p@.len(),
{
    let end = find_prefix_end(p, windows);
    if end < p.len() && is_separator(p[end], windows) {
        end + 1
    } else {
        end
    }
}

/// The directory that a path is in; `None` for a root.
pub fn parent(p: &str, windows: bool) -> (r: Option<String>)
    ensures
        text::opt_text(r) == if p@.len() <= root_end(p@, windows) {
            None
        } else {
            Some(above(p@, windows))
        },
{
    let cs = text::chars_of(p);
    let n: usize = cs.len();
    let root = find_root_end(&cs, windows);
    if n <= root {
        return None;
    }
    let verbatim = starts_verbatim(&cs);
    let mut start: usize = n;
    while start > root && !(is_separator(cs[start - 1], windows) && !(verbatim && cs[start - 1]
        == '/'))
        invariant
            root <= start <= n,
            n == cs@.len(),
            cs@ == p@,
            verbatim == is_verbatim(p@),
            last_start(p@, root as int, n as int, windows) == last_start(
                p@,
                root as int,
                start as int,
                windows,
            ),
        decreases start,
    {
        start -= 1;
    }
    let end: usize = if start <= root {
        root
    } else {
        start - 1
    };
    assert(p@.subrange(0, end as int) =~= p@.take(end as int));
    Some(p.substring_char(0, end).to_owned())
}

// ---------------------------------------------------------------------------
// Laws
// ---------------------------------------------------------------------------

/// An absolute path is not changed by where it is seen from.
pub proof fn absolute_stays(base: Seq<char>, p: Seq<char>, windows: bool)
    requires
        absolute(p, windows),
    ensures
        resolved(base, p, windows) == p,
{
    prefixes_fit(p, windows);
    if windows {
        if is_share(p) {
            part_ends(p, 2, false);
            part_ends(p, part_end(p, 2, false) + 1, false);
        }
    } else {
        assert(base.take(0) + p =~= p);
    }
}

/// What begins like a path with a server and a share does so too.
proof fn shares_stay(p: Seq<char>, q: Seq<char>)
    requires
        is_share(p),
        q.len() >= part_end(p, 2, false) + 2,
        forall|i: int| 0 <= i < part_end(p, 2, false) + 2 ==> q[i] == p[i],
    ensures
        is_share(q),
{
    let e = part_end(p, 2, false);
    part_ends(p, 2, false);
    assert(q[0] == p[0] && q[1] == p[1] && q[e] == p[e] && q[e + 1] == p[e + 1]);
    assert forall|j: int| 2 <= j < e implies q[j] != '\\' && q[j] != '/' by {
        assert(q[j] == p[j]);
    }
    part_end_is(q, 2, false, e);
}

/// Seen from an absolute directory a path is absolute, unless it names another
/// drive and no place on it.
pub proof fn resolved_is_absolute(base: Seq<char>, p: Seq<char>, windows: bool)
    requires
        absolute(base, windows),
        prefix_end(p, windows) == 0 || absolute(p, windows),
    ensures
        absolute(resolved(base, p, windows), windows),
{
    if absolute(p, windows) {
        absolute_stays(base, p, windows);
    } else if windows {
        let r = resolved(base, p, windows);
        let end = prefix_end(base, windows);
        prefixes_fit(base, windows);
        if is_verbatim(base) {
            assert(r[0] == base[0] && r[1] == base[1] && r[2] == base[2] && r[3] == base[3]);
        } else if is_device(base) {
            assert(r[0] == base[0] && r[1] == base[1] && r[2] == base[2] && r[3] == base[3]);
        } else if is_share(base) {
            let e = part_end(base, 2, false);
            part_ends(base, 2, false);
            part_ends(base, e + 1, false);
            assert(end > e + 1);
            shares_stay(base, r);
        } else {
            assert(r[0] == base[0] && r[1] == base[1] && separates(r[2], true));
        }
    }
}

/// A name that is not absolute is taken from the directory, with one slash
/// between them.
pub proof fn names_stand_below_their_directory(base: Seq<char>, p: Seq<char>)
    requires
        p.len() == 0 || p[0] != '/',
        base.len() > 0,
    ensures
        base.last() != '/' ==> resolved(base, p, false) == base + "/"@ + p,
        base.last() == '/' ==> resolved(base, p, false) == base + p,
{
}

proof fn starts_behind(p: Seq<char>, root: int, end: int, start: int, windows: bool)
    requires
        0 <= root < start <= end <= p.len(),
        !is_verbatim(p),
        separates(p[start - 1], windows),
        forall|j: int| start <= j < end ==> !separates(#[trigger] p[j], windows),
    ensures
        last_start(p, root, end, windows) == start,
    decreases end,
{
    if end > start {
        assert(!separates(p[end - 1], windows));
        starts_behind(p, root, end - 1, start, windows);
    }
}

/// What is above a name in a directory is the directory.
pub proof fn a_directory_is_above_its_names(dir: Seq<char>, name: Seq<char>)
    requires
        dir.len() > 1,
        dir[0] == '/',
        forall|j: int| 0 <= j < name.len() ==> #[trigger] name[j] != '/',
    ensures
        above(dir + "/"@ + name, false) == dir,
        name.len() > 0 ==> ancestors(dir + "/"@ + name, false).len() > 1 && ancestors(
            dir + "/"@ + name,
            false,
        )[0] == dir + "/"@ + name && ancestors(dir + "/"@ + name, false).skip(1) == ancestors(
            dir,
            false,
        ),
{
    reveal_strlit("/");
    assert("/"@.len() == 1 && "/"@[0] == '/');
    let p = dir + "/"@ + name;
    let start = dir.len() as int + 1;
    assert(p[0] == '/');
    assert forall|j: int| start <= j < p.len() implies !separates(#[trigger] p[j], false) by {
        assert(p[j] == name[j - start]);
    }
    starts_behind(p, 1, p.len() as int, start, false);
    assert(p.take(start - 1) =~= dir);
    if name.len() > 0 {
        let all = ancestors(p, false);
        assert(all.skip(1) =~= ancestors(dir, false));
        reveal_with_fuel(ancestors, 2);
        assert(ancestors(dir, false).len() > 0);
    }
}

} // verus!
