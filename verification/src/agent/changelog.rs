//! Where pi's changelog may be.

use crate::path;
use crate::pi::resolve::{ResolvedPi, ResolvedView};
use crate::text;
use vstd::prelude::*;
use vstd::string::*;

verus! {

/// The file name of a command without separators: on Windows it stands behind
/// a drive.
pub open spec fn file_part(c: Seq<char>, windows: bool) -> Seq<char> {
    c.skip(path::prefix_end(c, windows))
}

/// Whether a command is a bare name: no path, and no file name with an ending.
pub open spec fn is_bare(command: Seq<char>, windows: bool) -> bool {
    let c = text::trimmed(command);
    let f = file_part(c, windows);
    &&& c.len() > 0
    &&& text::last_of(c, '/') is None
    &&& text::last_of(c, '\\') is None
    &&& (text::last_of(f, '.') is None || text::last_of(f, '.') == Some(0int) || f == ".."@)
}

/// Whether a command is a bare name.
pub fn is_bare_pi_command(pi_command: &str, windows: bool) -> (r: bool)
    ensures
        r == is_bare(pi_command@, windows),
{
    let command = text::trim(pi_command);
    let cs = text::chars_of(command);
    if cs.len() == 0 {
        return false;
    }
    if text::find_last(&cs, '/').is_some() || text::find_last(&cs, '\\').is_some() {
        return false;
    }
    let n: usize = cs.len();
    let from = path::prefix_length(command, windows);
    assert(command@.subrange(from as int, n as int) =~= file_part(command@, windows));
    let file = command.substring_char(from, n);
    match text::find_last(&text::chars_of(file), '.') {
        None => true,
        Some(i) => i == 0 || text::same(file, ".."),
    }
}

/// A text without quotation marks at its front.
pub open spec fn unquoted_start(s: Seq<char>) -> Seq<char>
    decreases s.len(),
{
    if s.len() > 0 && s[0] == '"' {
        unquoted_start(s.skip(1))
    } else {
        s
    }
}

/// A text without quotation marks at its end.
pub open spec fn unquoted_end(s: Seq<char>) -> Seq<char>
    decreases s.len(),
{
    if s.len() > 0 && s.last() == '"' {
        unquoted_end(s.drop_last())
    } else {
        s
    }
}

fn unquote(s: &str) -> (r: String)
    ensures
        r@ == unquoted_end(unquoted_start(s@)),
{
    let cs = text::chars_of(s);
    let n: usize = cs.len();
    let mut from: usize = 0;
    assert(cs@.skip(0) =~= cs@);
    while from < n && cs[from] == '"'
        invariant
            from <= n,
            n == cs@.len(),
            unquoted_start(cs@) == unquoted_start(cs@.skip(from as int)),
        decreases n - from,
    {
        assert(cs@.skip(from as int).skip(1) =~= cs@.skip(from + 1));
        from += 1;
    }
    let ghost t = cs@.skip(from as int);
    let mut to: usize = n;
    assert(cs@.subrange(from as int, n as int) =~= t);
    while to > from && cs[to - 1] == '"'
        invariant
            from <= to <= n,
            n == cs@.len(),
            t == cs@.skip(from as int),
            unquoted_end(t) == unquoted_end(cs@.subrange(from as int, to as int)),
        decreases to - from,
    {
        let ghost u = cs@.subrange(from as int, to as int);
        assert(u.last() == cs@[to - 1]);
        assert(u.drop_last() =~= cs@.subrange(from as int, to - 1));
        to -= 1;
    }
    proof {
        let u = cs@.subrange(from as int, to as int);
        if to > from {
            assert(u.last() == cs@[to - 1]);
        }
    }
    text::string_of(&cs, from, to)
}

/// The program that pi really is: behind a wrapper of the Windows shell it is
/// the shell's fourth argument.
pub open spec fn executable(r: ResolvedView, windows: bool) -> Seq<char> {
    if windows && text::ascii_lowered(r.program) == text::ascii_lowered("cmd.exe"@)
        && r.cmd_args.len() > 3 {
        unquoted_end(unquoted_start(r.cmd_args[3]))
    } else {
        r.program
    }
}

/// The program that pi really is.
pub fn changelog_executable(resolved: &ResolvedPi, windows: bool) -> (r: String)
    ensures
        r@ == executable(resolved@, windows),
{
    if windows && text::same_ignoring_ascii_case(resolved.program.as_str(), "cmd.exe")
        && resolved.cmd_args.len() > 3 {
        assert(resolved@.cmd_args[3] == resolved.cmd_args@[3]@);
        unquote(resolved.cmd_args[3].as_str())
    } else {
        resolved.program.clone()
    }
}

/// Where a changelog may be: next to a program or in a directory above it, the
/// nearest first.
pub open spec fn candidates(program: Seq<char>, windows: bool) -> Seq<Seq<char>> {
    path::ancestors(program, windows).map_values(
        |a: Seq<char>| path::resolved(a, "CHANGELOG.md"@, windows),
    )
}

/// Where the changelog of a program may be; `program` is its path without
/// links.
pub fn changelog_candidates(program: &str, windows: bool) -> (r: Vec<String>)
    ensures
        text::texts(r@) == candidates(program@, windows),
{
    let mut out: Vec<String> = Vec::new();
    let mut p: String = program.to_owned();
    let ghost whole = candidates(program@, windows);
    proof {
        assert(text::texts(out@) =~= Seq::<Seq<char>>::empty());
        assert(text::texts(out@) + candidates(p@, windows) =~= whole);
    }
    loop
        invariant_except_break
            text::texts(out@) + candidates(p@, windows) == whole,
        invariant
            whole == candidates(program@, windows),
        ensures
            text::texts(out@) == whole,
        decreases p@.len(),
    {
        let ghost before = text::texts(out@);
        let here = path::resolve_path(p.as_str(), "CHANGELOG.md", windows);
        out.push(here);
        assert(text::texts(out@) =~= before.push(here@));
        match path::parent(p.as_str(), windows) {
            Some(up) => {
                proof {
                    path::above_is_shorter(p@, windows);
                    assert(candidates(p@, windows) =~= seq![here@] + candidates(up@, windows));
                    assert(before + (seq![here@] + candidates(up@, windows)) =~= before.push(here@)
                        + candidates(up@, windows));
                }
                p = up;
            },
            None => {
                assert(candidates(p@, windows) =~= seq![here@]);
                assert(before + seq![here@] =~= before.push(here@));
                break;
            },
        }
    }
    out
}

/// Where the changelog of a global installation is, given what the package
/// manager prints as its root; nowhere when it prints nothing.
pub fn installed_changelog(printed: &str, windows: bool) -> (r: Option<String>)
    ensures
        text::opt_text(r) == (if text::trimmed(printed@).len() == 0 {
            None
        } else {
            Some(
                path::resolved(
                    path::resolved(
                        path::resolved(text::trimmed(printed@), "@earendil-works"@, windows),
                        "pi-coding-agent"@,
                        windows,
                    ),
                    "CHANGELOG.md"@,
                    windows,
                ),
            )
        }),
{
    let root = text::trim(printed);
    if root.unicode_len() == 0 {
        None
    } else {
        let scope = path::resolve_path(root, "@earendil-works", windows);
        let package = path::resolve_path(scope.as_str(), "pi-coding-agent", windows);
        Some(path::resolve_path(package.as_str(), "CHANGELOG.md", windows))
    }
}

proof fn quotes_are_cut(n: nat, s: Seq<char>, m: nat)
    requires
        s.len() > 0,
        s[0] != '"',
        s.last() != '"',
    ensures
        unquoted_end(unquoted_start(Seq::new(n, |i: int| '"') + s + Seq::new(m, |i: int| '"')))
            == s,
    decreases n + m,
{
    let all = Seq::new(n, |i: int| '"') + s + Seq::new(m, |i: int| '"');
    if n > 0 {
        let fewer = (n - 1) as nat;
        quotes_are_cut(fewer, s, m);
        assert(all.skip(1) =~= Seq::new(fewer, |i: int| '"') + s + Seq::new(m, |i: int| '"'));
    } else {
        assert(all[0] == s[0]);
        if m > 0 {
            let fewer = (m - 1) as nat;
            quotes_are_cut(n, s, fewer);
            let rest = Seq::new(n, |i: int| '"') + s + Seq::new(fewer, |i: int| '"');
            assert(all.drop_last() =~= rest);
            assert(rest[0] == s[0]);
        } else {
            assert(all =~= s);
        }
    }
}

/// Behind the shell of Windows the program is the one that the shell is told to
/// run, without the quotation marks round it; elsewhere it is the command's own
/// program.
pub proof fn the_program_is_found(r: ResolvedView, s: Seq<char>, n: nat, windows: bool)
    requires
        s.len() > 0,
        s[0] != '"',
        s.last() != '"',
    ensures
        !windows ==> executable(r, windows) == r.program,
        windows && r.program == "cmd.exe"@ && r.cmd_args.len() > 3 && r.cmd_args[3] == Seq::new(
            n,
            |i: int| '"',
        ) + s + Seq::new(n, |i: int| '"') ==> executable(r, windows) == s,
{
    quotes_are_cut(n, s, n);
}

/// A changelog is looked for next to the program first, and then next to each
/// directory above it in turn.
pub proof fn the_nearest_changelog_comes_first(program: Seq<char>, windows: bool)
    ensures
        candidates(program, windows).len() == path::ancestors(program, windows).len(),
        candidates(program, windows).len() > 0,
        candidates(program, windows)[0] == path::resolved(program, "CHANGELOG.md"@, windows),
        path::ancestors(program, windows).len() > 1 ==> candidates(program, windows).skip(1)
            == candidates(path::above(program, windows), windows),
{
    reveal_with_fuel(path::ancestors, 2);
    let up = path::above(program, windows);
    if path::ancestors(program, windows).len() > 1 {
        path::above_is_shorter(program, windows);
        assert(path::ancestors(program, windows).skip(1) =~= path::ancestors(up, windows));
        assert(candidates(program, windows).skip(1) =~= candidates(up, windows));
    }
}

} // verus!
