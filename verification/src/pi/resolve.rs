//! Where the pi command is, and how it is started.
//!
//! A bare name is looked for in the directories of `PATH`. On Windows pi is
//! mostly a batch file, which is started through `cmd.exe`.

use crate::path;
use crate::text;
use vstd::prelude::*;
use vstd::string::*;

verus! {

/// How pi is started.
#[derive(Debug)]
pub struct ResolvedPi {
    /// The program.
    pub program: String,
    /// What comes before pi's own arguments.
    pub cmd_args: Vec<String>,
}

/// The model of a [`ResolvedPi`].
pub struct ResolvedView {
    pub program: Seq<char>,
    pub cmd_args: Seq<Seq<char>>,
}

impl View for ResolvedPi {
    type V = ResolvedView;

    open spec fn view(&self) -> ResolvedView {
        ResolvedView { program: self.program@, cmd_args: text::texts(self.cmd_args@) }
    }
}

/// What is in a directory of the search path.
#[derive(Debug)]
pub struct DirListing {
    /// The directory, as the search path names it.
    pub dir: String,
    /// The names of its files.
    pub files: Vec<String>,
    /// The names of all its entries.
    pub names: Vec<String>,
}

/// The model of a [`DirListing`].
pub struct ListingView {
    pub dir: Seq<char>,
    pub files: Seq<Seq<char>>,
    pub names: Seq<Seq<char>>,
}

impl View for DirListing {
    type V = ListingView;

    open spec fn view(&self) -> ListingView {
        ListingView {
            dir: self.dir@,
            files: text::texts(self.files@),
            names: text::texts(self.names@),
        }
    }
}

/// The models of listings.
pub open spec fn listing_views(v: Seq<DirListing>) -> Seq<ListingView> {
    v.map_values(|l: DirListing| l@)
}

// ---------------------------------------------------------------------------
// Names
// ---------------------------------------------------------------------------

/// Whether an extension, with its dot or without, is that of a batch file.
pub open spec fn is_batch(ext: Seq<char>) -> bool {
    let e = match text::after_prefix(ext, "."@) {
        Some(rest) => rest,
        None => ext,
    };
    text::ascii_lowered(e) == text::ascii_lowered("CMD"@) || text::ascii_lowered(e)
        == text::ascii_lowered("BAT"@)
}

fn is_batch_ext(ext: &str) -> (r: bool)
    ensures
        r == is_batch(ext@),
{
    let e = match text::strip_prefix(ext, ".") {
        Some(rest) => rest,
        None => ext,
    };
    text::same_ignoring_ascii_case(e, "CMD") || text::same_ignoring_ascii_case(e, "BAT")
}

/// Whether a text holds white space.
pub open spec fn is_spaced(s: Seq<char>) -> bool {
    exists|i: int| 0 <= i < s.len() && text::is_white(#[trigger] s[i])
}

/// A path for `cmd.exe`, in quotation marks when it holds white space.
pub open spec fn shell_path(p: Seq<char>) -> Seq<char> {
    if is_spaced(p) {
        "\""@ + p + "\""@
    } else {
        p
    }
}

fn maybe_quote_win(p: &str) -> (r: String)
    ensures
        r@ == shell_path(p@),
{
    let cs = text::chars_of(p);
    let mut i: usize = 0;
    while i < cs.len()
        invariant
            i <= cs@.len(),
            cs@ == p@,
            forall|k: int| 0 <= k < i ==> !text::is_white(#[trigger] p@[k]),
        decreases cs.len() - i,
    {
        if text::is_whitespace(cs[i]) {
            assert(text::is_white(p@[i as int]));
            return text::cat3("\"", p, "\"");
        }
        i += 1;
    }
    p.to_owned()
}

/// Whether a text holds a slash or a backslash.
pub open spec fn has_separator(s: Seq<char>) -> bool {
    s.contains('/') || s.contains('\\')
}

fn holds_separator(s: &str) -> (r: bool)
    ensures
        r == has_separator(s@),
{
    let cs = text::chars_of(s);
    let i = text::find_char(&cs, 0, '/');
    let j = text::find_char(&cs, 0, '\\');
    let n: usize = cs.len();
    proof {
        if i < n {
            assert(s@[i as int] == '/');
        }
        if j < n {
            assert(s@[j as int] == '\\');
        }
    }
    i < n || j < n
}

/// The extension of a command: what stands behind its last dot, when that is
/// not its first character and no directory is behind it.
pub open spec fn ext_of(name: Seq<char>) -> Option<Seq<char>> {
    match text::last_of(name, '.') {
        Some(i) => if i > 0 && !has_separator(name.skip(i + 1)) {
            Some(name.skip(i + 1))
        } else {
            None
        },
        None => None,
    }
}

fn split_ext<'a>(name: &'a str) -> (r: Option<&'a str>)
    ensures
        text::opt_str(r) == ext_of(name@),
{
    let cs = text::chars_of(name);
    let n: usize = name.unicode_len();
    match text::find_last(&cs, '.') {
        Some(i) => {
            assert(name@.subrange(i + 1, n as int) =~= name@.skip(i + 1));
            let ext = name.substring_char(i + 1, n);
            if i > 0 && !holds_separator(ext) {
                Some(ext)
            } else {
                None
            }
        },
        None => None,
    }
}

// ---------------------------------------------------------------------------
// The search path
// ---------------------------------------------------------------------------

/// Texts trimmed, without those that are blank.
pub open spec fn trimmed_parts(parts: Seq<Seq<char>>) -> Seq<Seq<char>>
    decreases parts.len(),
{
    if parts.len() == 0 {
        Seq::empty()
    } else {
        let before = trimmed_parts(parts.drop_last());
        let t = text::trimmed(parts.last());
        if t.len() > 0 {
            before.push(t)
        } else {
            before
        }
    }
}

/// The directories of a search path.
pub open spec fn dirs_of(path: Seq<char>, windows: bool) -> Seq<Seq<char>> {
    trimmed_parts(
        text::pieces(
            path,
            if windows {
                ';'
            } else {
                ':'
            },
        ),
    )
}

/// Trim texts, and leave out those that are blank.
pub fn trim_parts(parts: &Vec<String>) -> (r: Vec<String>)
    ensures
        text::texts(r@) == trimmed_parts(text::texts(parts@)),
{
    let ghost model = text::texts(parts@);
    let mut r: Vec<String> = Vec::new();
    let mut i: usize = 0;
    assert(model.take(0) =~= Seq::empty());
    assert(text::texts(r@) =~= Seq::empty());
    while i < parts.len()
        invariant
            i <= parts@.len(),
            model == text::texts(parts@),
            text::texts(r@) == trimmed_parts(model.take(i as int)),
        decreases parts.len() - i,
    {
        proof {
            assert(model.take(i + 1).drop_last() =~= model.take(i as int));
            assert(model.take(i + 1).last() == parts@[i as int]@);
        }
        let t = text::trim(parts[i].as_str());
        if t.unicode_len() > 0 {
            let ghost before = text::texts(r@);
            let owned = t.to_owned();
            r.push(owned);
            assert(text::texts(r@) =~= before.push(owned@));
        }
        i += 1;
    }
    assert(model.take(i as int) =~= model);
    r
}

/// The directories of a search path.
pub fn split_path(p: &str, is_windows: bool) -> (r: Vec<String>)
    ensures
        text::texts(r@) == dirs_of(p@, is_windows),
{
    let parts = text::split_char(
        p,
        if is_windows {
            ';'
        } else {
            ':'
        },
    );
    trim_parts(&parts)
}

/// The listing of a directory.
pub open spec fn listing_of(listings: Seq<ListingView>, dir: Seq<char>) -> Option<ListingView>
    decreases listings.len(),
{
    if listings.len() == 0 {
        None
    } else if listings[0].dir == dir {
        Some(listings[0])
    } else {
        listing_of(listings.skip(1), dir)
    }
}

fn find_listing<'a>(listings: &'a Vec<DirListing>, dir: &str) -> (r: Option<&'a DirListing>)
    ensures
        match r {
            Some(l) => listing_of(listing_views(listings@), dir@) == Some(l@),
            None => listing_of(listing_views(listings@), dir@) is None,
        },
{
    let ghost model = listing_views(listings@);
    let mut i: usize = 0;
    assert(model.skip(0) =~= model);
    while i < listings.len()
        invariant
            i <= listings@.len(),
            model == listing_views(listings@),
            listing_of(model, dir@) == listing_of(model.skip(i as int), dir@),
        decreases listings.len() - i,
    {
        assert(model.skip(i as int)[0] == listings@[i as int]@);
        if text::same(listings[i].dir.as_str(), dir) {
            return Some(&listings[i]);
        }
        assert(model.skip(i as int).skip(1) =~= model.skip(i + 1));
        i += 1;
    }
    None
}

/// The first name that is the same up to case.
pub open spec fn same_name(names: Seq<Seq<char>>, want: Seq<char>) -> Option<Seq<char>>
    decreases names.len(),
{
    if names.len() == 0 {
        None
    } else if text::ascii_lowered(names[0]) == text::ascii_lowered(want) {
        Some(names[0])
    } else {
        same_name(names.skip(1), want)
    }
}

/// The name that an entry really has: that one exactly, else the first that is
/// the same up to case.
pub open spec fn real_name(names: Seq<Seq<char>>, want: Seq<char>) -> Option<Seq<char>> {
    if names.contains(want) {
        Some(want)
    } else {
        same_name(names, want)
    }
}

fn find_real_name(names: &Vec<String>, want: &str) -> (r: Option<String>)
    ensures
        text::opt_text(r) == real_name(text::texts(names@), want@),
{
    if text::lists(names, want) {
        return Some(want.to_owned());
    }
    let ghost model = text::texts(names@);
    let mut i: usize = 0;
    assert(model.skip(0) =~= model);
    while i < names.len()
        invariant
            i <= names@.len(),
            model == text::texts(names@),
            !model.contains(want@),
            same_name(model, want@) == same_name(model.skip(i as int), want@),
        decreases names.len() - i,
    {
        assert(model.skip(i as int)[0] == names@[i as int]@);
        if text::same_ignoring_ascii_case(names[i].as_str(), want) {
            return Some(names[i].clone());
        }
        assert(model.skip(i as int).skip(1) =~= model.skip(i + 1));
        i += 1;
    }
    None
}

/// The file that a name with one of the extensions has in a directory, and the
/// extension; the first extension wins.
pub open spec fn found_in(
    dir: ListingView,
    name: Seq<char>,
    exts: Seq<Seq<char>>,
) -> Option<(Seq<char>, Seq<char>)>
    decreases exts.len(),
{
    if exts.len() == 0 {
        None
    } else {
        match real_name(dir.names, name + exts[0]) {
            Some(actual) => Some((path::resolved(dir.dir, actual, true), exts[0])),
            None => found_in(dir, name, exts.skip(1)),
        }
    }
}

/// The file that a name with one of the extensions has in the search path; the
/// first directory wins.
pub open spec fn found_on_windows(
    dirs: Seq<Seq<char>>,
    listings: Seq<ListingView>,
    name: Seq<char>,
    exts: Seq<Seq<char>>,
) -> Option<(Seq<char>, Seq<char>)>
    decreases dirs.len(),
{
    if dirs.len() == 0 {
        None
    } else {
        let here = match listing_of(listings, dirs[0]) {
            Some(l) => found_in(l, name, exts),
            None => None,
        };
        match here {
            Some(f) => Some(f),
            None => found_on_windows(dirs.skip(1), listings, name, exts),
        }
    }
}

/// The file that a name has in the search path; the first directory wins.
pub open spec fn found_on_unix(
    dirs: Seq<Seq<char>>,
    listings: Seq<ListingView>,
    name: Seq<char>,
) -> Option<Seq<char>>
    decreases dirs.len(),
{
    if dirs.len() == 0 {
        None
    } else {
        match listing_of(listings, dirs[0]) {
            Some(l) => if l.files.contains(name) {
                Some(path::resolved(dirs[0], name, false))
            } else {
                found_on_unix(dirs.skip(1), listings, name)
            },
            None => found_on_unix(dirs.skip(1), listings, name),
        }
    }
}

fn search_dir(dir: &DirListing, name: &str, exts: &Vec<String>) -> (r: Option<(String, String)>)
    ensures
        crate::pi::sessions::pair_view(r) == found_in(dir@, name@, text::texts(exts@)),
{
    let ghost model = text::texts(exts@);
    let mut i: usize = 0;
    assert(model.skip(0) =~= model);
    while i < exts.len()
        invariant
            i <= exts@.len(),
            model == text::texts(exts@),
            found_in(dir@, name@, model) == found_in(dir@, name@, model.skip(i as int)),
        decreases exts.len() - i,
    {
        assert(model.skip(i as int)[0] == exts@[i as int]@);
        let want = text::cat2(name, exts[i].as_str());
        if let Some(actual) = find_real_name(&dir.names, want.as_str()) {
            return Some((path::resolve_path(dir.dir.as_str(), actual.as_str(), true), exts[i].clone()));
        }
        assert(model.skip(i as int).skip(1) =~= model.skip(i + 1));
        i += 1;
    }
    None
}

fn search_windows(
    dirs: &Vec<String>,
    listings: &Vec<DirListing>,
    name: &str,
    exts: &Vec<String>,
) -> (r: Option<(String, String)>)
    ensures
        crate::pi::sessions::pair_view(r) == found_on_windows(
            text::texts(dirs@),
            listing_views(listings@),
            name@,
            text::texts(exts@),
        ),
{
    let ghost model = text::texts(dirs@);
    let ghost ls = listing_views(listings@);
    let ghost es = text::texts(exts@);
    let mut i: usize = 0;
    assert(model.skip(0) =~= model);
    while i < dirs.len()
        invariant
            i <= dirs@.len(),
            model == text::texts(dirs@),
            ls == listing_views(listings@),
            es == text::texts(exts@),
            found_on_windows(model, ls, name@, es) == found_on_windows(
                model.skip(i as int),
                ls,
                name@,
                es,
            ),
        decreases dirs.len() - i,
    {
        assert(model.skip(i as int)[0] == dirs@[i as int]@);
        if let Some(l) = find_listing(listings, dirs[i].as_str()) {
            if let Some(f) = search_dir(l, name, exts) {
                return Some(f);
            }
        }
        assert(model.skip(i as int).skip(1) =~= model.skip(i + 1));
        i += 1;
    }
    None
}

fn search_unix(dirs: &Vec<String>, listings: &Vec<DirListing>, name: &str) -> (r: Option<String>)
    ensures
        text::opt_text(r) == found_on_unix(text::texts(dirs@), listing_views(listings@), name@),
{
    let ghost model = text::texts(dirs@);
    let ghost ls = listing_views(listings@);
    let mut i: usize = 0;
    assert(model.skip(0) =~= model);
    while i < dirs.len()
        invariant
            i <= dirs@.len(),
            model == text::texts(dirs@),
            ls == listing_views(listings@),
            found_on_unix(model, ls, name@) == found_on_unix(model.skip(i as int), ls, name@),
        decreases dirs.len() - i,
    {
        assert(model.skip(i as int)[0] == dirs@[i as int]@);
        if let Some(l) = find_listing(listings, dirs[i].as_str()) {
            if text::lists(&l.files, name) {
                return Some(path::resolve_path(dirs[i].as_str(), name, false));
            }
        }
        assert(model.skip(i as int).skip(1) =~= model.skip(i + 1));
        i += 1;
    }
    None
}

// ---------------------------------------------------------------------------
// The command
// ---------------------------------------------------------------------------

/// The extensions that a bare name can have on Windows, in order of preference.
pub open spec fn extensions(pathext: Option<Seq<char>>) -> Seq<Seq<char>> {
    let default = seq![".COM"@, ".EXE"@, ".BAT"@, ".CMD"@];
    match pathext {
        Some(e) => if text::trimmed(e).len() > 0 {
            trimmed_parts(text::pieces(e, ';'))
        } else {
            default
        },
        None => default,
    }
}

/// A program that is started as it is.
pub open spec fn directly(program: Seq<char>) -> ResolvedView {
    ResolvedView { program, cmd_args: Seq::empty() }
}

/// A batch file, started through the shell.
pub open spec fn through_shell(file: Seq<char>) -> ResolvedView {
    ResolvedView {
        program: "cmd.exe"@,
        cmd_args: seq!["/d"@, "/s"@, "/c"@, shell_path(file)],
    }
}

/// How a command is started. A name with a directory or an extension is taken
/// as it is; a bare name is looked for, and left to the system when it is not
/// found.
pub open spec fn resolved(
    command: Seq<char>,
    windows: bool,
    path: Option<Seq<char>>,
    pathext: Option<Seq<char>>,
    listings: Seq<ListingView>,
) -> ResolvedView {
    let name = text::trimmed(command);
    if has_separator(name) || ext_of(name) is Some {
        if windows && ext_of(name) is Some && is_batch(ext_of(name)->0) {
            through_shell(name)
        } else {
            directly(name)
        }
    } else if windows {
        match path {
            Some(p) => match found_on_windows(
                dirs_of(p, true),
                listings,
                name,
                extensions(pathext),
            ) {
                Some((file, ext)) => if is_batch(ext) {
                    through_shell(file)
                } else {
                    directly(file)
                },
                None => directly(name),
            },
            None => directly(name),
        }
    } else {
        match path {
            Some(p) => match found_on_unix(dirs_of(p, false), listings, name) {
                Some(file) => directly(file),
                None => directly(name),
            },
            None => directly(name),
        }
    }
}

fn resolve_directly(program: &str) -> (r: ResolvedPi)
    ensures
        r@ == directly(program@),
{
    let r = ResolvedPi { program: program.to_owned(), cmd_args: Vec::new() };
    assert(r@.cmd_args =~= Seq::empty());
    r
}

fn resolve_through_shell(file: &str) -> (r: ResolvedPi)
    ensures
        r@ == through_shell(file@),
{
    let mut cmd_args: Vec<String> = Vec::new();
    cmd_args.push("/d".to_owned());
    cmd_args.push("/s".to_owned());
    cmd_args.push("/c".to_owned());
    cmd_args.push(maybe_quote_win(file));
    let r = ResolvedPi { program: "cmd.exe".to_owned(), cmd_args };
    assert(r@.cmd_args =~= through_shell(file@).cmd_args);
    r
}

fn read_extensions(pathext: Option<&str>) -> (r: Vec<String>)
    ensures
        text::texts(r@) == extensions(text::opt_str(pathext)),
{
    if let Some(e) = pathext {
        if text::trim(e).unicode_len() > 0 {
            let parts = text::split_char(e, ';');
            return trim_parts(&parts);
        }
    }
    let mut r: Vec<String> = Vec::new();
    r.push(".COM".to_owned());
    r.push(".EXE".to_owned());
    r.push(".BAT".to_owned());
    r.push(".CMD".to_owned());
    assert(text::texts(r@) =~= extensions(text::opt_str(pathext)));
    r
}

/// Whether an operating system is Windows.
pub fn is_windows(os: &str) -> (r: bool)
    ensures
        r == (text::ascii_lowered(os@) == text::ascii_lowered("windows"@)),
{
    text::same_ignoring_ascii_case(os, "windows")
}

/// How the pi command is started. `os` is the operating system, `path` and
/// `pathext` are the values of `PATH` and `PATHEXT`, and `listings` says what
/// is in the directories of the search path.
pub fn resolve_pi_command(
    pi_command: &str,
    os: &str,
    path: Option<&str>,
    pathext: Option<&str>,
    listings: &Vec<DirListing>,
) -> (r: ResolvedPi)
    ensures
        r@ == resolved(
            pi_command@,
            text::ascii_lowered(os@) == text::ascii_lowered("windows"@),
            text::opt_str(path),
            text::opt_str(pathext),
            listing_views(listings@),
        ),
{
    let windows = is_windows(os);
    let name = text::trim(pi_command);
    let ext = split_ext(name);
    if holds_separator(name) || ext.is_some() {
        if let Some(e) = ext {
            if windows && is_batch_ext(e) {
                return resolve_through_shell(name);
            }
        }
        return resolve_directly(name);
    }
    match path {
        Some(p) => {
            let dirs = split_path(p, windows);
            if windows {
                let exts = read_extensions(pathext);
                match search_windows(&dirs, listings, name, &exts) {
                    Some((file, e)) => {
                        if is_batch_ext(e.as_str()) {
                            resolve_through_shell(file.as_str())
                        } else {
                            resolve_directly(file.as_str())
                        }
                    },
                    None => resolve_directly(name),
                }
            } else {
                match search_unix(&dirs, listings, name) {
                    Some(file) => resolve_directly(file.as_str()),
                    None => resolve_directly(name),
                }
            }
        },
        None => resolve_directly(name),
    }
}

/// Texts are trimmed one by one, in order, and only blank ones are left out.
pub proof fn parts_are_trimmed_in_order(parts: Seq<Seq<char>>, t: Seq<char>)
    ensures
        trimmed_parts(Seq::empty()).len() == 0,
        text::trimmed(t).len() > 0 ==> trimmed_parts(parts.push(t)) == trimmed_parts(parts).push(
            text::trimmed(t),
        ),
        text::trimmed(t).len() == 0 ==> trimmed_parts(parts.push(t)) == trimmed_parts(parts),
{
    assert(parts.push(t).drop_last() =~= parts);
}

/// Every text that is not blank is among the trimmed ones.
pub proof fn no_part_is_lost(parts: Seq<Seq<char>>, k: int)
    requires
        0 <= k < parts.len(),
        text::trimmed(parts[k]).len() > 0,
    ensures
        trimmed_parts(parts).contains(text::trimmed(parts[k])),
    decreases parts.len(),
{
    let all = trimmed_parts(parts);
    if k < parts.len() - 1 {
        let front = parts.drop_last();
        no_part_is_lost(front, k);
        let before = trimmed_parts(front);
        let i = choose|i: int| 0 <= i < before.len() && before[i] == text::trimmed(parts[k]);
        assert(all[i] == before[i]);
    } else {
        assert(all[all.len() - 1] == text::trimmed(parts[k]));
    }
}

/// The directories of a search path are its parts, in order.
pub proof fn directories_come_in_order(first: Seq<char>, rest: Seq<char>, windows: bool)
    requires
        !first.contains(if windows {
            ';'
        } else {
            ':'
        }),
        text::trimmed(first) == first,
        first.len() > 0,
    ensures
        dirs_of(first, windows) == seq![first],
        dirs_of(
            first + seq![
                if windows {
                    ';'
                } else {
                    ':'
                },
            ] + rest,
            windows,
        ) == seq![first] + dirs_of(rest, windows),
{
    let c = if windows {
        ';'
    } else {
        ':'
    };
    let s = first + seq![c] + rest;
    assert forall|j: int| 0 <= j < first.len() implies s[j] != c && first[j] != c by {
        assert(first.contains(first[j]));
    }
    text::before_unique(s, c, first.len() as int);
    assert(s.take(first.len() as int) =~= first);
    assert(s.skip(first.len() as int + 1) =~= rest);
    text::before_unique(first, c, first.len() as int);
    assert(text::pieces(first, c) == seq![first]);
    front_is_kept(first, text::pieces(rest, c));
    front_is_kept(first, Seq::empty());
    assert(seq![first] + Seq::<Seq<char>>::empty() =~= seq![first]);
    assert(trimmed_parts(Seq::empty()) =~= Seq::<Seq<char>>::empty());
}

proof fn front_is_kept(first: Seq<char>, rest: Seq<Seq<char>>)
    requires
        text::trimmed(first) == first,
        first.len() > 0,
    ensures
        trimmed_parts(seq![first] + rest) == seq![first] + trimmed_parts(rest),
    decreases rest.len(),
{
    let all = seq![first] + rest;
    reveal_with_fuel(trimmed_parts, 2);
    if rest.len() == 0 {
        assert(all.drop_last() =~= Seq::<Seq<char>>::empty());
        assert(trimmed_parts(all) =~= seq![first] + trimmed_parts(rest));
    } else {
        front_is_kept(first, rest.drop_last());
        assert(all.drop_last() =~= seq![first] + rest.drop_last());
        assert(trimmed_parts(all) =~= seq![first] + trimmed_parts(rest));
    }
}

/// A command that names a place, or a file with an ending, is run as it is
/// written; a batch file of Windows through its shell.
pub proof fn places_are_run_as_they_are(
    command: Seq<char>,
    windows: bool,
    path: Option<Seq<char>>,
    pathext: Option<Seq<char>>,
    listings: Seq<ListingView>,
)
    requires
        text::trimmed(command) == command,
        command.contains('/') || command.contains('\\'),
    ensures
        !windows ==> resolved(command, windows, path, pathext, listings) == directly(command),
        ext_of(command) is None ==> resolved(command, windows, path, pathext, listings)
            == directly(command),
        windows ==> (ext_of(command) matches Some(e) ==> is_batch(e) ==> resolved(
            command,
            windows,
            path,
            pathext,
            listings,
        ) == through_shell(command)),
        directly(command).program == command,
        directly(command).cmd_args.len() == 0,
        through_shell(command).program == "cmd.exe"@,
        through_shell(command).cmd_args.len() == 4,
        !is_spaced(command) ==> through_shell(command).cmd_args[3] == command,
{
}

/// A name alone is looked for in the directories of the search path, in order:
/// the first that has it counts. Without one the name is run as it is.
pub proof fn the_first_directory_counts(
    dirs: Seq<Seq<char>>,
    listings: Seq<ListingView>,
    name: Seq<char>,
    k: int,
)
    requires
        0 <= k <= dirs.len(),
        forall|j: int|
            0 <= j < k ==> (listing_of(listings, #[trigger] dirs[j]) matches Some(l)
                ==> !l.files.contains(name)),
        k < dirs.len() ==> (listing_of(listings, dirs[k]) matches Some(l) && l.files.contains(
            name,
        )),
    ensures
        found_on_unix(dirs, listings, name) == (if k < dirs.len() {
            Some(path::resolved(dirs[k], name, false))
        } else {
            None
        }),
    decreases dirs.len(),
{
    if k > 0 {
        assert(listing_of(listings, dirs[0]) matches Some(l) ==> !l.files.contains(name));
        let rest = dirs.skip(1);
        assert forall|j: int| 0 <= j < k - 1 implies (listing_of(
            listings,
            #[trigger] rest[j],
        ) matches Some(l) ==> !l.files.contains(name)) by {
            assert(rest[j] == dirs[j + 1]);
        }
        if k < dirs.len() {
            assert(rest[k - 1] == dirs[k]);
        }
        the_first_directory_counts(rest, listings, name, k - 1);
    }
}

/// What was found is what is run.
pub proof fn what_is_found_is_run(
    name: Seq<char>,
    search: Seq<char>,
    pathext: Option<Seq<char>>,
    listings: Seq<ListingView>,
)
    requires
        text::trimmed(name) == name,
        !has_separator(name),
        ext_of(name) is None,
    ensures
        ({
            let r = resolved(name, false, Some(search), pathext, listings);
            match found_on_unix(dirs_of(search, false), listings, name) {
                Some(file) => r.program == file && r.cmd_args.len() == 0,
                None => r.program == name && r.cmd_args.len() == 0,
            }
        }),
        ({
            let r = resolved(name, true, Some(search), pathext, listings);
            match found_on_windows(dirs_of(search, true), listings, name, extensions(pathext)) {
                Some((file, ext)) => if is_batch(ext) {
                    r.program == "cmd.exe"@ && r.cmd_args.len() == 4 && r.cmd_args[3]
                        == shell_path(file)
                } else {
                    r.program == file && r.cmd_args.len() == 0
                },
                None => r.program == name && r.cmd_args.len() == 0,
            }
        }),
        resolved(name, false, None, pathext, listings).program == name,
{
}

/// On Windows the first directory that has the name with one of the endings
/// counts, and in it the first ending that fits.
pub proof fn endings_are_tried_in_order(
    dir: ListingView,
    name: Seq<char>,
    exts: Seq<Seq<char>>,
    k: int,
)
    requires
        0 <= k <= exts.len(),
        forall|j: int| 0 <= j < k ==> real_name(dir.names, name + #[trigger] exts[j]) is None,
        k < exts.len() ==> dir.names.contains(name + exts[k]),
    ensures
        found_in(dir, name, exts) == (if k < exts.len() {
            Some((path::resolved(dir.dir, name + exts[k], true), exts[k]))
        } else {
            None
        }),
    decreases exts.len(),
{
    if k > 0 {
        assert(real_name(dir.names, name + exts[0]) is None);
        let rest = exts.skip(1);
        assert forall|j: int| 0 <= j < k - 1 implies real_name(
            dir.names,
            name + #[trigger] rest[j],
        ) is None by {
            assert(rest[j] == exts[j + 1]);
        }
        if k < exts.len() {
            assert(rest[k - 1] == exts[k]);
        }
        endings_are_tried_in_order(dir, name, rest, k - 1);
    }
}

} // verus!
