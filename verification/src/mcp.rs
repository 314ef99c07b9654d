//! The client's MCP servers: their definitions are checked, handed to pi, and
//! the session waits until pi has registered each of them.

use crate::json;
use crate::json::{Json, JsonMap, JsonView};
use crate::path;
use crate::text;
use vstd::prelude::*;
use vstd::string::*;

verus! {

/// The variable of the environment that switches MCP on.
pub const MCP_ENABLE_ENV: &'static str = "PI_ACP_ENABLE_MCP";

/// The variable of pi's environment that holds the servers.
pub const MCP_SERVERS_ENV: &'static str = "PI_ACP_MCP_SERVERS_JSON";

/// What every line begins with that reports a registration.
pub const MCP_MARKER_PREFIX: &'static str = "PI_ACP_MCP:";

/// How long a session waits for the registrations, in seconds.
pub const MCP_REGISTER_TIMEOUT_SECS: u64 = 15;

/// The version of the extension that registers the servers.
pub const REGISTRAR_VERSION: &'static str = "w483-v1";

// ---------------------------------------------------------------------------
// Servers as the client declares them
// ---------------------------------------------------------------------------

/// A variable of a server's environment, or a header of its requests.
#[derive(Debug)]
pub struct NamedValue {
    /// Its name.
    pub name: String,
    /// Its value.
    pub value: String,
}

/// A server that runs as a process.
#[derive(Debug)]
pub struct McpServerStdio {
    /// Its name.
    pub name: String,
    /// The command that starts it.
    pub command: String,
    /// The arguments of the command.
    pub args: Vec<String>,
    /// The variables of its environment.
    pub env: Vec<NamedValue>,
}

/// A server that is reached over HTTP.
#[derive(Debug)]
pub struct McpServerHttp {
    /// Its name.
    pub name: String,
    /// Where it is reached.
    pub url: String,
    /// The headers of the requests.
    pub headers: Vec<NamedValue>,
}

/// A server as the client declares it.
#[derive(Debug)]
pub enum McpServer {
    /// A process.
    Stdio(McpServerStdio),
    /// Over HTTP.
    Http(McpServerHttp),
    /// Over HTTP with server-sent events.
    Sse(McpServerHttp),
    /// Over something else.
    Other,
}

/// The models of a list of named values.
pub open spec fn pair_views(v: Seq<NamedValue>) -> Seq<(Seq<char>, Seq<char>)> {
    v.map_values(|n: NamedValue| (n.name@, n.value@))
}

/// The model of an [`McpServer`].
pub enum ServerView {
    Stdio {
        name: Seq<char>,
        command: Seq<char>,
        args: Seq<Seq<char>>,
        env: Seq<(Seq<char>, Seq<char>)>,
    },
    Remote { name: Seq<char>, url: Seq<char>, headers: Seq<(Seq<char>, Seq<char>)>, sse: bool },
    Other,
}

impl View for McpServer {
    type V = ServerView;

    open spec fn view(&self) -> ServerView {
        match self {
            McpServer::Stdio(s) => ServerView::Stdio {
                name: s.name@,
                command: s.command@,
                args: text::texts(s.args@),
                env: pair_views(s.env@),
            },
            McpServer::Http(s) => ServerView::Remote {
                name: s.name@,
                url: s.url@,
                headers: pair_views(s.headers@),
                sse: false,
            },
            McpServer::Sse(s) => ServerView::Remote {
                name: s.name@,
                url: s.url@,
                headers: pair_views(s.headers@),
                sse: true,
            },
            McpServer::Other => ServerView::Other,
        }
    }
}

// ---------------------------------------------------------------------------
// Servers as pi takes them
// ---------------------------------------------------------------------------

/// Texts by name.
#[derive(Debug)]
pub struct TextMap {
    map: JsonMap,
}

impl View for TextMap {
    type V = Seq<(Seq<char>, JsonView)>;

    closed spec fn view(&self) -> Seq<(Seq<char>, JsonView)> {
        self.map@
    }
}

/// Whether all values are texts.
pub open spec fn all_texts(es: Seq<(Seq<char>, JsonView)>) -> bool {
    forall|i: int| 0 <= i < es.len() ==> (#[trigger] es[i]).1 is Str
}

proof fn put_texts(es: Seq<(Seq<char>, JsonView)>, name: Seq<char>, t: Seq<char>)
    requires
        all_texts(es),
    ensures
        all_texts(json::put(es, name, JsonView::Str(t))),
    decreases es.len(),
{
    if es.len() > 0 {
        let rest = es.skip(1);
        assert(all_texts(rest)) by {
            assert forall|i: int| 0 <= i < rest.len() implies (#[trigger] rest[i]).1 is Str by {
                assert(rest[i] == es[i + 1]);
            }
        }
        put_texts(rest, name, t);
        let r = json::put(es, name, JsonView::Str(t));
        assert forall|i: int| 0 <= i < r.len() implies (#[trigger] r[i]).1 is Str by {
            if i > 0 {
                if es[0].0 == name {
                    assert(r[i] == rest[i - 1]);
                } else {
                    assert(r[i] == json::put(rest, name, JsonView::Str(t))[i - 1]);
                }
            } else {
                assert(es[0].0 == name ==> r[0] == (name, JsonView::Str(t)));
                assert(es[0].0 != name ==> r[0] == es[0]);
            }
        }
    }
}

impl TextMap {
    #[verifier::type_invariant]
    spec fn holds_texts(self) -> bool {
        all_texts(self.map@)
    }

    /// The text of a name.
    pub fn get(&self, name: &str) -> (r: Option<&str>)
        ensures
            text::opt_str(r) == json::str_member(JsonView::Object(self@), name@),
    {
        match self.map.get(name) {
            Some(v) => v.as_str(),
            None => None,
        }
    }
}

impl Clone for TextMap {
    fn clone(&self) -> (r: TextMap)
        ensures
            r@ == self@,
    {
        proof {
            use_type_invariant(self);
        }
        TextMap { map: self.map.clone() }
    }
}

/// The last value of every name.
pub open spec fn last_values(pairs: Seq<(Seq<char>, Seq<char>)>) -> Seq<(Seq<char>, JsonView)>
    decreases pairs.len(),
{
    if pairs.len() == 0 {
        Seq::empty()
    } else {
        json::put(
            last_values(pairs.drop_last()),
            pairs.last().0,
            JsonView::Str(pairs.last().1),
        )
    }
}

/// Whether a name is blank.
pub open spec fn has_blank_name(pairs: Seq<(Seq<char>, Seq<char>)>) -> bool {
    exists|i: int| 0 <= i < pairs.len() && text::trimmed((#[trigger] pairs[i]).0).len() == 0
}

/// The values by name, when there are any.
pub open spec fn values_by_name(pairs: Seq<(Seq<char>, Seq<char>)>) -> Option<
    Seq<(Seq<char>, JsonView)>,
> {
    if pairs.len() == 0 {
        None
    } else {
        Some(last_values(pairs))
    }
}

/// The definition of a server.
#[derive(Debug)]
pub struct ServerEntry {
    /// The command that starts it.
    pub command: Option<String>,
    /// The arguments of the command.
    pub args: Option<Vec<String>>,
    /// The variables of its environment.
    pub env: Option<TextMap>,
    /// Where it is reached.
    pub url: Option<String>,
    /// The headers of the requests.
    pub headers: Option<TextMap>,
    /// The transport, when it is fixed.
    pub http_transport: Option<String>,
}

/// The model of a [`ServerEntry`].
pub struct EntryView {
    pub command: Option<Seq<char>>,
    pub args: Option<Seq<Seq<char>>>,
    pub env: Option<Seq<(Seq<char>, JsonView)>>,
    pub url: Option<Seq<char>>,
    pub headers: Option<Seq<(Seq<char>, JsonView)>>,
    pub http_transport: Option<Seq<char>>,
}

/// The model of optional texts by name.
pub open spec fn opt_map(m: Option<TextMap>) -> Option<Seq<(Seq<char>, JsonView)>> {
    match m {
        Some(x) => Some(x@),
        None => None,
    }
}

impl View for ServerEntry {
    type V = EntryView;

    open spec fn view(&self) -> EntryView {
        EntryView {
            command: text::opt_text(self.command),
            args: match self.args {
                Some(a) => Some(text::texts(a@)),
                None => None,
            },
            env: opt_map(self.env),
            url: text::opt_text(self.url),
            headers: opt_map(self.headers),
            http_transport: text::opt_text(self.http_transport),
        }
    }
}

/// A server that was checked.
#[derive(Debug)]
pub struct McpServerSpec {
    /// Its name.
    pub name: String,
    /// Its definition.
    pub definition: ServerEntry,
}

/// The model of an [`McpServerSpec`].
pub struct SpecView {
    pub name: Seq<char>,
    pub definition: EntryView,
}

impl View for McpServerSpec {
    type V = SpecView;

    open spec fn view(&self) -> SpecView {
        SpecView { name: self.name@, definition: self.definition@ }
    }
}

/// The models of a list of servers.
pub open spec fn spec_views(v: Seq<McpServerSpec>) -> Seq<SpecView> {
    v.map_values(|s: McpServerSpec| s@)
}

/// The models of a list of declared servers.
pub open spec fn server_views(v: Seq<McpServer>) -> Seq<ServerView> {
    v.map_values(|s: McpServer| s@)
}

// ---------------------------------------------------------------------------
// Checking
// ---------------------------------------------------------------------------

/// What begins a complaint about a server.
pub open spec fn about(name: Seq<char>) -> Seq<char> {
    "MCP server \""@ + name + "\""@
}

/// What is wrong with a name: it is blank, or has several lines.
pub open spec fn name_problem(name: Seq<char>) -> Option<Seq<char>> {
    if text::trimmed(name).len() == 0 {
        Some("MCP server name must be a non-empty string"@)
    } else if name.contains('\n') || name.contains('\r') {
        Some(about(name) + ": name must not contain line breaks"@)
    } else {
        None
    }
}

/// What is wrong with an address: it is blank, or not one of HTTP.
pub open spec fn url_problem(url: Seq<char>, name: Seq<char>) -> Option<Seq<char>> {
    let t = text::trimmed(url);
    if t.len() == 0 {
        Some(about(name) + ": http/sse transport requires a non-empty url"@)
    } else if !text::begins(t, "http://"@) && !text::begins(t, "https://"@) {
        Some(
            about(name) + ": url must use http:// or https:// (got "@ + text::quoted(t) + ")"@,
        )
    } else {
        None
    }
}

/// What is wrong with a server.
pub open spec fn problem(s: ServerView) -> Option<Seq<char>> {
    match s {
        ServerView::Stdio { name, command, args, env } => if name_problem(name) is Some {
            name_problem(name)
        } else if command.len() == 0 {
            Some(about(name) + ": stdio transport requires a non-empty command"@)
        } else if has_blank_name(env) {
            Some(about(name) + ": env variable with an empty name"@)
        } else {
            None
        },
        ServerView::Remote { name, url, headers, sse } => if name_problem(name) is Some {
            name_problem(name)
        } else if url_problem(url, name) is Some {
            url_problem(url, name)
        } else if has_blank_name(headers) {
            Some(about(name) + ": header with an empty name"@)
        } else {
            None
        },
        ServerView::Other => Some(
            "unsupported MCP transport: only stdio, http and sse servers are supported (MCP-over-ACP is not implemented)"@,
        ),
    }
}

/// A server as pi takes it.
pub open spec fn spec_of(s: ServerView) -> SpecView {
    match s {
        ServerView::Stdio { name, command, args, env } => SpecView {
            name,
            definition: EntryView {
                command: Some(command),
                args: Some(args),
                env: values_by_name(env),
                url: None,
                headers: None,
                http_transport: None,
            },
        },
        ServerView::Remote { name, url, headers, sse } => SpecView {
            name,
            definition: EntryView {
                command: None,
                args: None,
                env: None,
                url: Some(text::trimmed(url)),
                headers: values_by_name(headers),
                http_transport: if sse {
                    Some("sse"@)
                } else {
                    None
                },
            },
        },
        ServerView::Other => arbitrary(),
    }
}

/// Whether a list has a server with a name.
pub open spec fn declares(specs: Seq<SpecView>, name: Seq<char>) -> bool {
    exists|i: int| 0 <= i < specs.len() && (#[trigger] specs[i]).name == name
}

/// The servers as pi takes them, or what is wrong with the first that it
/// cannot take.
pub open spec fn normalized(servers: Seq<ServerView>) -> Result<Seq<SpecView>, Seq<char>>
    decreases servers.len(),
{
    if servers.len() == 0 {
        Ok(Seq::empty())
    } else {
        match normalized(servers.drop_last()) {
            Err(e) => Err(e),
            Ok(before) => match problem(servers.last()) {
                Some(e) => Err(e),
                None => if declares(before, spec_of(servers.last()).name) {
                    Err(about(spec_of(servers.last()).name) + " is declared more than once"@)
                } else {
                    Ok(before.push(spec_of(servers.last())))
                },
            },
        }
    }
}

fn complain(name: &str, what: &str) -> (r: String)
    ensures
        r@ == about(name@) + what@,
{
    let a = text::cat3("MCP server \"", name, "\"");
    text::cat2(a.as_str(), what)
}

fn holds_char(s: &str, c: char) -> (r: bool)
    ensures
        r == s@.contains(c),
{
    let cs = text::chars_of(s);
    let i = text::find_char(&cs, 0, c);
    if i < cs.len() {
        assert(s@[i as int] == c);
        true
    } else {
        false
    }
}

fn checked_name(name: &str) -> (r: Option<String>)
    ensures
        text::opt_text(r) == name_problem(name@),
{
    if text::trim(name).unicode_len() == 0 {
        return Some("MCP server name must be a non-empty string".to_owned());
    }
    if holds_char(name, '\n') || holds_char(name, '\r') {
        return Some(complain(name, ": name must not contain line breaks"));
    }
    None
}

fn checked_http_url(url: &str, name: &str) -> (r: Option<String>)
    ensures
        text::opt_text(r) == url_problem(url@, name@),
{
    let t = text::trim(url);
    if t.unicode_len() == 0 {
        return Some(complain(name, ": http/sse transport requires a non-empty url"));
    }
    if !text::starts_with(t, "http://") && !text::starts_with(t, "https://") {
        let a = complain(name, ": url must use http:// or https:// (got ");
        let q = text::quote(t);
        return Some(text::cat3(a.as_str(), q.as_str(), ")"));
    }
    None
}

fn any_blank_name(pairs: &Vec<NamedValue>) -> (r: bool)
    ensures
        r == has_blank_name(pair_views(pairs@)),
{
    let mut i: usize = 0;
    while i < pairs.len()
        invariant
            i <= pairs@.len(),
            forall|k: int| 0 <= k < i ==> text::trimmed((#[trigger] pairs@[k]).name@).len() > 0,
        decreases pairs.len() - i,
    {
        if text::trim(pairs[i].name.as_str()).unicode_len() == 0 {
            assert(text::trimmed(pair_views(pairs@)[i as int].0).len() == 0);
            return true;
        }
        i += 1;
    }
    assert forall|k: int| 0 <= k < pairs@.len() implies text::trimmed(
        (#[trigger] pair_views(pairs@)[k]).0,
    ).len() > 0 by {
        assert(text::trimmed(pairs@[k].name@).len() > 0);
    }
    false
}

fn map_of(pairs: &Vec<NamedValue>) -> (r: Option<TextMap>)
    ensures
        opt_map(r) == values_by_name(pair_views(pairs@)),
{
    if pairs.len() == 0 {
        return None;
    }
    let ghost model = pair_views(pairs@);
    let mut map = JsonMap::new();
    let mut i: usize = 0;
    assert(model.take(0) =~= Seq::empty());
    while i < pairs.len()
        invariant
            i <= pairs@.len(),
            model == pair_views(pairs@),
            map@ == last_values(model.take(i as int)),
            all_texts(map@),
        decreases pairs.len() - i,
    {
        proof {
            put_texts(map@, pairs@[i as int].name@, pairs@[i as int].value@);
            assert(model.take(i + 1).drop_last() =~= model.take(i as int));
            assert(model.take(i + 1).last() == (pairs@[i as int].name@, pairs@[i as int].value@));
        }
        map = map.with(pairs[i].name.as_str(), Json::text(pairs[i].value.as_str()));
        i += 1;
    }
    assert(model.take(i as int) =~= model);
    Some(TextMap { map })
}

/// What a checked server is to the model.
pub open spec fn one_view(r: Result<McpServerSpec, String>) -> Result<SpecView, Seq<char>> {
    match r {
        Ok(s) => Ok(s@),
        Err(e) => Err(e@),
    }
}

/// A server, or what is wrong with it.
pub open spec fn checked(s: ServerView) -> Result<SpecView, Seq<char>> {
    match problem(s) {
        Some(e) => Err(e),
        None => Ok(spec_of(s)),
    }
}

fn normalize_remote(s: &McpServerHttp, sse: bool) -> (r: Result<McpServerSpec, String>)
    ensures
        one_view(r) == checked(
            ServerView::Remote {
                name: s.name@,
                url: s.url@,
                headers: pair_views(s.headers@),
                sse,
            },
        ),
{
    if let Some(e) = checked_name(s.name.as_str()) {
        return Err(e);
    }
    if let Some(e) = checked_http_url(s.url.as_str(), s.name.as_str()) {
        return Err(e);
    }
    if any_blank_name(&s.headers) {
        return Err(complain(s.name.as_str(), ": header with an empty name"));
    }
    Ok(
        McpServerSpec {
            name: s.name.clone(),
            definition: ServerEntry {
                command: None,
                args: None,
                env: None,
                url: Some(text::trim(s.url.as_str()).to_owned()),
                headers: map_of(&s.headers),
                http_transport: if sse {
                    Some("sse".to_owned())
                } else {
                    None
                },
            },
        },
    )
}

/// Check a server.
pub fn normalize_one(server: &McpServer) -> (r: Result<McpServerSpec, String>)
    ensures
        one_view(r) == checked(server@),
{
    match server {
        McpServer::Stdio(s) => {
            if let Some(e) = checked_name(s.name.as_str()) {
                return Err(e);
            }
            if s.command.as_str().unicode_len() == 0 {
                return Err(
                    complain(
                        s.name.as_str(),
                        ": stdio transport requires a non-empty command",
                    ),
                );
            }
            if any_blank_name(&s.env) {
                return Err(complain(s.name.as_str(), ": env variable with an empty name"));
            }
            Ok(
                McpServerSpec {
                    name: s.name.clone(),
                    definition: ServerEntry {
                        command: Some(s.command.clone()),
                        args: Some(text::clone_texts(&s.args)),
                        env: map_of(&s.env),
                        url: None,
                        headers: None,
                        http_transport: None,
                    },
                },
            )
        },
        McpServer::Http(s) => normalize_remote(s, false),
        McpServer::Sse(s) => normalize_remote(s, true),
        McpServer::Other => Err(
            "unsupported MCP transport: only stdio, http and sse servers are supported (MCP-over-ACP is not implemented)".to_owned(),
        ),
    }
}

fn is_declared(specs: &Vec<McpServerSpec>, name: &str) -> (r: bool)
    ensures
        r == declares(spec_views(specs@), name@),
{
    let mut i: usize = 0;
    while i < specs.len()
        invariant
            i <= specs@.len(),
            forall|k: int| 0 <= k < i ==> (#[trigger] specs@[k]).name@ != name@,
        decreases specs.len() - i,
    {
        if text::same(specs[i].name.as_str(), name) {
            assert(spec_views(specs@)[i as int].name == name@);
            return true;
        }
        i += 1;
    }
    assert forall|k: int| 0 <= k < specs@.len() implies (#[trigger] spec_views(specs@)[k]).name
        != name@ by {
        assert(specs@[k].name@ != name@);
    }
    false
}

/// What checked servers are to the model.
pub open spec fn all_view(r: Result<Vec<McpServerSpec>, String>) -> Result<
    Seq<SpecView>,
    Seq<char>,
> {
    match r {
        Ok(s) => Ok(spec_views(s@)),
        Err(e) => Err(e@),
    }
}

proof fn first_problem_stays(servers: Seq<ServerView>, i: int)
    requires
        0 <= i <= servers.len(),
        normalized(servers.take(i)) is Err,
    ensures
        normalized(servers) == normalized(servers.take(i)),
    decreases servers.len() - i,
{
    if i == servers.len() {
        assert(servers.take(i) =~= servers);
    } else {
        assert(servers.take(i + 1).drop_last() =~= servers.take(i));
        first_problem_stays(servers, i + 1);
    }
}

/// Check the servers that the client declares.
pub fn normalize_mcp_servers(servers: &Vec<McpServer>) -> (r: Result<Vec<McpServerSpec>, String>)
    ensures
        all_view(r) == normalized(server_views(servers@)),
{
    let ghost model = server_views(servers@);
    let mut out: Vec<McpServerSpec> = Vec::new();
    let mut i: usize = 0;
    assert(model.take(0) =~= Seq::empty());
    assert(spec_views(out@) =~= Seq::empty());
    while i < servers.len()
        invariant
            i <= servers@.len(),
            model == server_views(servers@),
            normalized(model.take(i as int)) == Ok::<_, Seq<char>>(spec_views(out@)),
        decreases servers.len() - i,
    {
        proof {
            assert(model.take(i + 1).drop_last() =~= model.take(i as int));
            assert(model.take(i + 1).last() == servers@[i as int]@);
        }
        match normalize_one(&servers[i]) {
            Err(e) => {
                proof {
                    first_problem_stays(model, i + 1);
                }
                return Err(e);
            },
            Ok(s) => {
                if is_declared(&out, s.name.as_str()) {
                    proof {
                        first_problem_stays(model, i + 1);
                    }
                    return Err(complain(s.name.as_str(), " is declared more than once"));
                }
                let ghost before = spec_views(out@);
                out.push(s);
                assert(spec_views(out@) =~= before.push(s@));
            },
        }
        i += 1;
    }
    assert(model.take(i as int) =~= model);
    Ok(out)
}

/// Servers that were checked have different names, one for each that was
/// declared, and no name has several lines.
pub proof fn checked_names_are_distinct(servers: Seq<ServerView>)
    requires
        normalized(servers) is Ok,
    ensures
        normalized(servers)->Ok_0.len() == servers.len(),
        forall|i: int, j: int|
            0 <= i < j < servers.len() ==> (#[trigger] normalized(servers)->Ok_0[i]).name != (
            #[trigger] normalized(servers)->Ok_0[j]).name,
        forall|i: int|
            0 <= i < servers.len() ==> name_problem(
                (#[trigger] normalized(servers)->Ok_0[i]).name,
            ) is None,
    decreases servers.len(),
{
    if servers.len() > 0 {
        checked_names_are_distinct(servers.drop_last());
        let before = normalized(servers.drop_last())->Ok_0;
        let all = normalized(servers)->Ok_0;
        assert forall|i: int, j: int| 0 <= i < j < all.len() implies (#[trigger] all[i]).name != (
        #[trigger] all[j]).name by {
            assert(all[i] == before[i]);
            if j < before.len() {
                assert(all[j] == before[j]);
            }
        }
        assert forall|i: int| 0 <= i < all.len() implies name_problem((#[trigger] all[i]).name)
            is None by {
            if i < before.len() {
                assert(all[i] == before[i]);
            }
        }
    }
}

// ---------------------------------------------------------------------------
// Availability
// ---------------------------------------------------------------------------

/// Whether MCP is switched on, given the value of [`MCP_ENABLE_ENV`].
pub open spec fn switched_on(value: Option<Seq<char>>) -> bool {
    match value {
        Some(v) => text::ascii_lowered(text::trimmed(v)) == text::ascii_lowered("true"@),
        None => false,
    }
}

/// Whether MCP is switched on, given the value of [`MCP_ENABLE_ENV`].
pub fn mcp_enabled(value: Option<&str>) -> (r: bool)
    ensures
        r == switched_on(text::opt_str(value)),
{
    match value {
        Some(v) => text::same_ignoring_ascii_case(text::trim(v), "true"),
        None => false,
    }
}

/// The file that is there when pi's MCP adapter is installed.
pub open spec fn adapter_manifest_of(agent_dir: Seq<char>, windows: bool) -> Seq<char> {
    path::resolved(
        path::resolved(
            path::resolved(path::resolved(agent_dir, "npm"@, windows), "node_modules"@, windows),
            "pi-mcp-adapter"@,
            windows,
        ),
        "package.json"@,
        windows,
    )
}

/// The file that is there when pi's MCP adapter is installed.
pub fn adapter_manifest(agent_dir: &str, windows: bool) -> (r: String)
    ensures
        r@ == adapter_manifest_of(agent_dir@, windows),
{
    let a = path::resolve_path(agent_dir, "npm", windows);
    let b = path::resolve_path(a.as_str(), "node_modules", windows);
    let c = path::resolve_path(b.as_str(), "pi-mcp-adapter", windows);
    path::resolve_path(c.as_str(), "package.json", windows)
}

/// Whether servers over HTTP, without and with server-sent events, are
/// announced to the client: when MCP is on and the adapter is there.
pub open spec fn advertised(enabled: bool, adapter_present: bool) -> (bool, bool) {
    (enabled && adapter_present, enabled && adapter_present)
}

/// Whether servers over HTTP, without and with server-sent events, are
/// announced to the client.
pub fn advertise_mcp_capabilities(enabled: bool, adapter_present: bool) -> (r: (bool, bool))
    ensures
        r == advertised(enabled, adapter_present),
{
    let on = enabled && adapter_present;
    (on, on)
}

// ---------------------------------------------------------------------------
// Reports of the registrations
// ---------------------------------------------------------------------------

/// What lines report.
#[derive(Debug)]
pub struct McpHandshake {
    /// The servers that were registered.
    pub registered: Vec<String>,
    /// The servers that were not, and why.
    pub failed: Vec<(String, String)>,
}

/// What a line reports.
pub enum MarkerView {
    Registered(Seq<char>),
    Failed(Seq<char>, Seq<char>),
    Nothing,
}

/// What a line reports.
pub open spec fn marker(line: Seq<char>) -> MarkerView {
    match text::after_prefix(line, MCP_MARKER_PREFIX@) {
        None => MarkerView::Nothing,
        Some(body) => match text::after_prefix(body, "registered:"@) {
            Some(name) => if name.len() > 0 {
                MarkerView::Registered(name)
            } else {
                MarkerView::Nothing
            },
            None => match text::after_prefix(body, "failed:"@) {
                Some(rest) => {
                    let parts = match text::cut(rest, ':') {
                        Some(p) => p,
                        None => (rest, "registration failed"@),
                    };
                    if parts.0.len() > 0 {
                        MarkerView::Failed(parts.0, parts.1)
                    } else {
                        MarkerView::Nothing
                    }
                },
                None => MarkerView::Nothing,
            },
        },
    }
}

/// The servers that lines report as registered.
pub open spec fn registered_in(lines: Seq<Seq<char>>) -> Seq<Seq<char>>
    decreases lines.len(),
{
    if lines.len() == 0 {
        Seq::empty()
    } else {
        match marker(lines.last()) {
            MarkerView::Registered(n) => registered_in(lines.drop_last()).push(n),
            _ => registered_in(lines.drop_last()),
        }
    }
}

/// The servers that lines report as failed.
pub open spec fn failed_in(lines: Seq<Seq<char>>) -> Seq<(Seq<char>, Seq<char>)>
    decreases lines.len(),
{
    if lines.len() == 0 {
        Seq::empty()
    } else {
        match marker(lines.last()) {
            MarkerView::Failed(n, why) => failed_in(lines.drop_last()).push((n, why)),
            _ => failed_in(lines.drop_last()),
        }
    }
}

/// The models of a list of failures.
pub open spec fn failure_views(v: Seq<(String, String)>) -> Seq<(Seq<char>, Seq<char>)> {
    v.map_values(|p: (String, String)| (p.0@, p.1@))
}

/// Whether a line reports on registrations.
pub fn is_mcp_marker(line: &str) -> (r: bool)
    ensures
        r == text::begins(line@, MCP_MARKER_PREFIX@),
{
    text::starts_with(line, MCP_MARKER_PREFIX)
}

enum Marker {
    Registered(String),
    Failed(String, String),
    Nothing,
}

spec fn marker_view(m: Marker) -> MarkerView {
    match m {
        Marker::Registered(n) => MarkerView::Registered(n@),
        Marker::Failed(n, why) => MarkerView::Failed(n@, why@),
        Marker::Nothing => MarkerView::Nothing,
    }
}

fn read_marker(line: &str) -> (r: Marker)
    ensures
        marker_view(r) == marker(line@),
{
    let body = match text::strip_prefix(line, MCP_MARKER_PREFIX) {
        None => return Marker::Nothing,
        Some(b) => b,
    };
    if let Some(name) = text::strip_prefix(body, "registered:") {
        return if name.unicode_len() > 0 {
            Marker::Registered(name.to_owned())
        } else {
            Marker::Nothing
        };
    }
    match text::strip_prefix(body, "failed:") {
        Some(rest) => {
            let (name, why) = match text::split_once(rest, ':') {
                Some(p) => p,
                None => (rest, "registration failed"),
            };
            if name.unicode_len() > 0 {
                Marker::Failed(name.to_owned(), why.to_owned())
            } else {
                Marker::Nothing
            }
        },
        None => Marker::Nothing,
    }
}

/// Read what lines report.
pub fn parse_mcp_markers(lines: &Vec<String>) -> (r: McpHandshake)
    ensures
        text::texts(r.registered@) == registered_in(text::texts(lines@)),
        failure_views(r.failed@) == failed_in(text::texts(lines@)),
{
    let ghost model = text::texts(lines@);
    let mut registered: Vec<String> = Vec::new();
    let mut failed: Vec<(String, String)> = Vec::new();
    let mut i: usize = 0;
    assert(model.take(0) =~= Seq::empty());
    assert(text::texts(registered@) =~= Seq::empty());
    assert(failure_views(failed@) =~= Seq::empty());
    while i < lines.len()
        invariant
            i <= lines@.len(),
            model == text::texts(lines@),
            text::texts(registered@) == registered_in(model.take(i as int)),
            failure_views(failed@) == failed_in(model.take(i as int)),
        decreases lines.len() - i,
    {
        proof {
            assert(model.take(i + 1).drop_last() =~= model.take(i as int));
            assert(model.take(i + 1).last() == lines@[i as int]@);
        }
        match read_marker(lines[i].as_str()) {
            Marker::Registered(n) => {
                let ghost before = text::texts(registered@);
                registered.push(n);
                assert(text::texts(registered@) =~= before.push(n@));
            },
            Marker::Failed(n, why) => {
                let ghost before = failure_views(failed@);
                failed.push((n, why));
                assert(failure_views(failed@) =~= before.push((n@, why@)));
            },
            Marker::Nothing => {},
        }
        i += 1;
    }
    assert(model.take(i as int) =~= model);
    McpHandshake { registered, failed }
}

// ---------------------------------------------------------------------------
// The servers of a session
// ---------------------------------------------------------------------------

/// The servers of a session, and what is known of their registration.
#[derive(Debug)]
pub struct McpSessionManager {
    specs: Vec<McpServerSpec>,
    registered: Vec<String>,
    failed: Vec<(String, String)>,
}

/// The model of an [`McpSessionManager`].
pub struct ManagerView {
    /// The servers.
    pub specs: Seq<SpecView>,
    /// Those that were registered, each once.
    pub registered: Seq<Seq<char>>,
    /// Those that were not, each with the first reason.
    pub failed: Seq<(Seq<char>, Seq<char>)>,
}

impl View for McpSessionManager {
    type V = ManagerView;

    closed spec fn view(&self) -> ManagerView {
        ManagerView {
            specs: spec_views(self.specs@),
            registered: text::texts(self.registered@),
            failed: failure_views(self.failed@),
        }
    }
}

/// The names of servers.
pub open spec fn names_of(specs: Seq<SpecView>) -> Seq<Seq<char>> {
    specs.map_values(|s: SpecView| s.name)
}

/// Names with those that are new.
pub open spec fn with_names(known: Seq<Seq<char>>, more: Seq<Seq<char>>) -> Seq<Seq<char>>
    decreases more.len(),
{
    if more.len() == 0 {
        known
    } else {
        let before = with_names(known, more.drop_last());
        if before.contains(more.last()) {
            before
        } else {
            before.push(more.last())
        }
    }
}

/// Whether a server failed.
pub open spec fn has_failed(failed: Seq<(Seq<char>, Seq<char>)>, name: Seq<char>) -> bool {
    exists|i: int| 0 <= i < failed.len() && (#[trigger] failed[i]).0 == name
}

/// Failures with those of servers that are new.
pub open spec fn with_failures(
    known: Seq<(Seq<char>, Seq<char>)>,
    more: Seq<(Seq<char>, Seq<char>)>,
) -> Seq<(Seq<char>, Seq<char>)>
    decreases more.len(),
{
    if more.len() == 0 {
        known
    } else {
        let before = with_failures(known, more.drop_last());
        if has_failed(before, more.last().0) {
            before
        } else {
            before.push(more.last())
        }
    }
}

impl ManagerView {
    /// Whether it is known what became of a server.
    pub open spec fn answered(self, name: Seq<char>) -> bool {
        self.registered.contains(name) || has_failed(self.failed, name)
    }

    /// The servers of which nothing is known, among the first ones.
    pub open spec fn open_names(self, names: Seq<Seq<char>>) -> Seq<Seq<char>>
        decreases names.len(),
    {
        if names.len() == 0 {
            Seq::empty()
        } else {
            let before = self.open_names(names.drop_last());
            if self.answered(names.last()) {
                before
            } else {
                before.push(names.last())
            }
        }
    }

    /// What is known after more lines.
    pub open spec fn told(self, lines: Seq<Seq<char>>) -> ManagerView {
        ManagerView {
            specs: self.specs,
            registered: with_names(self.registered, registered_in(lines)),
            failed: with_failures(self.failed, failed_in(lines)),
        }
    }

    /// Whether it is known what became of every server.
    pub open spec fn settled(self) -> bool {
        forall|i: int| 0 <= i < self.specs.len() ==> self.answered((#[trigger] self.specs[i]).name)
    }
}

/// A failure as it is told.
pub open spec fn failure_text(f: (Seq<char>, Seq<char>)) -> Seq<char> {
    "\""@ + f.0 + "\": "@ + f.1
}

/// What is told of failures.
pub open spec fn failures_text(failed: Seq<(Seq<char>, Seq<char>)>) -> Option<Seq<char>> {
    if failed.len() == 0 {
        None
    } else {
        Some(
            "MCP server registration failed: "@ + text::joined(
                text::ordered(failed.map_values(|f: (Seq<char>, Seq<char>)| failure_text(f))),
                "; "@,
            ),
        )
    }
}

/// The definition of a server as JSON, without what it has not.
pub open spec fn definition_json(e: EntryView) -> JsonView {
    let m0 = Seq::<(Seq<char>, JsonView)>::empty();
    let m1 = match e.command {
        Some(c) => json::put(m0, "command"@, JsonView::Str(c)),
        None => m0,
    };
    let m2 = match e.args {
        Some(a) => json::put(
            m1,
            "args"@,
            JsonView::Array(a.map_values(|s: Seq<char>| JsonView::Str(s))),
        ),
        None => m1,
    };
    let m3 = match e.env {
        Some(v) => json::put(m2, "env"@, JsonView::Object(v)),
        None => m2,
    };
    let m4 = match e.url {
        Some(u) => json::put(m3, "url"@, JsonView::Str(u)),
        None => m3,
    };
    let m5 = match e.headers {
        Some(h) => json::put(m4, "headers"@, JsonView::Object(h)),
        None => m4,
    };
    JsonView::Object(
        match e.http_transport {
            Some(t) => json::put(m5, "httpTransport"@, JsonView::Str(t)),
            None => m5,
        },
    )
}

/// A server as JSON.
pub open spec fn spec_json(s: SpecView) -> JsonView {
    JsonView::Object(
        json::put(
            json::put(Seq::empty(), "name"@, JsonView::Str(s.name)),
            "definition"@,
            definition_json(s.definition),
        ),
    )
}

/// Servers as JSON.
pub open spec fn payload(specs: Seq<SpecView>) -> JsonView {
    JsonView::Array(specs.map_values(|s: SpecView| spec_json(s)))
}

/// Whether the JSON parser reads a definition back: it takes an object for a
/// JSON text of its own when its first member has a certain name.
pub open spec fn entry_lasts(e: EntryView) -> bool {
    &&& e.env matches Some(v) ==> !json::marked(v)
    &&& e.headers matches Some(h) ==> !json::marked(h)
}

/// Whether the JSON parser reads the definitions of servers back.
pub open spec fn specs_last(specs: Seq<SpecView>) -> bool {
    forall|i: int| 0 <= i < specs.len() ==> entry_lasts((#[trigger] specs[i]).definition)
}

fn with_plain(m: JsonMap, name: &str, value: Json) -> (r: JsonMap)
    requires
        name@.len() < 30,
        !json::marked(m@),
    ensures
        r@ == json::put(m@, name@, value@),
        !json::marked(r@),
        json::members_within(m@, 1) && json::plain_within(value@, 1) ==> json::members_within(
            r@,
            1,
        ),
{
    proof {
        json::short_name(name@);
        json::put_first(m@, name@, value@);
        if json::members_within(m@, 1) && json::plain_within(value@, 1) {
            json::put_within(m@, name@, value@, 1);
        }
    }
    m.with(name, value)
}

impl TextMap {
    fn to_json(&self) -> (r: Json)
        ensures
            r@ == JsonView::Object(self@),
            !json::marked(self@) ==> json::plain_within(r@, 1),
    {
        broadcast use json::json_view;

        proof {
            use_type_invariant(self);
            assert forall|i: int| 0 <= i < self.map@.len() implies json::plain_within(
                (#[trigger] self.map@[i]).1,
                0,
            ) by {}
        }
        Json::Object(self.map.clone())
    }
}

impl ServerEntry {
    fn to_json(&self) -> (r: Json)
        ensures
            r@ == definition_json(self@),
            entry_lasts(self@) ==> json::plain_within(r@, 2),
    {
        broadcast use json::json_view;

        proof {
            reveal_strlit("command");
            reveal_strlit("args");
            reveal_strlit("env");
            reveal_strlit("url");
            reveal_strlit("headers");
            reveal_strlit("httpTransport");
            assert("command"@.len() == 7 && "args"@.len() == 4 && "env"@.len() == 3);
            assert("url"@.len() == 3 && "headers"@.len() == 7 && "httpTransport"@.len() == 13);
            assert("env"@[0] != "url"@[0]);
            assert("command"@[0] != "headers"@[0]);
        }

        let m = JsonMap::new();
        assert(json::members_within(m@, 1));
        let m = match &self.command {
            Some(c) => with_plain(m, "command", Json::text(c.as_str())),
            None => m,
        };
        let m = match &self.args {
            Some(a) => {
                let list = Json::text_list(a);
                proof {
                    let items = list@->Array_0;
                    assert forall|i: int| 0 <= i < items.len() implies json::plain_within(
                        #[trigger] items[i],
                        0,
                    ) by {
                        assert(items[i] == JsonView::Str(text::texts(a@)[i]));
                    }
                }
                with_plain(m, "args", list)
            },
            None => m,
        };
        let m = match &self.env {
            Some(v) => with_plain(m, "env", v.to_json()),
            None => m,
        };
        let m = match &self.url {
            Some(u) => with_plain(m, "url", Json::text(u.as_str())),
            None => m,
        };
        let m = match &self.headers {
            Some(h) => with_plain(m, "headers", h.to_json()),
            None => m,
        };
        let m = match &self.http_transport {
            Some(t) => with_plain(m, "httpTransport", Json::text(t.as_str())),
            None => m,
        };
        Json::Object(m)
    }
}

fn knows_failure(failed: &Vec<(String, String)>, name: &str) -> (r: bool)
    ensures
        r == has_failed(failure_views(failed@), name@),
{
    let mut i: usize = 0;
    while i < failed.len()
        invariant
            i <= failed@.len(),
            forall|k: int| 0 <= k < i ==> (#[trigger] failed@[k]).0@ != name@,
        decreases failed.len() - i,
    {
        if text::same(failed[i].0.as_str(), name) {
            assert(failure_views(failed@)[i as int].0 == name@);
            return true;
        }
        i += 1;
    }
    assert forall|k: int| 0 <= k < failed@.len() implies (#[trigger] failure_views(failed@)[k]).0
        != name@ by {
        assert(failed@[k].0@ != name@);
    }
    false
}

impl McpSessionManager {
    /// The servers of a session of which nothing is known yet.
    pub fn new(specs: Vec<McpServerSpec>) -> (r: McpSessionManager)
        ensures
            r@ == (ManagerView {
                specs: spec_views(specs@),
                registered: Seq::empty(),
                failed: Seq::empty(),
            }),
    {
        let r = McpSessionManager { specs, registered: Vec::new(), failed: Vec::new() };
        assert(r@.registered =~= Seq::empty());
        assert(r@.failed =~= Seq::empty());
        r
    }

    /// The names of the servers.
    pub fn requested_names(&self) -> (r: Vec<String>)
        ensures
            text::texts(r@) == names_of(self@.specs),
    {
        let mut r: Vec<String> = Vec::new();
        let mut i: usize = 0;
        while i < self.specs.len()
            invariant
                i <= self.specs@.len(),
                r@.len() == i,
                forall|k: int| 0 <= k < i ==> (#[trigger] r@[k])@ == self.specs@[k].name@,
            decreases self.specs.len() - i,
        {
            r.push(self.specs[i].name.clone());
            i += 1;
        }
        assert(text::texts(r@) =~= names_of(self@.specs));
        r
    }

    /// The servers as a JSON value.
    pub fn payload_value(&self) -> (r: Json)
        ensures
            r@ == payload(self@.specs),
            specs_last(self@.specs) ==> json::plain_within(r@, 4),
    {
        proof {
            reveal_strlit("name");
            json::short_name("name"@);
        }
        let mut items: Vec<Json> = Vec::new();
        let mut i: usize = 0;
        while i < self.specs.len()
            invariant
                i <= self.specs@.len(),
                items@.len() == i,
                forall|k: int|
                    0 <= k < i ==> (#[trigger] items@[k])@ == spec_json(self.specs@[k]@) && (
                    entry_lasts(self.specs@[k]@.definition) ==> json::plain_within(
                        items@[k]@,
                        3,
                    )),
                "name"@ != json::raw_name(),
            decreases self.specs.len() - i,
        {
            let definition = self.specs[i].definition.to_json();
            let name = JsonMap::new().with("name", Json::text(self.specs[i].name.as_str()));
            proof {
                json::put_first(name@, "definition"@, definition@);
                if entry_lasts(self.specs@[i as int]@.definition) {
                    json::put_within(name@, "definition"@, definition@, 2);
                }
            }
            let item = Json::Object(name.with("definition", definition));
            proof {
                json::json_view(item);
            }
            items.push(item);
            i += 1;
        }
        let r = Json::Array(items);
        proof {
            json::json_view(r);
            assert(json::items_view(items@) =~= self@.specs.map_values(|s: SpecView| spec_json(s)));
            if specs_last(self@.specs) {
                assert forall|k: int|
                    0 <= k < json::items_view(items@).len() implies json::plain_within(
                    #[trigger] json::items_view(items@)[k],
                    3,
                ) by {
                    assert(json::items_view(items@)[k] == items@[k]@);
                    assert(self@.specs[k] == self.specs@[k]@);
                }
            }
        }
        r
    }

    /// The servers as JSON text, for [`MCP_SERVERS_ENV`].
    pub fn payload_json(&self) -> (r: String)
        ensures
            r@ == json::compact_json(payload(self@.specs)),
            specs_last(self@.specs) ==> json::json_in(r@) == Some(payload(self@.specs)),
    {
        let value = self.payload_value();
        proof {
            if specs_last(self@.specs) {
                json::within_more(value@, 4, 127);
            }
        }
        value.compact()
    }

    /// Take in what lines report.
    pub fn apply_markers(&mut self, lines: &Vec<String>)
        ensures
            final(self)@ == old(self)@.told(text::texts(lines@)),
    {
        let parsed = parse_mcp_markers(lines);
        let ghost names = text::texts(parsed.registered@);
        let ghost failures = failure_views(parsed.failed@);
        let ghost start = self@;
        let mut i: usize = 0;
        assert(names.take(0) =~= Seq::empty());
        while i < parsed.registered.len()
            invariant
                i <= parsed.registered@.len(),
                names == text::texts(parsed.registered@),
                self@ == (ManagerView {
                    registered: with_names(start.registered, names.take(i as int)),
                    ..start
                }),
            decreases parsed.registered.len() - i,
        {
            proof {
                assert(names.take(i + 1).drop_last() =~= names.take(i as int));
                assert(names.take(i + 1).last() == parsed.registered@[i as int]@);
            }
            if !text::lists(&self.registered, parsed.registered[i].as_str()) {
                let n = parsed.registered[i].clone();
                let ghost before = text::texts(self.registered@);
                self.registered.push(n);
                assert(text::texts(self.registered@) =~= before.push(n@));
            }
            i += 1;
        }
        assert(names.take(i as int) =~= names);
        i = 0;
        assert(failures.take(0) =~= Seq::empty());
        while i < parsed.failed.len()
            invariant
                i <= parsed.failed@.len(),
                failures == failure_views(parsed.failed@),
                self@ == (ManagerView {
                    registered: with_names(start.registered, names),
                    failed: with_failures(start.failed, failures.take(i as int)),
                    ..start
                }),
            decreases parsed.failed.len() - i,
        {
            proof {
                assert(failures.take(i + 1).drop_last() =~= failures.take(i as int));
                assert(failures.take(i + 1).last() == (
                    parsed.failed@[i as int].0@,
                    parsed.failed@[i as int].1@,
                ));
            }
            if !knows_failure(&self.failed, parsed.failed[i].0.as_str()) {
                let f = (parsed.failed[i].0.clone(), parsed.failed[i].1.clone());
                let ghost before = failure_views(self.failed@);
                self.failed.push(f);
                assert(failure_views(self.failed@) =~= before.push((f.0@, f.1@)));
            }
            i += 1;
        }
        assert(failures.take(i as int) =~= failures);
    }

    fn is_answered(&self, name: &str) -> (r: bool)
        ensures
            r == self@.answered(name@),
    {
        text::lists(&self.registered, name) || knows_failure(&self.failed, name)
    }

    /// The servers of which nothing is known, in order.
    pub fn pending(&self) -> (r: Vec<String>)
        ensures
            text::texts(r@) == text::ordered(self@.open_names(names_of(self@.specs))),
    {
        let names = self.requested_names();
        let ghost model = names_of(self@.specs);
        let mut r: Vec<String> = Vec::new();
        let mut i: usize = 0;
        assert(model.take(0) =~= Seq::empty());
        assert(text::texts(r@) =~= Seq::empty());
        while i < names.len()
            invariant
                i <= names@.len(),
                model == text::texts(names@),
                text::texts(r@) == self@.open_names(model.take(i as int)),
            decreases names.len() - i,
        {
            proof {
                assert(model.take(i + 1).drop_last() =~= model.take(i as int));
                assert(model.take(i + 1).last() == names@[i as int]@);
            }
            if !self.is_answered(names[i].as_str()) {
                let n = names[i].clone();
                let ghost before = text::texts(r@);
                r.push(n);
                assert(text::texts(r@) =~= before.push(n@));
            }
            i += 1;
        }
        assert(model.take(i as int) =~= model);
        text::sort(r)
    }

    /// Whether it is known what became of every server.
    pub fn is_settled(&self) -> (r: bool)
        ensures
            r == self@.settled(),
    {
        let p = self.pending();
        proof {
            text::ordered_is_in_order(self@.open_names(names_of(self@.specs)));
            nothing_open(self@, names_of(self@.specs));
            assert(text::texts(p@).len() == p@.len());
            if p@.len() == 0 {
                assert forall|i: int| 0 <= i < self@.specs.len() implies self@.answered(
                    (#[trigger] self@.specs[i]).name,
                ) by {
                    assert(names_of(self@.specs)[i] == self@.specs[i].name);
                }
            } else if self@.settled() {
                assert forall|i: int| 0 <= i < names_of(self@.specs).len() implies self@.answered(
                    #[trigger] names_of(self@.specs)[i],
                ) by {
                    assert(self@.answered(self@.specs[i].name));
                }
            }
        }
        p.len() == 0
    }

    /// What is told of the servers that failed.
    pub fn failure_message(&self) -> (r: Option<String>)
        ensures
            text::opt_text(r) == failures_text(self@.failed),
    {
        if self.failed.len() == 0 {
            return None;
        }
        let mut parts: Vec<String> = Vec::new();
        let mut i: usize = 0;
        while i < self.failed.len()
            invariant
                i <= self.failed@.len(),
                parts@.len() == i,
                forall|k: int|
                    0 <= k < i ==> (#[trigger] parts@[k])@ == failure_text(
                        (self.failed@[k].0@, self.failed@[k].1@),
                    ),
            decreases self.failed.len() - i,
        {
            parts.push(
                text::cat4("\"", self.failed[i].0.as_str(), "\": ", self.failed[i].1.as_str()),
            );
            i += 1;
        }
        assert(text::texts(parts@) =~= self@.failed.map_values(
            |f: (Seq<char>, Seq<char>)| failure_text(f),
        ));
        let sorted = text::sort(parts);
        let all = text::join(&sorted, "; ");
        Some(text::cat2("MCP server registration failed: ", all.as_str()))
    }

    /// How many servers were registered.
    pub fn registered_count(&self) -> (r: usize)
        ensures
            r == self@.registered.len(),
    {
        self.registered.len()
    }
}

proof fn nothing_open(m: ManagerView, names: Seq<Seq<char>>)
    ensures
        m.open_names(names).len() == 0 <==> forall|i: int|
            0 <= i < names.len() ==> m.answered(#[trigger] names[i]),
    decreases names.len(),
{
    if names.len() > 0 {
        nothing_open(m, names.drop_last());
        if m.open_names(names).len() == 0 {
            assert forall|i: int| 0 <= i < names.len() implies m.answered(#[trigger] names[i]) by {
                if i < names.len() - 1 {
                    assert(names.drop_last()[i] == names[i]);
                }
            }
        } else if m.answered(names.last()) {
            let k = choose|k: int|
                0 <= k < names.drop_last().len() && !m.answered(#[trigger] names.drop_last()[k]);
            assert(!m.answered(names[k]));
        } else {
            assert(!m.answered(names[names.len() - 1]));
        }
    }
}

// ---------------------------------------------------------------------------
// Wiring a session
// ---------------------------------------------------------------------------

/// What a client is told that asks for servers while MCP is switched off.
pub const MCP_DISABLED: &'static str =
    "MCP wiring is disabled; set PI_ACP_ENABLE_MCP=true to accept mcpServers";

/// What a client is told that asks for servers while pi lacks the adapter.
pub const MCP_NO_ADAPTER: &'static str =
    "pi-mcp-adapter is not installed; run `pi install npm:pi-mcp-adapter`";

/// The servers that a session wires: none when none are asked for. Servers
/// are refused while MCP is switched off or pi lacks the adapter.
pub open spec fn wired(servers: Seq<ServerView>, enabled: bool, adapter_present: bool) -> Result<
    Option<Seq<SpecView>>,
    Seq<char>,
> {
    if servers.len() == 0 {
        Ok(None)
    } else if !enabled {
        Err(MCP_DISABLED@)
    } else if !adapter_present {
        Err(MCP_NO_ADAPTER@)
    } else {
        match normalized(servers) {
            Ok(specs) => Ok(Some(specs)),
            Err(e) => Err(e),
        }
    }
}

/// The servers that a session wires, or why it is refused.
pub fn wire_mcp_servers(servers: &Vec<McpServer>, enabled: bool, adapter_present: bool) -> (r:
    Result<Option<McpSessionManager>, String>)
    ensures
        match r {
            Ok(Some(m)) => {
                &&& wired(server_views(servers@), enabled, adapter_present) == Ok::<
                    Option<Seq<SpecView>>,
                    Seq<char>,
                >(Some(m@.specs))
                &&& m@.registered.len() == 0
                &&& m@.failed.len() == 0
            },
            Ok(None) => wired(server_views(servers@), enabled, adapter_present) == Ok::<
                Option<Seq<SpecView>>,
                Seq<char>,
            >(None),
            Err(e) => wired(server_views(servers@), enabled, adapter_present) == Err::<
                Option<Seq<SpecView>>,
                Seq<char>,
            >(e@),
        },
{
    if servers.len() == 0 {
        return Ok(None);
    }
    if !enabled {
        return Err(MCP_DISABLED.to_owned());
    }
    if !adapter_present {
        return Err(MCP_NO_ADAPTER.to_owned());
    }
    match normalize_mcp_servers(servers) {
        Ok(specs) => Ok(Some(McpSessionManager::new(specs))),
        Err(e) => Err(e),
    }
}

/// How far the registrations of a session are.
#[derive(Debug)]
pub enum Registration {
    /// The session waits for more.
    Waiting,
    /// Every server is registered.
    Done,
    /// The session is refused, for this reason.
    Failed(String),
}

/// How far the registrations are, in the model.
pub enum RegistrationView {
    Waiting,
    Done,
    Failed(Seq<char>),
}

impl View for Registration {
    type V = RegistrationView;

    open spec fn view(&self) -> RegistrationView {
        match self {
            Registration::Waiting => RegistrationView::Waiting,
            Registration::Done => RegistrationView::Done,
            Registration::Failed(s) => RegistrationView::Failed(s@),
        }
    }
}

impl ManagerView {
    /// How far the registrations are: a failure counts once everything is
    /// known, and whatever is not known in time has failed.
    pub open spec fn progress(self, expired: bool) -> RegistrationView {
        if self.settled() {
            match failures_text(self.failed) {
                Some(message) => RegistrationView::Failed(message),
                None => RegistrationView::Done,
            }
        } else if expired {
            RegistrationView::Failed(
                "MCP servers did not register in time: "@ + text::joined(
                    text::ordered(self.open_names(names_of(self.specs))),
                    ", "@,
                ),
            )
        } else {
            RegistrationView::Waiting
        }
    }
}

impl McpSessionManager {
    /// How far the registrations are; `expired` when the session has waited
    /// long enough.
    pub fn progress(&self, expired: bool) -> (r: Registration)
        ensures
            r@ == self@.progress(expired),
    {
        if self.is_settled() {
            match self.failure_message() {
                Some(message) => Registration::Failed(message),
                None => Registration::Done,
            }
        } else if expired {
            let open = text::join(&self.pending(), ", ");
            Registration::Failed(
                text::cat2("MCP servers did not register in time: ", open.as_str()),
            )
        } else {
            Registration::Waiting
        }
    }
}

// ---------------------------------------------------------------------------
// Laws
// ---------------------------------------------------------------------------

proof fn with_names_has(known: Seq<Seq<char>>, more: Seq<Seq<char>>)
    ensures
        forall|n: Seq<char>|
            #![trigger with_names(known, more).contains(n)]
            with_names(known, more).contains(n) <==> known.contains(n) || more.contains(n),
    decreases more.len(),
{
    if more.len() > 0 {
        let front = more.drop_last();
        with_names_has(known, front);
        let before = with_names(known, front);
        let all = with_names(known, more);
        assert forall|n: Seq<char>| #![trigger all.contains(n)]
            all.contains(n) <==> known.contains(n) || more.contains(n) by {
            if all.contains(n) {
                let i = choose|i: int| 0 <= i < all.len() && all[i] == n;
                if i < before.len() {
                    assert(before.contains(n));
                    if front.contains(n) {
                        let k = choose|k: int| 0 <= k < front.len() && front[k] == n;
                        assert(more[k] == n);
                    }
                } else {
                    assert(more[more.len() - 1] == n);
                }
            }
            if known.contains(n) || front.contains(n) {
                assert(before.contains(n));
                let i = choose|i: int| 0 <= i < before.len() && before[i] == n;
                assert(all[i] == n);
            }
            if more.contains(n) && !front.contains(n) {
                let k = choose|k: int| 0 <= k < more.len() && more[k] == n;
                if k < front.len() {
                    assert(front[k] == n);
                }
                assert(n == more.last());
                if before.contains(n) {
                    let i = choose|i: int| 0 <= i < before.len() && before[i] == n;
                    assert(all[i] == n);
                } else {
                    assert(all[all.len() - 1] == n);
                }
            }
        }
    }
}

proof fn with_names_again(known: Seq<Seq<char>>, more: Seq<Seq<char>>)
    requires
        forall|n: Seq<char>| more.contains(n) ==> known.contains(n),
    ensures
        with_names(known, more) == known,
    decreases more.len(),
{
    if more.len() > 0 {
        let front = more.drop_last();
        assert forall|n: Seq<char>| front.contains(n) implies known.contains(n) by {
            let k = choose|k: int| 0 <= k < front.len() && front[k] == n;
            assert(more[k] == n);
            assert(more.contains(n));
        }
        with_names_again(known, front);
        assert(more[more.len() - 1] == more.last());
        assert(more.contains(more.last()));
    }
}

proof fn with_failures_has(
    known: Seq<(Seq<char>, Seq<char>)>,
    more: Seq<(Seq<char>, Seq<char>)>,
    name: Seq<char>,
)
    ensures
        has_failed(with_failures(known, more), name) <==> has_failed(known, name) || has_failed(
            more,
            name,
        ),
    decreases more.len(),
{
    if more.len() > 0 {
        let front = more.drop_last();
        with_failures_has(known, front, name);
        with_failures_has(known, front, more.last().0);
        let before = with_failures(known, front);
        let all = with_failures(known, more);
        if has_failed(all, name) {
            let i = choose|i: int| 0 <= i < all.len() && (#[trigger] all[i]).0 == name;
            if i < before.len() {
                assert(before[i].0 == name);
                if has_failed(front, name) {
                    let k = choose|k: int| 0 <= k < front.len() && (#[trigger] front[k]).0 == name;
                    assert(more[k].0 == name);
                }
            } else {
                assert(more[more.len() - 1].0 == name);
            }
        }
        if has_failed(before, name) {
            let i = choose|i: int| 0 <= i < before.len() && (#[trigger] before[i]).0 == name;
            assert(all[i].0 == name);
        }
        if has_failed(more, name) && !has_failed(before, name) {
            let k = choose|k: int| 0 <= k < more.len() && (#[trigger] more[k]).0 == name;
            if k < front.len() {
                assert(front[k].0 == name);
            }
            assert(all[all.len() - 1].0 == name);
        }
    }
}

proof fn with_failures_again(
    known: Seq<(Seq<char>, Seq<char>)>,
    more: Seq<(Seq<char>, Seq<char>)>,
)
    requires
        forall|i: int| 0 <= i < more.len() ==> has_failed(known, (#[trigger] more[i]).0),
    ensures
        with_failures(known, more) == known,
    decreases more.len(),
{
    if more.len() > 0 {
        let front = more.drop_last();
        assert forall|i: int| 0 <= i < front.len() implies has_failed(
            known,
            (#[trigger] front[i]).0,
        ) by {
            assert(front[i] == more[i]);
        }
        with_failures_again(known, front);
        assert(has_failed(known, more[more.len() - 1].0));
    }
}

/// Lines that were taken in say nothing new.
pub proof fn lines_tell_once(m: ManagerView, lines: Seq<Seq<char>>)
    ensures
        m.told(lines).told(lines) == m.told(lines),
{
    let names = registered_in(lines);
    with_names_has(m.registered, names);
    with_names_again(with_names(m.registered, names), names);
    let failures = failed_in(lines);
    let known = with_failures(m.failed, failures);
    assert forall|i: int| 0 <= i < failures.len() implies has_failed(
        known,
        (#[trigger] failures[i]).0,
    ) by {
        assert(has_failed(failures, failures[i].0));
        with_failures_has(m.failed, failures, failures[i].0);
    }
    with_failures_again(known, failures);
}

/// What is known of a server stays known.
pub proof fn answers_stay(m: ManagerView, lines: Seq<Seq<char>>, name: Seq<char>)
    requires
        m.answered(name),
    ensures
        m.told(lines).answered(name),
{
    with_names_has(m.registered, registered_in(lines));
    with_failures_has(m.failed, failed_in(lines), name);
}

/// A session that waited long enough is not kept waiting.
pub proof fn waiting_ends(m: ManagerView)
    ensures
        !(m.progress(true) is Waiting),
{
}

/// No server is wired unless MCP is switched on and pi has the adapter.
pub proof fn wiring_is_opted_in(servers: Seq<ServerView>, enabled: bool, adapter_present: bool)
    requires
        wired(servers, enabled, adapter_present) matches Ok(Some(_)),
    ensures
        enabled,
        adapter_present,
        advertised(enabled, adapter_present) == (true, true),
{
}

// ---------------------------------------------------------------------------
// The extension that registers the servers
// ---------------------------------------------------------------------------

/// The directory of the extension, below that of temporary files.
pub fn registrar_dir(temp_dir: &str, windows: bool) -> (r: String)
    ensures
        r@ == path::resolved(temp_dir@, "pi-acp-"@ + REGISTRAR_VERSION@, windows),
{
    let name = text::cat2("pi-acp-", REGISTRAR_VERSION);
    path::resolve_path(temp_dir, name.as_str(), windows)
}

/// Whether the extension is to be written: when its file is not there, or has
/// another text.
pub fn registrar_outdated(current: Option<&str>, source: &str) -> (r: bool)
    ensures
        r == (text::opt_str(current) != Some(source@)),
{
    match current {
        Some(t) => !text::same(t, source),
        None => true,
    }
}

/// A name has the value it was given last.
pub proof fn the_last_value_counts(pairs: Seq<(Seq<char>, Seq<char>)>, k: int)
    requires
        0 <= k < pairs.len(),
        forall|j: int| k < j < pairs.len() ==> (#[trigger] pairs[j]).0 != pairs[k].0,
    ensures
        json::member(JsonView::Object(last_values(pairs)), pairs[k].0) == Some(
            JsonView::Str(pairs[k].1),
        ),
    decreases pairs.len(),
{
    broadcast use json::entry_of_put;

    if k < pairs.len() - 1 {
        let front = pairs.drop_last();
        assert forall|j: int| k < j < front.len() implies (#[trigger] front[j]).0 != front[k].0 by {
            assert(front[j] == pairs[j]);
        }
        the_last_value_counts(front, k);
        assert(pairs[pairs.len() - 1].0 != pairs[k].0);
    }
}

/// Names that were not given have no value.
pub proof fn no_value_is_made_up(pairs: Seq<(Seq<char>, Seq<char>)>, name: Seq<char>)
    requires
        forall|j: int| 0 <= j < pairs.len() ==> (#[trigger] pairs[j]).0 != name,
    ensures
        json::member(JsonView::Object(last_values(pairs)), name) is None,
    decreases pairs.len(),
{
    broadcast use json::entry_of_put;

    if pairs.len() > 0 {
        let front = pairs.drop_last();
        assert forall|j: int| 0 <= j < front.len() implies (#[trigger] front[j]).0 != name by {
            assert(front[j] == pairs[j]);
        }
        no_value_is_made_up(front, name);
        assert(pairs[pairs.len() - 1].0 != name);
    }
}

/// Every server that is taken is handed to pi as it was declared, in the order
/// of the declarations: a program with its command, its arguments and its
/// environment, another with its address and its headers.
pub proof fn servers_are_handed_on(servers: Seq<ServerView>, k: int)
    requires
        normalized(servers) is Ok,
        0 <= k < servers.len(),
    ensures
        normalized(servers)->Ok_0.len() == servers.len(),
        ({
            let s = normalized(servers)->Ok_0[k];
            let d = s.definition;
            match servers[k] {
                ServerView::Stdio { name, command, args, env } => {
                    &&& s.name == name
                    &&& d.command == Some(command)
                    &&& d.args == Some(args)
                    &&& env.len() > 0 ==> d.env == Some(last_values(env))
                    &&& env.len() == 0 ==> d.env is None
                    &&& d.url is None && d.headers is None && d.http_transport is None
                },
                ServerView::Remote { name, url, headers, sse } => {
                    &&& s.name == name
                    &&& d.url == Some(text::trimmed(url))
                    &&& headers.len() > 0 ==> d.headers == Some(last_values(headers))
                    &&& headers.len() == 0 ==> d.headers is None
                    &&& d.http_transport == (if sse {
                        Some("sse"@)
                    } else {
                        None
                    })
                    &&& d.command is None && d.args is None && d.env is None
                },
                ServerView::Other => false,
            }
        }),
    decreases servers.len(),
{
    let front = servers.drop_last();
    checked_names_are_distinct(servers);
    let all = normalized(servers)->Ok_0;
    if k < servers.len() - 1 {
        servers_are_handed_on(front, k);
        assert(all[k] == normalized(front)->Ok_0[k]);
        assert(front[k] == servers[k]);
    } else {
        checked_names_are_distinct(front);
        assert(all[k] == spec_of(servers[k]));
    }
}

/// Servers are taken when each can be used and none is declared twice; the
/// first that cannot decides the refusal.
pub proof fn usable_servers_are_taken(servers: Seq<ServerView>)
    requires
        forall|i: int| 0 <= i < servers.len() ==> problem(#[trigger] servers[i]) is None,
        forall|i: int, j: int|
            0 <= i < j < servers.len() ==> spec_of(#[trigger] servers[i]).name != spec_of(
                #[trigger] servers[j],
            ).name,
    ensures
        normalized(servers) is Ok,
        normalized(servers)->Ok_0.len() == servers.len(),
        forall|i: int|
            0 <= i < servers.len() ==> #[trigger] normalized(servers)->Ok_0[i] == spec_of(
                servers[i],
            ),
    decreases servers.len(),
{
    if servers.len() > 0 {
        let front = servers.drop_last();
        assert forall|i: int| 0 <= i < front.len() implies problem(#[trigger] front[i]) is None by {
            assert(front[i] == servers[i]);
        }
        assert forall|i: int, j: int| 0 <= i < j < front.len() implies spec_of(
            #[trigger] front[i],
        ).name != spec_of(#[trigger] front[j]).name by {
            assert(front[i] == servers[i] && front[j] == servers[j]);
        }
        usable_servers_are_taken(front);
        let before = normalized(front)->Ok_0;
        let last = servers[servers.len() - 1];
        assert(problem(last) is None);
        if declares(before, spec_of(last).name) {
            let i = choose|i: int|
                0 <= i < before.len() && (#[trigger] before[i]).name == spec_of(last).name;
            assert(before[i] == spec_of(front[i]));
            assert(spec_of(servers[i]).name != spec_of(last).name);
        }
        assert forall|i: int| 0 <= i < servers.len() implies #[trigger] normalized(
            servers,
        )->Ok_0[i] == spec_of(servers[i]) by {
            if i < front.len() {
                assert(normalized(front)->Ok_0[i] == spec_of(front[i]));
            }
        }
    }
}

/// A server can be used when it has a name without line breaks, a command or
/// an address of the web, and no setting without a name; and not otherwise.
pub proof fn what_can_be_used(
    name: Seq<char>,
    command: Seq<char>,
    args: Seq<Seq<char>>,
    pairs: Seq<(Seq<char>, Seq<char>)>,
    url: Seq<char>,
    sse: bool,
)
    ensures
        problem(ServerView::Stdio { name, command, args, env: pairs }) is None <==> {
            &&& text::trimmed(name).len() > 0
            &&& !name.contains('\n') && !name.contains('\r')
            &&& command.len() > 0
            &&& forall|i: int|
                0 <= i < pairs.len() ==> text::trimmed((#[trigger] pairs[i]).0).len() > 0
        },
        problem(ServerView::Remote { name, url, headers: pairs, sse }) is None <==> {
            &&& text::trimmed(name).len() > 0
            &&& !name.contains('\n') && !name.contains('\r')
            &&& text::trimmed(url).len() > 0
            &&& text::begins(text::trimmed(url), "http://"@) || text::begins(
                text::trimmed(url),
                "https://"@,
            )
            &&& forall|i: int|
                0 <= i < pairs.len() ==> text::trimmed((#[trigger] pairs[i]).0).len() > 0
        },
        problem(ServerView::Other) is Some,
{
}

/// What pi is told of the servers: each by its name, with its command and its
/// arguments, or its address.
pub proof fn the_payload_names_the_servers(specs: Seq<SpecView>, k: int)
    requires
        0 <= k < specs.len(),
    ensures
        payload(specs) matches JsonView::Array(items) && items.len() == specs.len()
            && json::member(items[k], "name"@) == Some(JsonView::Str(specs[k].name)),
        ({
            let d = specs[k].definition;
            let shown = json::member(payload(specs)->Array_0[k], "definition"@);
            &&& shown is Some
            &&& json::member(shown->0, "command"@) == json::opt_string(d.command)
            &&& json::member(shown->0, "url"@) == json::opt_string(d.url)
            &&& json::member(shown->0, "httpTransport"@) == json::opt_string(d.http_transport)
            &&& json::member(shown->0, "env"@) == json::opt_object(d.env)
            &&& json::member(shown->0, "headers"@) == json::opt_object(d.headers)
            &&& d.args is None ==> json::member(shown->0, "args"@) is None
            &&& d.args matches Some(args) ==> (json::member(shown->0, "args"@) matches Some(
                JsonView::Array(words),
            ) && words.len() == args.len() && forall|i: int|
                0 <= i < args.len() ==> #[trigger] words[i] == JsonView::Str(args[i]))
        }),
{
    broadcast use json::entry_of_put;

    reveal_strlit("name");
    reveal_strlit("definition");
    reveal_strlit("command");
    reveal_strlit("args");
    reveal_strlit("env");
    reveal_strlit("url");
    reveal_strlit("headers");
    reveal_strlit("httpTransport");
    assert("name"@.len() == 4 && "definition"@.len() == 10 && "command"@.len() == 7);
    assert("args"@.len() == 4 && "env"@.len() == 3 && "url"@.len() == 3);
    assert("headers"@.len() == 7 && "httpTransport"@.len() == 13);
    assert("env"@[0] != "url"@[0]);
    assert("name"@[0] != "args"@[0]);
    assert("command"@[0] != "headers"@[0]);
    let d = specs[k].definition;
    if let Some(args) = d.args {
        let words = args.map_values(|s: Seq<char>| JsonView::Str(s));
        assert(forall|i: int| 0 <= i < args.len() ==> #[trigger] words[i] == JsonView::Str(args[i]));
    }
}

/// A line that says that a server was registered, or why it was not, is read
/// so; other lines say nothing.
pub proof fn marked_lines_are_read(name: Seq<char>, why: Seq<char>, line: Seq<char>)
    requires
        name.len() > 0,
        !name.contains(':'),
    ensures
        marker("PI_ACP_MCP:"@ + "registered:"@ + name) == MarkerView::Registered(name),
        marker("PI_ACP_MCP:"@ + "failed:"@ + name + ":"@ + why) == MarkerView::Failed(name, why),
        !text::begins(line, "PI_ACP_MCP:"@) ==> marker(line) == MarkerView::Nothing,
{
    let p = "PI_ACP_MCP:"@;
    let a = p + "registered:"@ + name;
    reveal_strlit("registered:");
    reveal_strlit("failed:");
    reveal_strlit(":");
    assert("registered:"@.len() == 11 && "failed:"@.len() == 7 && ":"@.len() == 1);
    assert(a.subrange(0, p.len() as int) =~= p);
    assert(a.skip(p.len() as int) =~= "registered:"@ + name);
    let x = "registered:"@ + name;
    assert(x.subrange(0, "registered:"@.len() as int) =~= "registered:"@);
    assert(x.skip("registered:"@.len() as int) =~= name);
    let b = p + "failed:"@ + name + ":"@ + why;
    assert(b.subrange(0, p.len() as int) =~= p);
    let y = "failed:"@ + name + ":"@ + why;
    assert(b.skip(p.len() as int) =~= y);
    assert("registered:"@[0] == 'r' && "failed:"@[0] == 'f' && ":"@[0] == ':');
    assert(y[0] == 'f');
    if text::begins(y, "registered:"@) {
        assert(y.subrange(0, "registered:"@.len() as int)[0] == y[0]);
    }
    assert(y.subrange(0, "failed:"@.len() as int) =~= "failed:"@);
    let rest = name + ":"@ + why;
    assert(y.skip("failed:"@.len() as int) =~= rest);
    assert forall|j: int| 0 <= j < name.len() implies rest[j] != ':' by {
        assert(name.contains(name[j]));
    }
    text::before_unique(rest, ':', name.len() as int);
    assert(rest.take(name.len() as int) =~= name);
    assert(rest.skip(name.len() as int + 1) =~= why);
}

proof fn registered_is_listed(lines: Seq<Seq<char>>, k: int, name: Seq<char>)
    requires
        0 <= k < lines.len(),
        marker(lines[k]) == MarkerView::Registered(name),
    ensures
        registered_in(lines).contains(name),
    decreases lines.len(),
{
    let all = registered_in(lines);
    if k < lines.len() - 1 {
        let front = lines.drop_last();
        registered_is_listed(front, k, name);
        let before = registered_in(front);
        let i = choose|i: int| 0 <= i < before.len() && before[i] == name;
        assert(all[i] == before[i]);
    } else {
        assert(all[all.len() - 1] == name);
    }
}

proof fn failed_is_listed(lines: Seq<Seq<char>>, k: int, name: Seq<char>, why: Seq<char>)
    requires
        0 <= k < lines.len(),
        marker(lines[k]) == MarkerView::Failed(name, why),
    ensures
        has_failed(failed_in(lines), name),
    decreases lines.len(),
{
    let all = failed_in(lines);
    if k < lines.len() - 1 {
        let front = lines.drop_last();
        failed_is_listed(front, k, name, why);
        let before = failed_in(front);
        let i = choose|i: int| 0 <= i < before.len() && (#[trigger] before[i]).0 == name;
        assert(all[i] == before[i]);
    } else {
        assert(all[all.len() - 1] == (name, why));
    }
}

/// A server that pi reports as registered, or as failed, is so from then on.
pub proof fn reports_count(m: ManagerView, lines: Seq<Seq<char>>, k: int, name: Seq<char>)
    requires
        0 <= k < lines.len(),
    ensures
        marker(lines[k]) == MarkerView::Registered(name) ==> m.told(lines).registered.contains(
            name,
        ),
        marker(lines[k]) matches MarkerView::Failed(n, _) ==> has_failed(m.told(lines).failed, n),
{
    if marker(lines[k]) == MarkerView::Registered(name) {
        registered_is_listed(lines, k, name);
        with_names_has(m.registered, registered_in(lines));
    }
    if let MarkerView::Failed(n, why) = marker(lines[k]) {
        failed_is_listed(lines, k, n, why);
        with_failures_has(m.failed, failed_in(lines), n);
    }
}

/// Registering is done when every server that was asked for is registered and
/// none failed. It fails when all were heard of and one failed, or when time is
/// up before all were. Until then it waits.
pub proof fn registering_ends(m: ManagerView, expired: bool)
    ensures
        m.failed.len() == 0 && (forall|i: int|
            0 <= i < m.specs.len() ==> m.registered.contains((#[trigger] m.specs[i]).name))
            ==> m.progress(expired) is Done,
        m.settled() && m.failed.len() > 0 ==> m.progress(expired) is Failed,
        !m.settled() && expired ==> m.progress(expired) is Failed,
        !m.settled() && !expired ==> m.progress(expired) is Waiting,
        m.progress(expired) is Done ==> m.failed.len() == 0 && forall|i: int|
            0 <= i < m.specs.len() ==> m.registered.contains((#[trigger] m.specs[i]).name),
{
    if m.failed.len() == 0 && (forall|i: int|
        0 <= i < m.specs.len() ==> m.registered.contains((#[trigger] m.specs[i]).name)) {
        assert forall|i: int| 0 <= i < m.specs.len() implies m.answered(
            (#[trigger] m.specs[i]).name,
        ) by {
            assert(m.registered.contains(m.specs[i].name));
        }
    }
    if m.progress(expired) is Done {
        assert forall|i: int| 0 <= i < m.specs.len() implies m.registered.contains(
            (#[trigger] m.specs[i]).name,
        ) by {
            assert(m.answered(m.specs[i].name));
        }
    }
}

/// Servers are wired only when that is switched on and pi has the adapter; no
/// servers need neither.
pub proof fn wiring_is_refused_with_a_reason(
    servers: Seq<ServerView>,
    enabled: bool,
    adapter_present: bool,
)
    ensures
        servers.len() == 0 ==> wired(servers, enabled, adapter_present) == Ok::<
            Option<Seq<SpecView>>,
            Seq<char>,
        >(None),
        servers.len() > 0 && !enabled ==> wired(servers, enabled, adapter_present) == Err::<
            Option<Seq<SpecView>>,
            Seq<char>,
        >(MCP_DISABLED@),
        servers.len() > 0 && enabled && !adapter_present ==> wired(
            servers,
            enabled,
            adapter_present,
        ) == Err::<Option<Seq<SpecView>>, Seq<char>>(MCP_NO_ADAPTER@),
        servers.len() > 0 && enabled && adapter_present ==> (wired(
            servers,
            enabled,
            adapter_present,
        ) is Ok <==> normalized(servers) is Ok),
        advertised(enabled, adapter_present).0 == (enabled && adapter_present),
        advertised(enabled, adapter_present).1 == (enabled && adapter_present),
{
}

} // verus!
