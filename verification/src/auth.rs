//! Terminal authentication, and recognising missing credentials in error text.

use crate::json;
use crate::json::{Json, JsonMap, JsonView};
use crate::text;
use vstd::prelude::*;
use vstd::string::*;

verus! {

/// The id of the terminal authentication method.
pub const PI_SETUP_METHOD_ID: &'static str = "pi_terminal_login";

/// One way for the user to authenticate: run this agent in a terminal.
#[derive(Debug)]
pub struct AuthMethod {
    /// The method's id.
    pub id: String,
    /// What the client shows.
    pub name: String,
    /// What the method does.
    pub description: String,
    /// Arguments appended to the agent's command line.
    pub args: Vec<String>,
    /// Method-scoped `_meta`.
    pub meta: Option<JsonMap>,
}

/// The command line that opens pi for login: the one this process was started
/// with when that was a script run by node, the installed program otherwise.
pub open spec fn launch_spec(argv: Seq<Seq<char>>) -> (Seq<char>, Seq<Seq<char>>) {
    if argv.len() >= 2 && text::has(argv[0], "node"@) && text::ends(argv[1], ".js"@) {
        (argv[0], seq![argv[1], "--terminal-login"@])
    } else {
        ("pi-acp"@, seq!["--terminal-login"@])
    }
}

/// The `_meta` members that describe a login command.
pub open spec fn launch_meta(command: Seq<char>, args: Seq<Seq<char>>) -> Seq<
    (Seq<char>, JsonView),
> {
    json::put(
        Seq::empty(),
        "terminal-auth"@,
        JsonView::Object(
            json::put(
                json::put(
                    json::put(Seq::empty(), "command"@, JsonView::Str(command)),
                    "args"@,
                    JsonView::Array(args.map_values(|a: Seq<char>| JsonView::Str(a))),
                ),
                "label"@,
                JsonView::Str("Launch pi"@),
            ),
        ),
    )
}

impl AuthMethod {
    /// The method that starts pi in a terminal, with `meta` attached.
    pub open spec fn is_terminal_login(self, meta: Option<Seq<(Seq<char>, JsonView)>>) -> bool {
        &&& self.id@ == PI_SETUP_METHOD_ID@
        &&& self.name@ == "Launch pi in the terminal"@
        &&& self.description@
            == "Start pi in an interactive terminal to configure API keys or login"@
        &&& text::texts(self.args@) == seq!["--terminal-login"@]
        &&& match (self.meta, meta) {
            (Some(m), Some(v)) => m@ == v,
            (None, None) => true,
            _ => false,
        }
    }

    /// The method as the client reads it.
    pub open spec fn json_view(self) -> JsonView {
        let base = json::put(
            json::put(
                json::put(
                    json::put(
                        json::put(Seq::empty(), "type"@, JsonView::Str("terminal"@)),
                        "id"@,
                        JsonView::Str(self.id@),
                    ),
                    "name"@,
                    JsonView::Str(self.name@),
                ),
                "description"@,
                JsonView::Str(self.description@),
            ),
            "args"@,
            JsonView::Array(text::texts(self.args@).map_values(|a: Seq<char>| JsonView::Str(a))),
        );
        match self.meta {
            Some(m) => JsonView::Object(json::put(base, "_meta"@, JsonView::Object(m@))),
            None => JsonView::Object(base),
        }
    }

    /// The method as the client reads it.
    pub fn to_json(&self) -> (r: Json)
        ensures
            r@ == self.json_view(),
    {
        broadcast use crate::json::json_view;

        let base = JsonMap::new().with("type", Json::text("terminal")).with(
            "id",
            Json::text(self.id.as_str()),
        ).with("name", Json::text(self.name.as_str())).with(
            "description",
            Json::text(self.description.as_str()),
        ).with("args", Json::text_list(&self.args));
        match &self.meta {
            Some(m) => Json::Object(base.with("_meta", Json::Object(m.clone()))),
            None => Json::Object(base),
        }
    }
}

/// The command line that opens pi for login, given this process's own.
pub fn terminal_auth_launch_spec(argv: &Vec<String>) -> (r: (String, Vec<String>))
    ensures
        (r.0@, text::texts(r.1@)) == launch_spec(text::texts(argv@)),
{
    if argv.len() >= 2 && text::contains(argv[0].as_str(), "node") && text::ends_with(
        argv[1].as_str(),
        ".js",
    ) {
        let mut args: Vec<String> = Vec::new();
        args.push(argv[1].clone());
        args.push("--terminal-login".to_owned());
        proof {
            assert(text::texts(args@) =~= seq![argv@[1]@, "--terminal-login"@]);
        }
        (argv[0].clone(), args)
    } else {
        let mut args: Vec<String> = Vec::new();
        args.push("--terminal-login".to_owned());
        proof {
            assert(text::texts(args@) =~= seq!["--terminal-login"@]);
        }
        ("pi-acp".to_owned(), args)
    }
}

/// The authentication methods to offer. `argv` is this process's command line;
/// the login command is attached for clients that render it themselves.
pub fn get_auth_methods(supports_terminal_auth_meta: bool, argv: &Vec<String>) -> (r: Vec<
    AuthMethod,
>)
    ensures
        r@.len() == 1,
        r@[0].is_terminal_login(
            if supports_terminal_auth_meta {
                let spec = launch_spec(text::texts(argv@));
                Some(launch_meta(spec.0, spec.1))
            } else {
                None
            },
        ),
{
    broadcast use crate::json::json_view;

    let meta = if supports_terminal_auth_meta {
        let (command, args) = terminal_auth_launch_spec(argv);
        let spec = JsonMap::new().with("command", Json::text(command.as_str())).with(
            "args",
            Json::text_list(&args),
        ).with("label", Json::text("Launch pi"));
        Some(JsonMap::new().with("terminal-auth", Json::Object(spec)))
    } else {
        None
    };
    let mut args: Vec<String> = Vec::new();
    args.push("--terminal-login".to_owned());
    proof {
        assert(text::texts(args@) =~= seq!["--terminal-login"@]);
    }
    let method = AuthMethod {
        id: PI_SETUP_METHOD_ID.to_owned(),
        name: "Launch pi in the terminal".to_owned(),
        description: "Start pi in an interactive terminal to configure API keys or login".to_owned(),
        args,
        meta,
    };
    let mut r: Vec<AuthMethod> = Vec::new();
    r.push(method);
    r
}

/// Whether lowercase error text names a credential problem.
pub open spec fn names_credentials(s: Seq<char>) -> bool {
    ||| text::has(s, "api key"@)
    ||| text::has(s, "apikey"@)
    ||| text::has(s, "missing key"@)
    ||| text::has(s, "no key"@)
    ||| text::has(s, "not configured"@)
    ||| text::has(s, "unauthorized"@)
    ||| text::has(s, "authentication"@)
    ||| text::has(s, "permission denied"@)
    ||| text::has(s, "forbidden"@)
    ||| text::has(s, "401"@)
    ||| text::has(s, "403"@)
}

/// Whether lowercase error text names a credential problem.
pub fn lowercase_text_names_credentials(s: &str) -> (r: bool)
    ensures
        r == names_credentials(s@),
{
    text::contains(s, "api key") || text::contains(s, "apikey") || text::contains(s, "missing key")
        || text::contains(s, "no key") || text::contains(s, "not configured") || text::contains(
        s,
        "unauthorized",
    ) || text::contains(s, "authentication") || text::contains(s, "permission denied")
        || text::contains(s, "forbidden") || text::contains(s, "401") || text::contains(s, "403")
}

/// The message itself when it looks like missing or refused credentials,
/// whatever its letter case.
pub fn maybe_auth_required_error(message: &str) -> (r: Option<String>)
    ensures
        text::opt_text(r) == (if names_credentials(text::lowercased(message@)) {
            Some(message@)
        } else {
            None
        }),
{
    let s = message.to_lowercase();
    if lowercase_text_names_credentials(s.as_str()) {
        Some(message.to_owned())
    } else {
        None
    }
}

// ---------------------------------------------------------------------------
// Laws
// ---------------------------------------------------------------------------

proof fn stands_in(front: Seq<char>, s: Seq<char>, rest: Seq<char>)
    ensures
        text::has(front + s + rest, s),
{
    let all = front + s + rest;
    assert(all.subrange(front.len() as int, (front.len() + s.len()) as int) =~= s);
    assert(text::occurs_at(all, s, front.len() as int));
}

/// A text that speaks of keys, of authentication or of what is forbidden,
/// wherever it does, names a problem of credentials.
pub proof fn credentials_are_named_anywhere(front: Seq<char>, rest: Seq<char>)
    ensures
        names_credentials(front + "api key"@ + rest),
        names_credentials(front + "apikey"@ + rest),
        names_credentials(front + "missing key"@ + rest),
        names_credentials(front + "no key"@ + rest),
        names_credentials(front + "not configured"@ + rest),
        names_credentials(front + "unauthorized"@ + rest),
        names_credentials(front + "authentication"@ + rest),
        names_credentials(front + "permission denied"@ + rest),
        names_credentials(front + "forbidden"@ + rest),
        names_credentials(front + "401"@ + rest),
        names_credentials(front + "403"@ + rest),
{
    stands_in(front, "api key"@, rest);
    stands_in(front, "apikey"@, rest);
    stands_in(front, "missing key"@, rest);
    stands_in(front, "no key"@, rest);
    stands_in(front, "not configured"@, rest);
    stands_in(front, "unauthorized"@, rest);
    stands_in(front, "authentication"@, rest);
    stands_in(front, "permission denied"@, rest);
    stands_in(front, "forbidden"@, rest);
    stands_in(front, "401"@, rest);
    stands_in(front, "403"@, rest);
}

/// A text without characters of those phrases names none: it is enough that it
/// lacks the letter `e` and the digit `4`.
pub proof fn other_texts_name_no_credentials(s: Seq<char>)
    requires
        !s.contains('e'),
        !s.contains('4'),
        !s.contains('u'),
    ensures
        !names_credentials(s),
{
    reveal_strlit("api key");
    reveal_strlit("apikey");
    reveal_strlit("missing key");
    reveal_strlit("no key");
    reveal_strlit("not configured");
    reveal_strlit("unauthorized");
    reveal_strlit("authentication");
    reveal_strlit("permission denied");
    reveal_strlit("forbidden");
    reveal_strlit("401");
    reveal_strlit("403");
    assert("api key"@.len() == 7 && "apikey"@.len() == 6 && "missing key"@.len() == 11);
    assert("no key"@.len() == 6 && "not configured"@.len() == 14 && "unauthorized"@.len() == 12);
    assert("authentication"@.len() == 14 && "permission denied"@.len() == 17 && "forbidden"@.len() == 9);
    assert("401"@.len() == 3 && "403"@.len() == 3);
    assert("401"@[2] != "403"@[2]);
    assert("apikey"@[0] != "no key"@[0]);
    assert("not configured"@[0] != "authentication"@[0]);
    lacks(s, "api key"@, 5);
    lacks(s, "apikey"@, 4);
    lacks(s, "missing key"@, 9);
    lacks(s, "no key"@, 4);
    lacks(s, "not configured"@, 12);
    lacks(s, "unauthorized"@, 10);
    lacks(s, "authentication"@, 4);
    lacks(s, "permission denied"@, 1);
    lacks(s, "forbidden"@, 7);
    lacks(s, "401"@, 0);
    lacks(s, "403"@, 0);
}

proof fn lacks(s: Seq<char>, p: Seq<char>, i: int)
    requires
        0 <= i < p.len(),
        !s.contains(p[i]),
    ensures
        !text::has(s, p),
{
    if text::has(s, p) {
        let j = choose|j: int| text::occurs_at(s, p, j);
        assert(s.subrange(j, j + p.len())[i] == s[j + i]);
        assert(s.contains(s[j + i]));
    }
}

/// The login runs the adapter again as it was run when that was through node,
/// and by its own name otherwise.
pub proof fn the_login_runs_the_adapter(argv: Seq<Seq<char>>)
    ensures
        argv.len() >= 2 && text::has(argv[0], "node"@) && text::ends(argv[1], ".js"@)
            ==> launch_spec(argv).0 == argv[0] && launch_spec(argv).1 == seq![
            argv[1],
            "--terminal-login"@,
        ],
        argv.len() < 2 || !text::has(argv[0], "node"@) || !text::ends(argv[1], ".js"@)
            ==> launch_spec(argv).0 == "pi-acp"@ && launch_spec(argv).1 == seq![
            "--terminal-login"@,
        ],
{
}

} // verus!
