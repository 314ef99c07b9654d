//! What the environment configures.

use crate::commands;
use crate::mcp;
use crate::text;
use vstd::prelude::*;
use vstd::string::*;

verus! {

/// How long pi has to answer a request, in seconds, unless configured.
pub const DEFAULT_RPC_TIMEOUT_SECS: u64 = 30;

/// How long a turn may take to settle, in seconds, unless configured.
pub const DEFAULT_SETTLE_TIMEOUT_SECS: u64 = 600;

/// The variable that holds further arguments for pi.
pub const PI_EXTRA_ARGS_ENV: &'static str = "PI_ACP_PI_EXTRA_ARGS";

/// The arguments that a text is.
pub fn parse_pi_extra_args(raw: &str) -> (r: Vec<String>)
    ensures
        text::texts(r@) == commands::args_of(text::trimmed(raw@)),
{
    commands::parse_command_args(text::trim(raw))
}

/// The variables of the environment that configure the adapter.
#[derive(Debug)]
pub struct ConfigEnv {
    /// `PI_ACP_PI_COMMAND`.
    pub pi_command: Option<String>,
    /// `PI_ACP_ENABLE_EMBEDDED_CONTEXT`.
    pub embedded_context: Option<String>,
    /// `PI_ACP_VERSION_CHECK`.
    pub version_check: Option<String>,
    /// `PI_ACP_RPC_TIMEOUT_SECS`.
    pub rpc_timeout: Option<String>,
    /// `PI_ACP_SETTLE_TIMEOUT_SECS`.
    pub settle_timeout: Option<String>,
    /// `PI_ACP_PI_EXTRA_ARGS`.
    pub extra_args: Option<String>,
    /// `PI_ACP_ENABLE_MCP`.
    pub mcp: Option<String>,
}

/// What is configured.
#[derive(Debug)]
pub struct Config {
    /// The pi command.
    pub pi_command: String,
    /// Further arguments for pi.
    pub pi_extra_args: Vec<String>,
    /// Whether the client may embed resources in its prompts.
    pub enable_embedded_context: bool,
    /// Whether newer versions are looked for.
    pub enable_version_check: bool,
    /// Whether MCP is on.
    pub enable_mcp: bool,
    /// How long pi has to answer a request, in seconds.
    pub rpc_timeout_secs: u64,
    /// How long a turn may take to settle, in seconds; zero for any time.
    pub settle_timeout_secs: u64,
}

/// The model of a [`Config`].
pub struct ConfigView {
    pub pi_command: Seq<char>,
    pub pi_extra_args: Seq<Seq<char>>,
    pub enable_embedded_context: bool,
    pub enable_version_check: bool,
    pub enable_mcp: bool,
    pub rpc_timeout_secs: u64,
    pub settle_timeout_secs: u64,
}

impl View for Config {
    type V = ConfigView;

    open spec fn view(&self) -> ConfigView {
        ConfigView {
            pi_command: self.pi_command@,
            pi_extra_args: text::texts(self.pi_extra_args@),
            enable_embedded_context: self.enable_embedded_context,
            enable_version_check: self.enable_version_check,
            enable_mcp: self.enable_mcp,
            rpc_timeout_secs: self.rpc_timeout_secs,
            settle_timeout_secs: self.settle_timeout_secs,
        }
    }
}

impl Clone for Config {
    fn clone(&self) -> (r: Config)
        ensures
            r@ == self@,
    {
        Config {
            pi_command: self.pi_command.clone(),
            pi_extra_args: text::clone_texts(&self.pi_extra_args),
            enable_embedded_context: self.enable_embedded_context,
            enable_version_check: self.enable_version_check,
            enable_mcp: self.enable_mcp,
            rpc_timeout_secs: self.rpc_timeout_secs,
            settle_timeout_secs: self.settle_timeout_secs,
        }
    }
}

/// What holds unless configured.
pub open spec fn defaults() -> ConfigView {
    ConfigView {
        pi_command: "pi"@,
        pi_extra_args: Seq::empty(),
        enable_embedded_context: false,
        enable_version_check: false,
        enable_mcp: false,
        rpc_timeout_secs: DEFAULT_RPC_TIMEOUT_SECS,
        settle_timeout_secs: DEFAULT_SETTLE_TIMEOUT_SECS,
    }
}

impl Default for Config {
    fn default() -> (r: Config)
        ensures
            r@ == defaults(),
    {
        let r = Config {
            pi_command: "pi".to_owned(),
            pi_extra_args: Vec::new(),
            enable_embedded_context: false,
            enable_version_check: false,
            enable_mcp: false,
            rpc_timeout_secs: DEFAULT_RPC_TIMEOUT_SECS,
            settle_timeout_secs: DEFAULT_SETTLE_TIMEOUT_SECS,
        };
        assert(r@.pi_extra_args =~= Seq::empty());
        r
    }
}

/// The number of seconds that a variable holds.
pub open spec fn seconds(value: Option<Seq<char>>) -> Option<u64> {
    match value {
        Some(v) => match text::unsigned_in(text::trimmed(v)) {
            Some(n) => Some(n as u64),
            None => None,
        },
        None => None,
    }
}

fn read_seconds(value: &Option<String>) -> (r: Option<u64>)
    ensures
        r == seconds(text::opt_text(*value)),
{
    match value {
        Some(v) => text::read_unsigned(text::trim(v.as_str())),
        None => None,
    }
}

fn is_on(value: &Option<String>) -> (r: bool)
    ensures
        r == mcp::switched_on(text::opt_text(*value)),
{
    match value {
        Some(v) => mcp::mcp_enabled(Some(v.as_str())),
        None => false,
    }
}

/// What the environment configures.
pub open spec fn configured(env: ConfigEnv) -> ConfigView {
    ConfigView {
        pi_command: match env.pi_command {
            Some(c) => if text::trimmed(c@).len() > 0 {
                c@
            } else {
                defaults().pi_command
            },
            None => defaults().pi_command,
        },
        pi_extra_args: match env.extra_args {
            Some(v) => commands::args_of(text::trimmed(v@)),
            None => Seq::empty(),
        },
        enable_embedded_context: mcp::switched_on(text::opt_text(env.embedded_context)),
        enable_version_check: mcp::switched_on(text::opt_text(env.version_check)),
        enable_mcp: mcp::switched_on(text::opt_text(env.mcp)),
        rpc_timeout_secs: match seconds(text::opt_text(env.rpc_timeout)) {
            Some(n) => if n > 0 {
                n
            } else {
                DEFAULT_RPC_TIMEOUT_SECS
            },
            None => DEFAULT_RPC_TIMEOUT_SECS,
        },
        settle_timeout_secs: match seconds(text::opt_text(env.settle_timeout)) {
            Some(n) => n,
            None => DEFAULT_SETTLE_TIMEOUT_SECS,
        },
    }
}

impl Config {
    /// What the environment configures.
    pub fn from_env(env: &ConfigEnv) -> (r: Config)
        ensures
            r@ == configured(*env),
    {
        let pi_command = match &env.pi_command {
            Some(c) => if text::trim(c.as_str()).unicode_len() > 0 {
                c.clone()
            } else {
                "pi".to_owned()
            },
            None => "pi".to_owned(),
        };
        let pi_extra_args = match &env.extra_args {
            Some(v) => parse_pi_extra_args(v.as_str()),
            None => {
                let none: Vec<String> = Vec::new();
                assert(text::texts(none@) =~= Seq::empty());
                none
            },
        };
        let rpc_timeout_secs: u64 = match read_seconds(&env.rpc_timeout) {
            Some(n) => if n > 0 {
                n
            } else {
                DEFAULT_RPC_TIMEOUT_SECS
            },
            None => DEFAULT_RPC_TIMEOUT_SECS,
        };
        let settle_timeout_secs: u64 = match read_seconds(&env.settle_timeout) {
            Some(n) => n,
            None => DEFAULT_SETTLE_TIMEOUT_SECS,
        };
        Config {
            pi_command,
            pi_extra_args,
            enable_embedded_context: is_on(&env.embedded_context),
            enable_version_check: is_on(&env.version_check),
            enable_mcp: is_on(&env.mcp),
            rpc_timeout_secs,
            settle_timeout_secs,
        }
    }
}

// ---------------------------------------------------------------------------
// Laws
// ---------------------------------------------------------------------------

/// The command that runs pi is the one that was chosen, as it was written,
/// unless it is blank; else it is `pi`.
pub proof fn the_chosen_command_counts(env: ConfigEnv)
    ensures
        env.pi_command matches Some(c) ==> text::trimmed(c@).len() > 0 ==> configured(
            env,
        ).pi_command == c@,
        env.pi_command matches Some(c) ==> text::trimmed(c@).len() == 0 ==> configured(
            env,
        ).pi_command == "pi"@,
        env.pi_command is None ==> configured(env).pi_command == "pi"@,
{
}

/// pi is given the extra arguments that were chosen, word by word; none when
/// none were.
pub proof fn the_chosen_arguments_count(env: ConfigEnv)
    ensures
        env.extra_args matches Some(v) ==> configured(env).pi_extra_args == commands::args_of(
            text::trimmed(v@),
        ),
        env.extra_args is None ==> configured(env).pi_extra_args.len() == 0,
{
}

/// Switches are off unless they say `true`, in whatever case and with whatever
/// blanks round it.
pub proof fn switches_are_off_by_default(env: ConfigEnv)
    ensures
        configured(env).enable_mcp == (env.mcp matches Some(v) && text::ascii_lowered(
            text::trimmed(v@),
        ) == "true"@),
        configured(env).enable_version_check == (env.version_check matches Some(v)
            && text::ascii_lowered(text::trimmed(v@)) == "true"@),
        configured(env).enable_embedded_context == (env.embedded_context matches Some(v)
            && text::ascii_lowered(text::trimmed(v@)) == "true"@),
{
    reveal_strlit("true");
    assert(text::ascii_lowered("true"@) =~= "true"@);
}

/// A time that is a number of seconds counts; for answers of pi zero counts as
/// none chosen, for turns it means any time. Without a choice answers have half
/// a minute and turns ten minutes.
pub proof fn chosen_times_count(env: ConfigEnv, secs: u64)
    ensures
        env.rpc_timeout matches Some(v) ==> v@ == text::decimal(secs as nat) ==> configured(
            env,
        ).rpc_timeout_secs == if secs > 0 {
            secs
        } else {
            30
        },
        env.settle_timeout matches Some(v) ==> v@ == text::decimal(secs as nat) ==> configured(
            env,
        ).settle_timeout_secs == secs,
        env.rpc_timeout is None ==> configured(env).rpc_timeout_secs == 30,
        env.settle_timeout is None ==> configured(env).settle_timeout_secs == 600,
{
    let d = text::decimal(secs as nat);
    text::decimal_reads_back(secs as nat);
    assert(text::is_digit(d[0]));
    assert(text::is_digit(d[d.len() - 1]));
    text::trimmed_stays(d);
    assert(text::unsigned_in(d) == Some(secs as nat));
}

} // verus!
