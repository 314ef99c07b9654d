//! `session/prompt`: a prompt is a command of the agent's own or a turn of pi,
//! and what the client is answered when the turn is over.

use crate::agent::builtin;
use crate::agent::builtin::Step;
use crate::agent::titles;
use crate::agent::titles::FirstPrompt;
use crate::commands;
use crate::commands::FileSlashCommand;
use crate::error;
use crate::error::{AcpError, AcpxError};
use crate::json;
use crate::json::{Json, JsonMap, JsonView};
use crate::pi::rpc;
use crate::pi::rpc::ImageContent;
use crate::render;
use crate::session::facts::{OutboundMessage, OutboundView, SessionInfoView, StopReason};
use crate::session::pump::{QueuedTurn, TurnView};
use crate::text;
use crate::translate::prompt;
use crate::translate::prompt::PiPrompt;
use vstd::prelude::*;
use vstd::string::*;

verus! {

/// A prompt that pi is to answer.
#[derive(Debug)]
pub struct NewTurn {
    /// The update that names the conversation, sent first.
    pub title: Option<OutboundMessage>,
    /// The prompt.
    pub prompt: PiPrompt,
}

/// What a prompt is.
#[derive(Debug)]
pub enum Plan {
    /// A command of the agent's own, with its first step.
    Own(Step),
    /// A turn of pi.
    Turn(NewTurn),
}

/// The update that names a conversation after a prompt, if that prompt does.
pub open spec fn naming(seen: bool, session_id: Seq<char>, message: Seq<char>, now: Seq<char>) -> Option<
    OutboundView,
> {
    if seen || titles::is_command(message) {
        None
    } else {
        match titles::prompt_title(message) {
            Some(t) => Some(
                OutboundView::SessionInfo(
                    SessionInfoView {
                        session_id,
                        title: Some(t),
                        updated_at: Some(now),
                        meta: None,
                    },
                ),
            ),
            None => None,
        }
    }
}

/// What a prompt is. The agent's own commands name no conversation and are not
/// sent to pi.
pub fn plan_prompt(first: &mut FirstPrompt, session_id: &str, given: PiPrompt, now: &str) -> (r:
    Plan)
    ensures
        match r {
            Plan::Own(s) => {
                &&& builtin::first_step(
                    session_id@,
                    given.message@,
                    given.images@.len() > 0,
                ) == Some(s@)
                &&& final(first)@ == old(first)@
            },
            Plan::Turn(t) => {
                &&& builtin::first_step(
                    session_id@,
                    given.message@,
                    given.images@.len() > 0,
                ) is None
                &&& t.prompt == given
                &&& (match t.title {
                    Some(m) => Some(m@),
                    None => None,
                }) == naming(old(first)@, session_id@, given.message@, now@)
                &&& final(first)@ == (old(first)@ || !titles::is_command(given.message@))
            },
        },
{
    match builtin::handle_builtin_command(
        session_id,
        given.message.as_str(),
        given.images.len() > 0,
    ) {
        Some(step) => Plan::Own(step),
        None => {
            let title = first.title_update(session_id, given.message.as_str(), now);
            Plan::Turn(NewTurn { title, prompt: given })
        },
    }
}

impl NewTurn {
    /// Whether it has to be known which commands pi's extensions have: the
    /// prompt names a command.
    pub fn names_command(&self) -> (r: bool)
        ensures
            r == (commands::slash_parts(self.prompt.message@) is Some),
    {
        commands::slash_command_name(self.prompt.message.as_str()).is_some()
    }

    /// The turn as it is handed to the session. A command of an extension is
    /// sent as it is; everything else is expanded by the prompt files.
    pub fn queued(
        self,
        extensions: Option<&Vec<String>>,
        files: &Vec<FileSlashCommand>,
        ticket: u64,
    ) -> (r: QueuedTurn)
        ensures
            ({
                let known = match (commands::slash_parts(self.prompt.message@), extensions) {
                    (Some((name, _)), Some(names)) => text::texts(names@).contains(name),
                    _ => false,
                };
                r@ == TurnView {
                    message: if known {
                        self.prompt.message@
                    } else {
                        commands::expanded(self.prompt.message@, commands::file_views(files@))
                    },
                    images: prompt::pi_image_views(self.prompt.images@),
                    extension_command: known,
                    ticket,
                }
            }),
    {
        let (message, extension_command) = titles::prompt_for_pi(
            self.prompt.message.as_str(),
            extensions,
            files,
        );
        let images: Vec<ImageContent> = match prompt::to_pi_images(&self.prompt.images) {
            Some(v) => v,
            None => {
                let none: Vec<ImageContent> = Vec::new();
                assert(rpc::image_views(none@) =~= prompt::pi_image_views(self.prompt.images@));
                none
            },
        };
        QueuedTurn { message, images, extension_command, ticket }
    }
}

/// The answer to `session/prompt` once the turn is over, given why it ended or
/// how it failed.
pub fn prompt_response(outcome: Result<StopReason, AcpxError>, argv: &Vec<String>) -> (r: Result<
    Json,
    AcpError,
>)
    ensures
        match r {
            Ok(v) => outcome is Ok && v@ == JsonView::Object(
                json::put(
                    Seq::empty(),
                    "stopReason"@,
                    JsonView::Str(render::stop_reason(outcome->Ok_0)),
                ),
            ),
            Err(e) => {
                &&& outcome is Err
                &&& error::is_auth_failure(outcome->Err_0@) ==> e.demands_auth(text::texts(argv@))
                &&& !error::is_auth_failure(outcome->Err_0@) ==> e.reports(
                    outcome->Err_0@,
                    text::texts(argv@),
                )
            },
        },
{
    broadcast use crate::json::json_view;

    match outcome {
        Ok(reason) => Ok(
            Json::Object(
                JsonMap::new().with("stopReason", Json::text(render::acp_stop_reason(reason))),
            ),
        ),
        Err(f) => Err(error::acp_error_from_pi(&f, argv)),
    }
}

// ---------------------------------------------------------------------------
// Laws
// ---------------------------------------------------------------------------

/// The first message that is no command names the session; later ones, and
/// commands, do not.
pub proof fn the_first_message_names(
    session_id: Seq<char>,
    message: Seq<char>,
    now: Seq<char>,
    t: Seq<char>,
)
    ensures
        naming(true, session_id, message, now) is None,
        titles::is_command(message) ==> naming(false, session_id, message, now) is None,
        !titles::is_command(message) && titles::prompt_title(message) == Some(t) ==> (naming(
            false,
            session_id,
            message,
            now,
        ) matches Some(OutboundView::SessionInfo(i)) && i.session_id == session_id && i.title
            == Some(t) && i.updated_at == Some(now)),
{
}

} // verus!
