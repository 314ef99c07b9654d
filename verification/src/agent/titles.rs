//! The title that a conversation gets from its first prompt, and what a prompt
//! is sent to pi as.

use crate::commands;
use crate::commands::FileSlashCommand;
use crate::session::facts::{OutboundMessage, OutboundView, SessionInfoFact, SessionInfoView};
use crate::text;
use vstd::prelude::*;
use vstd::string::*;

verus! {

// ---------------------------------------------------------------------------
// Titles
// ---------------------------------------------------------------------------

/// How many characters come before the first blank.
pub open spec fn word_length(s: Seq<char>) -> nat
    decreases s.len(),
{
    if s.len() == 0 || text::is_white(s[0]) {
        0
    } else {
        1 + word_length(s.skip(1))
    }
}

/// Trimming drops characters or none.
pub proof fn trimming_shortens(s: Seq<char>)
    ensures
        text::trimmed_start(s).len() <= s.len(),
        text::trimmed_start(s).len() > 0 ==> !text::is_white(text::trimmed_start(s)[0]),
    decreases s.len(),
{
    if s.len() > 0 && text::is_white(s[0]) {
        trimming_shortens(s.skip(1));
    }
}

/// A word is no longer than its text.
pub proof fn words_fit(s: Seq<char>)
    ensures
        word_length(s) <= s.len(),
        s.len() > 0 && !text::is_white(s[0]) ==> word_length(s) > 0,
    decreases s.len(),
{
    if s.len() > 0 && !text::is_white(s[0]) {
        words_fit(s.skip(1));
    }
}

/// The words of a text.
pub open spec fn words_in(s: Seq<char>) -> Seq<Seq<char>>
    decreases s.len(),
{
    let t = text::trimmed_start(s);
    if t.len() == 0 {
        Seq::empty()
    } else {
        proof {
            trimming_shortens(s);
            words_fit(t);
        }
        seq![t.take(word_length(t) as int)] + words_in(t.skip(word_length(t) as int))
    }
}

/// The title that a prompt gives: its words with one blank between them, at
/// most 80 characters of it. A prompt without words gives none.
pub open spec fn prompt_title(message: Seq<char>) -> Option<Seq<char>> {
    if words_in(message).len() == 0 {
        None
    } else {
        Some(text::head(text::joined(words_in(message), " "@), 80))
    }
}

fn words(s: &str) -> (r: Vec<String>)
    ensures
        text::texts(r@) == words_in(s@),
{
    let mut out: Vec<String> = Vec::new();
    let mut rest: &str = s;
    proof {
        assert(text::texts(out@) =~= Seq::<Seq<char>>::empty());
        assert(text::texts(out@) + words_in(s@) =~= words_in(s@));
    }
    loop
        invariant
            text::texts(out@) + words_in(rest@) == words_in(s@),
        ensures
            text::texts(out@) == words_in(s@),
        decreases rest@.len(),
    {
        let t = text::trim_start(rest);
        let n: usize = t.unicode_len();
        proof {
            trimming_shortens(rest@);
            words_fit(t@);
        }
        if n == 0 {
            assert(text::texts(out@) + words_in(rest@) =~= text::texts(out@));
            break;
        }
        let mut k: usize = 0;
        assert(t@.skip(0) =~= t@);
        while k < n && !text::is_whitespace(t.get_char(k))
            invariant
                k <= n,
                n == t@.len(),
                word_length(t@) == k + word_length(t@.skip(k as int)),
            decreases n - k,
        {
            assert(t@.skip(k as int)[0] == t@[k as int]);
            assert(t@.skip(k as int).skip(1) =~= t@.skip(k + 1));
            k += 1;
        }
        proof {
            if k < n {
                assert(t@.skip(k as int)[0] == t@[k as int]);
            }
            assert(word_length(t@) == k);
            assert(t@.subrange(0, k as int) =~= t@.take(k as int));
            assert(t@.subrange(k as int, n as int) =~= t@.skip(k as int));
        }
        let word = t.substring_char(0, k);
        let ghost before = text::texts(out@);
        out.push(word.to_owned());
        rest = t.substring_char(k, n);
        proof {
            assert(text::texts(out@) =~= before.push(word@));
            assert(before.push(word@) + words_in(rest@) =~= before + (seq![word@] + words_in(
                rest@,
            )));
        }
    }
    out
}

/// The title that a prompt gives.
pub fn provisional_title_from_prompt(message: &str) -> (r: Option<String>)
    ensures
        text::opt_text(r) == prompt_title(message@),
{
    let found = words(message);
    if found.len() == 0 {
        None
    } else {
        let joined = text::join(&found, " ");
        Some(text::take_chars(joined.as_str(), 80).to_owned())
    }
}

/// Whether a prompt is a command: it starts with a slash.
pub open spec fn is_command(message: Seq<char>) -> bool {
    text::begins(text::trimmed_start(message), "/"@)
}

/// Whether a session has had its first prompt that is no command; that prompt
/// names the conversation.
#[derive(Debug)]
pub struct FirstPrompt {
    seen: bool,
}

impl View for FirstPrompt {
    type V = bool;

    closed spec fn view(&self) -> bool {
        self.seen
    }
}

impl FirstPrompt {
    /// There was no prompt yet.
    pub fn new() -> (r: FirstPrompt)
        ensures
            !r@,
    {
        FirstPrompt { seen: false }
    }

    /// Whether this is the first one; it is only once.
    pub fn mark_first_prompt(&mut self) -> (r: bool)
        ensures
            r == !old(self)@,
            final(self)@,
    {
        let first = !self.seen;
        self.seen = true;
        first
    }

    /// The update that names the conversation after a prompt; commands name
    /// nothing, and neither does any prompt but the first.
    pub fn title_update(&mut self, session_id: &str, message: &str, now: &str) -> (r: Option<
        OutboundMessage,
    >)
        ensures
            final(self)@ == (old(self)@ || !is_command(message@)),
            (match r {
                Some(m) => Some(m@),
                None => None,
            }) == (if old(self)@ || is_command(message@) {
                None
            } else {
                match prompt_title(message@) {
                    Some(t) => Some(
                        OutboundView::SessionInfo(
                            SessionInfoView {
                                session_id: session_id@,
                                title: Some(t),
                                updated_at: Some(now@),
                                meta: None,
                            },
                        ),
                    ),
                    None => None,
                }
            }),
    {
        if text::starts_with(text::trim_start(message), "/") {
            return None;
        }
        if !self.mark_first_prompt() {
            return None;
        }
        match provisional_title_from_prompt(message) {
            Some(title) => Some(
                OutboundMessage::SessionInfo(
                    SessionInfoFact {
                        session_id: session_id.to_owned(),
                        title: Some(title),
                        updated_at: Some(now.to_owned()),
                        meta: None,
                    },
                ),
            ),
            None => None,
        }
    }
}

impl Default for FirstPrompt {
    fn default() -> (r: FirstPrompt)
        ensures
            !r@,
    {
        FirstPrompt::new()
    }
}

/// What a prompt is sent to pi as, and whether it is a command of an
/// extension. Such a command goes before a prompt file of the same name and is
/// sent as it is; everything else is expanded.
pub fn prompt_for_pi(
    message: &str,
    extensions: Option<&Vec<String>>,
    files: &Vec<FileSlashCommand>,
) -> (r: (String, bool))
    ensures
        r.1 == (match (commands::slash_parts(message@), extensions) {
            (Some((name, _)), Some(known)) => text::texts(known@).contains(name),
            _ => false,
        }),
        r.0@ == (if r.1 {
            message@
        } else {
            commands::expanded(message@, commands::file_views(files@))
        }),
{
    if commands::is_extension_command(message, extensions) {
        (message.to_owned(), true)
    } else {
        (commands::expand_slash_command(message, files), false)
    }
}

// ---------------------------------------------------------------------------
// Laws
// ---------------------------------------------------------------------------

/// A title has at most 80 characters.
pub proof fn titles_are_short(message: Seq<char>)
    ensures
        prompt_title(message) matches Some(t) ==> t.len() <= 80,
{
}

/// Blanks around a prompt do not matter for its title.
pub proof fn leading_blanks_do_not_matter(message: Seq<char>, c: char)
    requires
        text::is_white(c),
    ensures
        prompt_title(seq![c] + message) == prompt_title(message),
{
    let s = seq![c] + message;
    assert(s.skip(1) =~= message);
    assert(text::trimmed_start(s) == text::trimmed_start(message));
}

proof fn word_is(w: Seq<char>, rest: Seq<char>)
    requires
        forall|j: int| 0 <= j < w.len() ==> !text::is_white(#[trigger] w[j]),
        rest.len() == 0 || text::is_white(rest[0]),
    ensures
        word_length(w + rest) == w.len(),
    decreases w.len(),
{
    let s = w + rest;
    if w.len() == 0 {
        assert(s =~= rest);
    } else {
        assert(!text::is_white(w[0]));
        let tail = w.skip(1);
        assert forall|j: int| 0 <= j < tail.len() implies !text::is_white(#[trigger] tail[j]) by {
            assert(tail[j] == w[j + 1]);
        }
        word_is(tail, rest);
        assert(s.skip(1) =~= tail + rest);
    }
}

/// The words of a message are what stands between blanks, in order.
pub proof fn words_stand_between_blanks(w: Seq<char>, c: char, rest: Seq<char>)
    requires
        w.len() > 0,
        forall|j: int| 0 <= j < w.len() ==> !text::is_white(#[trigger] w[j]),
        text::is_white(c),
    ensures
        words_in(w) == seq![w],
        words_in(w + seq![c] + rest) == seq![w] + words_in(rest),
        words_in(seq![c] + rest) == words_in(rest),
        words_in(Seq::empty()).len() == 0,
{
    assert(!text::is_white(w[0]));
    let s = w + seq![c] + rest;
    assert(s[0] == w[0]);
    assert(text::trimmed_start(s) == s);
    word_is(w, seq![c] + rest);
    assert(s =~= w + (seq![c] + rest));
    assert(s.take(w.len() as int) =~= w);
    let tail = seq![c] + rest;
    assert(s.skip(w.len() as int) =~= tail);
    assert(tail.skip(1) =~= rest);
    assert(text::trimmed_start(tail) == text::trimmed_start(rest));
    assert(words_in(tail) == words_in(rest));
    word_is(w, Seq::empty());
    assert(w + Seq::<char>::empty() =~= w);
    assert(text::trimmed_start(w) == w);
    assert(w.take(w.len() as int) =~= w);
    assert(w.skip(w.len() as int) =~= Seq::<char>::empty());
    assert(words_in(Seq::<char>::empty()) =~= Seq::<Seq<char>>::empty());
    assert(seq![w] + Seq::<Seq<char>>::empty() =~= seq![w]);
}

/// A session is named by its first message: its words with one blank between
/// them, cut at eighty characters. A message without words gives no name.
pub proof fn the_first_message_names_the_session(message: Seq<char>)
    ensures
        words_in(message).len() == 0 ==> prompt_title(message) is None,
        words_in(message).len() > 0 ==> {
            let whole = text::joined(words_in(message), " "@);
            prompt_title(message) == Some(
                if whole.len() <= 80 {
                    whole
                } else {
                    whole.take(80)
                },
            )
        },
{
}

/// A message whose first mark is a slash is a command, whatever blanks come
/// before it; any other is none.
pub proof fn commands_begin_with_a_slash(message: Seq<char>, c: char)
    ensures
        message.len() > 0 && message[0] == '/' ==> is_command(message),
        message.len() > 0 && !text::is_white(message[0]) && message[0] != '/' ==> !is_command(
            message,
        ),
        text::is_white(c) ==> is_command(seq![c] + message) == is_command(message),
        !is_command(Seq::empty()),
{
    reveal_strlit("/");
    assert("/"@.len() == 1 && "/"@[0] == '/');
    assert(!text::is_white('/'));
    if message.len() > 0 && message[0] == '/' {
        assert(message.subrange(0, 1) =~= "/"@);
    }
    if message.len() > 0 && text::begins(message, "/"@) {
        assert(message.subrange(0, 1)[0] == message[0]);
    }
    assert((seq![c] + message).skip(1) =~= message);
}

} // verus!
