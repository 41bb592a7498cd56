//! What Codex says of its work, read for titles, errors and denials, and what of
//! it is shown.

use crate::json::{Json, JsonView};
use crate::model::{AgentRun, RunView};
use crate::text::{
    begins_with, contains, first_chars, glue_texts, glued, has_part, lowered, split_words, starts_with,
    str_of, take_chars, text_of, to_lower, trim, trimmed, words,
};
use vstd::prelude::*;
use vstd::string::*;

verus! {

/// The title that a text gives, where it gives one.
pub open spec fn title_in(text: Option<Seq<char>>) -> Option<Seq<char>> {
    match text {
        Some(text) => if trimmed(text).len() > 0 {
            Some(trimmed(text))
        } else {
            None
        },
        None => None,
    }
}

/// The first of two texts that there is.
pub open spec fn first_of(first: Option<Seq<char>>, second: Option<Seq<char>>) -> Option<Seq<char>> {
    match first {
        Some(text) => Some(text),
        None => second,
    }
}

/// The title of a session that an event tells.
pub open spec fn session_title(value: JsonView) -> Option<Seq<char>> {
    first_of(
        title_in(value.text_at("title"@)),
        first_of(
            title_in(value.text_at("name"@)),
            first_of(
                title_in(value.text_at2("thread"@, "title"@)),
                first_of(
                    title_in(value.text_at2("thread"@, "name"@)),
                    first_of(
                        title_in(value.text_at2("session"@, "title"@)),
                        title_in(value.text_at2("session"@, "name"@)),
                    ),
                ),
            ),
        ),
    )
}

/// The title that a text gives, where it gives one.
pub fn read_title(text: Option<&str>) -> (r: Option<String>)
    ensures
        text_of(r) == title_in(str_of(text)),
{
    match text {
        Some(text) => {
            let title = trim(text);
            if title.as_str().is_empty() {
                None
            } else {
                Some(title)
            }
        },
        None => None,
    }
}

/// The title of a session that an event tells.
pub fn codex_session_title(value: &Json) -> (r: Option<String>)
    ensures
        text_of(r) == session_title(value@),
{
    if let Some(title) = read_title(value.text_at("title")) {
        return Some(title);
    }
    if let Some(title) = read_title(value.text_at("name")) {
        return Some(title);
    }
    if let Some(title) = read_title(value.text_at2("thread", "title")) {
        return Some(title);
    }
    if let Some(title) = read_title(value.text_at2("thread", "name")) {
        return Some(title);
    }
    if let Some(title) = read_title(value.text_at2("session", "title")) {
        return Some(title);
    }
    read_title(value.text_at2("session", "name"))
}

/// Whether a line that is no event is worth keeping.
pub open spec fn is_diagnostic(text: Seq<char>) -> bool {
    let lower = lowered(text);
    begins_with(lower, "error"@) || begins_with(lower, "warning"@) || has_part(lower, "failed"@)
        || has_part(lower, "usage limit"@)
}

/// Whether a line that is no event is worth keeping.
pub fn looks_like_diagnostic(text: &str) -> (r: bool)
    ensures
        r == is_diagnostic(text@),
{
    let lower = to_lower(text);
    starts_with(lower.as_str(), "error") || starts_with(lower.as_str(), "warning") || contains(
        lower.as_str(),
        "failed",
    ) || contains(lower.as_str(), "usage limit")
}

/// Whether a line of diagnostics tells that the run has failed.
pub open spec fn is_terminal_error(text: Seq<char>) -> bool {
    begins_with(text, "Error:"@) || begins_with(text, "Failed to create session:"@) || begins_with(
        text,
        "failed to initialize thread persistence:"@,
    )
}

/// Whether a line of diagnostics tells that the run has failed.
pub fn is_terminal_codex_stderr(text: &str) -> (r: bool)
    ensures
        r == is_terminal_error(text@),
{
    starts_with(text, "Error:") || starts_with(text, "Failed to create session:") || starts_with(
        text,
        "failed to initialize thread persistence:",
    )
}

/// Whether an error tells of an attempt to connect again.
pub open spec fn is_reconnect(message: Seq<char>) -> bool {
    has_part(lowered(message), "reconnecting..."@) && has_part(
        lowered(message),
        "stream disconnected before completion"@,
    )
}

/// Whether an error tells of an attempt to connect again.
pub fn is_transient_reconnect(message: &str) -> (r: bool)
    ensures
        r == is_reconnect(message@),
{
    let lower = to_lower(message);
    contains(lower.as_str(), "reconnecting...") && contains(
        lower.as_str(),
        "stream disconnected before completion",
    )
}

/// Whether a message tells that the project may not be written.
pub open spec fn is_denial(message: Seq<char>) -> bool {
    let lower = lowered(message);
    (has_part(lower, "read-only sandbox"@) || has_part(lower, "read-only permission profile"@)
        || has_part(lower, "writing is blocked"@) || has_part(lower, "workspace write access"@)) && (
    has_part(lower, "reject"@) || has_part(lower, "block"@) || has_part(lower, "disabled"@))
}

/// Whether a message tells that the project may not be written.
pub fn is_workspace_permission_denial(message: &str) -> (r: bool)
    ensures
        r == is_denial(message@),
{
    let lower = to_lower(message);
    let lower = lower.as_str();
    (contains(lower, "read-only sandbox") || contains(lower, "read-only permission profile") || contains(
        lower,
        "writing is blocked",
    ) || contains(lower, "workspace write access")) && (contains(lower, "reject") || contains(
        lower,
        "block",
    ) || contains(lower, "disabled"))
}

/// The error of an event, where it has one.
pub open spec fn error_member(value: JsonView) -> Option<JsonView> {
    match value.member("error"@) {
        Some(error) => Some(error),
        None => match value.member2("item"@, "error"@) {
            Some(error) => Some(error),
            None => value.member2("payload"@, "error"@),
        },
    }
}

/// The text of an error: itself, or its message.
pub open spec fn error_text(error: Option<JsonView>) -> Option<Seq<char>> {
    match error {
        Some(JsonView::Text(text)) => Some(text),
        Some(value) => value.text_at("message"@),
        None => None,
    }
}

/// The code of an error.
pub open spec fn error_code(value: JsonView) -> Option<Seq<char>> {
    first_of(
        match error_member(value) {
            Some(error) => error.text_at("code"@),
            None => None,
        },
        value.text_at("code"@),
    )
}

/// What an event says went wrong, with the code of the error where the message
/// does not hold it.
pub open spec fn diagnostic_message(value: JsonView) -> Option<Seq<char>> {
    let message = first_of(
        error_text(error_member(value)),
        first_of(
            value.text_at("message"@),
            first_of(
                value.text_at2("item"@, "message"@),
                value.text_at2("payload"@, "message"@),
            ),
        ),
    );
    match (message, error_code(value)) {
        (Some(message), Some(code)) => if has_part(message, code) {
            Some(message)
        } else {
            Some(message + " (code: "@ + code + ")"@)
        },
        (message, None) => message,
        (None, _) => None,
    }
}

/// The error of an event, where it has one.
fn read_error(value: &Json) -> (r: Option<&Json>)
    ensures
        match r {
            Some(error) => error_member(value@) == Some(error@),
            None => error_member(value@) is None,
        },
{
    if let Some(error) = value.get("error") {
        return Some(error);
    }
    if let Some(error) = value.get2("item", "error") {
        return Some(error);
    }
    value.get2("payload", "error")
}

/// The text of an error.
fn read_error_text(error: Option<&Json>) -> (r: Option<String>)
    ensures
        text_of(r) == error_text(
            match error {
                Some(error) => Some(error@),
                None => None,
            },
        ),
{
    match error {
        Some(error) => match error.as_text() {
            Some(text) => Some(text.to_owned()),
            None => match error.text_at("message") {
                Some(text) => Some(text.to_owned()),
                None => None,
            },
        },
        None => None,
    }
}

/// A copy of a text that there may be.
fn owned(text: Option<&str>) -> (r: Option<String>)
    ensures
        text_of(r) == str_of(text),
{
    match text {
        Some(text) => Some(text.to_owned()),
        None => None,
    }
}

/// What an event says went wrong.
pub fn extract_diagnostic_message(value: &Json) -> (r: Option<String>)
    ensures
        text_of(r) == diagnostic_message(value@),
{
    let error = read_error(value);
    let mut message = read_error_text(error);
    if message.is_none() {
        message = owned(value.text_at("message"));
    }
    if message.is_none() {
        message = owned(value.text_at2("item", "message"));
    }
    if message.is_none() {
        message = owned(value.text_at2("payload", "message"));
    }
    let mut code = match error {
        Some(error) => error.text_at("code"),
        None => None,
    };
    if code.is_none() {
        code = value.text_at("code");
    }
    match (message, code) {
        (Some(message), Some(code)) => if contains(message.as_str(), code) {
            Some(message)
        } else {
            let mut text = message;
            text.append(" (code: ");
            text.append(code);
            text.append(")");
            Some(text)
        },
        (message, None) => message,
        (None, _) => None,
    }
}

/// What an event with an error says went wrong.
pub open spec fn explicit_error(value: JsonView) -> Option<Seq<char>> {
    if error_member(value) is Some {
        diagnostic_message(value)
    } else {
        None
    }
}

/// What an event with an error says went wrong.
pub fn extract_explicit_error(value: &Json) -> (r: Option<String>)
    ensures
        text_of(r) == explicit_error(value@),
{
    if read_error(value).is_some() {
        extract_diagnostic_message(value)
    } else {
        None
    }
}

/// The name under which an agent is shown.
pub open spec fn display_name(run: RunView) -> Seq<char> {
    match first_of(title_in(run.user_title), title_in(run.codex_title)) {
        Some(title) => title,
        None => "Codex"@,
    }
}

/// The name under which an agent is shown.
pub fn agent_display_name(run: &AgentRun) -> (r: String)
    ensures
        r@ == display_name(run@),
{
    if let Some(title) = &run.user_title {
        if let Some(title) = read_title(Some(title.as_str())) {
            return title;
        }
    }
    if let Some(title) = &run.codex_title {
        if let Some(title) = read_title(Some(title.as_str())) {
            return title;
        }
    }
    "Codex".to_owned()
}

/// The longest summary, in characters.
pub const MAX_SUMMARY_CHARS: usize = 220;

/// A text on one line, cut where it is too long.
pub open spec fn summary_of(text: Seq<char>) -> Seq<char> {
    let compact = glued(words(text), " "@);
    if compact.len() <= MAX_SUMMARY_CHARS {
        compact
    } else {
        first_chars(compact, (MAX_SUMMARY_CHARS - 1) as nat).push('\u{2026}')
    }
}

/// A text on one line, cut where it is too long.
pub fn notification_summary(value: &str) -> (r: String)
    ensures
        r@ == summary_of(value@),
        r@.len() <= MAX_SUMMARY_CHARS,
{
    let compact = glue_texts(&split_words(value), " ");
    if compact.as_str().unicode_len() <= MAX_SUMMARY_CHARS {
        return compact;
    }
    let mut summary = take_chars(compact.as_str(), MAX_SUMMARY_CHARS - 1);
    summary.push('\u{2026}');
    summary
}

/// The title that a user gave comes before the one that Codex gave, and either before
/// the name of the program.
pub proof fn lemma_the_users_title_comes_first(run: RunView)
    ensures
        run.user_title is Some && trimmed(run.user_title->0).len() > 0 ==> display_name(run) == trimmed(
            run.user_title->0,
        ),
        (run.user_title is None || trimmed(run.user_title->0).len() == 0) && run.codex_title is Some && trimmed(
            run.codex_title->0,
        ).len() > 0 ==> display_name(run) == trimmed(run.codex_title->0),
        (run.user_title is None || trimmed(run.user_title->0).len() == 0) && (run.codex_title is None || trimmed(
            run.codex_title->0,
        ).len() == 0) ==> display_name(run) == "Codex"@,
{
}

/// A title that an event gives itself comes before that of its thread, and that before
/// the one of its session.
pub proof fn lemma_titles_have_an_order(value: JsonView)
    ensures
        title_in(value.text_at("title"@)) is Some ==> session_title(value) == title_in(value.text_at("title"@)),
        title_in(value.text_at("title"@)) is None && title_in(value.text_at("name"@)) is Some ==> session_title(
            value,
        ) == title_in(value.text_at("name"@)),
        title_in(value.text_at("title"@)) is None && title_in(value.text_at("name"@)) is None && title_in(
            value.text_at2("thread"@, "title"@),
        ) is Some ==> session_title(value) == title_in(value.text_at2("thread"@, "title"@)),
        session_title(value) is Some ==> session_title(value)->0.len() > 0,
{
}

/// A summary is one line of at most 220 characters; a short text is kept whole, and
/// one that is cut ends in an ellipsis.
pub proof fn lemma_summaries_are_short(text: Seq<char>)
    ensures
        summary_of(text).len() <= 220,
        glued(words(text), " "@).len() <= 220 ==> summary_of(text) == glued(words(text), " "@),
        glued(words(text), " "@).len() > 220 ==> summary_of(text).len() == 220 && summary_of(text).last()
            == '\u{2026}' && summary_of(text).drop_last() == glued(words(text), " "@).take(219),
{
    let compact = glued(words(text), " "@);
    if compact.len() > 220 {
        assert(summary_of(text).drop_last() =~= compact.take(219));
    }
}

/// What went wrong is told in the words of the error, with the code behind them where
/// they do not hold it.
pub proof fn lemma_errors_are_told_with_their_code(value: JsonView, message: Seq<char>, code: Seq<char>)
    requires
        value.text_at2("error"@, "message"@) == Some(message),
    ensures
        value.text_at2("error"@, "code"@) == Some(code) && has_part(message, code) ==> diagnostic_message(value)
            == Some(message),
        value.text_at2("error"@, "code"@) == Some(code) && !has_part(message, code) ==> diagnostic_message(value)
            == Some(message + " (code: "@ + code + ")"@),
        value.text_at2("error"@, "code"@) is None && value.text_at("code"@) is None ==> diagnostic_message(value)
            == Some(message),
        explicit_error(value) == diagnostic_message(value),
{
}

/// Only an event with an error tells of one.
pub proof fn lemma_events_without_error_tell_of_none(value: JsonView)
    requires
        value.member("error"@) is None,
        value.member2("item"@, "error"@) is None,
        value.member2("payload"@, "error"@) is None,
    ensures
        explicit_error(value) is None,
{
}

/// A message that only names the sandbox, or only a refusal, is no denial; it takes
/// both.
pub proof fn lemma_denials_name_sandbox_and_refusal(message: Seq<char>)
    ensures
        is_denial(message) ==> has_part(lowered(message), "reject"@) || has_part(lowered(message), "block"@)
            || has_part(lowered(message), "disabled"@),
        is_denial(message) ==> has_part(lowered(message), "read-only sandbox"@) || has_part(
            lowered(message),
            "read-only permission profile"@,
        ) || has_part(lowered(message), "writing is blocked"@) || has_part(
            lowered(message),
            "workspace write access"@,
        ),
        has_part(lowered(message), "read-only sandbox"@) && has_part(lowered(message), "reject"@) ==> is_denial(
            message,
        ),
        is_reconnect(message) <==> has_part(lowered(message), "reconnecting..."@) && has_part(
            lowered(message),
            "stream disconnected before completion"@,
        ),
        is_terminal_error(message) <==> begins_with(message, "Error:"@) || begins_with(
            message,
            "Failed to create session:"@,
        ) || begins_with(message, "failed to initialize thread persistence:"@),
{
}

} // verus!
