//! The commands of the command palette.

use crate::ai::{error_text, AiError, AiOp};
use crate::text::{
    chars_of, contains_text, occurs_at, push_all, same_text, string_of, strip_leading_char, trim,
    trimmed, without_leading_char,
};
use crate::tui::AppState;
use vstd::prelude::*;

verus! {

/// An analysis that is to be run: what is asked, and of which note.
pub struct AiJob {
    pub op: AiOp,
    pub slug: String,
}

/// The name of the command in what was typed: the text behind the colons
/// at its front, without the white space at its two ends.
pub open spec fn command_name(input: Seq<char>) -> Seq<char> {
    trimmed(without_leading_char(input, ':'))
}

/// The analysis that a command name stands for.
pub open spec fn command_op(name: Seq<char>) -> Option<AiOp> {
    if name == "summarize"@ {
        Some(AiOp::Summarize)
    } else if name == "keywords"@ {
        Some(AiOp::Keywords)
    } else {
        None
    }
}

/// The status message for a command that is not known.
pub open spec fn unknown_text(name: Seq<char>) -> Seq<char> {
    ("Unknown command: '"@ + name).push('\'')
}

/// The status message for an analysis of the note `slug` that gave a text.
pub open spec fn done_text(op: AiOp, slug: Seq<char>) -> Seq<char> {
    match op {
        AiOp::Summarize => ("AI Summarize done for '"@ + slug).push('\''),
        AiOp::Keywords => ("AI Keywords done for '"@ + slug).push('\''),
    }
}

/// The status message for an analysis that failed with `error`.
pub open spec fn failed_text(error: Seq<char>) -> Seq<char> {
    "Error: "@ + error
}

/// The status message for a command that is not known holds its name.
pub proof fn lemma_unknown_text_names_command(name: Seq<char>)
    ensures
        contains_text(unknown_text(name), name),
{
    let at = "Unknown command: '"@.len() as int;
    assert(unknown_text(name).subrange(at, at + name.len()) =~= name);
    assert(occurs_at(unknown_text(name), name, at));
}

/// The name of the command in `cmd`, and the analysis that it stands for.
pub fn parse_command(cmd: &str) -> (r: (Option<AiOp>, Vec<char>))
    ensures
        r.1@ == command_name(cmd@),
        r.0 == command_op(r.1@),
{
    let name = trim(&strip_leading_char(&chars_of(cmd), ':'));
    let op = if same_text(&name, &chars_of("summarize")) {
        Some(AiOp::Summarize)
    } else if same_text(&name, &chars_of("keywords")) {
        Some(AiOp::Keywords)
    } else {
        None
    };
    (op, name)
}

/// Takes the command `cmd`. A known command asks for an analysis of the
/// selected note and changes nothing; without a selected note it does
/// nothing at all. Any other text sets a status message that names it, and
/// nothing else.
pub fn handle_cmd(cmd: String, st: &mut AppState) -> (r: Option<AiJob>)
    ensures
        final(st).same_lists(old(st)),
        final(st).same_selection(old(st)),
        final(st).same_overlay(old(st)),
        final(st).same_panels(old(st)),
        match command_op(command_name(cmd@)) {
            Some(op) => {
                &&& *final(st) == *old(st)
                &&& match old(st).selected() {
                    Some(slug) => r matches Some(job) && job.op == op && job.slug@ == slug,
                    None => r is None,
                }
            },
            None => {
                &&& r is None
                &&& final(st).status_message.deep_view() == Some(
                    unknown_text(command_name(cmd@)),
                )
                &&& final(st).status_message matches Some(message) && contains_text(
                    message@,
                    command_name(cmd@),
                )
            },
        },
{
    let (op, name) = parse_command(cmd.as_str());
    match op {
        Some(op) => match st.selected_note() {
            Some(slug) => Some(AiJob { op, slug: slug.clone() }),
            None => None,
        },
        None => {
            let mut message = chars_of("Unknown command: '");
            push_all(&mut message, &name);
            message.push('\'');
            proof {
                lemma_unknown_text_names_command(name@);
            }
            st.status_message = Some(string_of(&message));
            None
        },
    }
}

/// Takes the outcome of the analysis `job`. A text becomes the analysis
/// output, and the status message says for which note it is. A failure
/// leaves the analysis output as it was and becomes the status message.
pub fn command_finished(st: &mut AppState, job: &AiJob, outcome: Result<String, AiError>)
    ensures
        final(st).same_lists(old(st)),
        final(st).same_selection(old(st)),
        final(st).same_overlay(old(st)),
        final(st).active_tab == old(st).active_tab,
        final(st).show_tags == old(st).show_tags,
        match outcome {
            Ok(text) => {
                &&& final(st).last_ai_output == Some(text)
                &&& final(st).status_message.deep_view() == Some(done_text(job.op, job.slug@))
            },
            Err(error) => {
                &&& final(st).last_ai_output == old(st).last_ai_output
                &&& final(st).status_message.deep_view() == Some(failed_text(error_text(error)))
            },
        },
{
    match outcome {
        Ok(text) => {
            let mut message = match job.op {
                AiOp::Summarize => chars_of("AI Summarize done for '"),
                AiOp::Keywords => chars_of("AI Keywords done for '"),
            };
            push_all(&mut message, &chars_of(job.slug.as_str()));
            message.push('\'');
            st.last_ai_output = Some(text);
            st.status_message = Some(string_of(&message));
        },
        Err(error) => {
            let mut message = chars_of("Error: ");
            push_all(&mut message, &chars_of(error.message().as_str()));
            st.status_message = Some(string_of(&message));
        },
    }
}

} // verus!
