use nrs::ai::{
    chat_request, first_choice, openai_request, openai_result, AiError, AiOp, Role,
};
use nrs::commands::{command_finished, handle_cmd, parse_command, AiJob};
use nrs::notes::NoteFiles;
use nrs::text::string_of;
use nrs::tui::{Action, AppState, KeyCode, KeyPress};

fn names(list: &[&str]) -> Vec<String> {
    list.iter().map(|s| s.to_string()).collect()
}

fn state() -> AppState {
    let mut files = NoteFiles::new();
    files.add("a".to_string(), "text of a".to_string());
    AppState::new(names(&["a", "b"]), &files)
}

#[test]
fn parse_strips_colons_and_white_space() {
    let (op, name) = parse_command(":: summarize\t");
    assert_eq!(op, Some(AiOp::Summarize));
    assert_eq!(string_of(&name), "summarize");
    let (op, name) = parse_command("keywords");
    assert_eq!(op, Some(AiOp::Keywords));
    assert_eq!(string_of(&name), "keywords");
}

#[test]
fn parse_knows_no_other_command() {
    for cmd in [":foo", "", ":", ":Summarize", ":summarize now", " :summarize"] {
        assert_eq!(parse_command(cmd).0, None);
    }
    assert_eq!(string_of(&parse_command(" :summarize").1), ":summarize");
}

#[test]
fn unknown_command_sets_status_only() {
    let mut st = state();
    let job = handle_cmd(":foo".to_string(), &mut st);
    assert!(job.is_none());
    assert_eq!(st.notes, names(&["a", "b"]));
    assert_eq!(st.filtered_notes, names(&["a", "b"]));
    let status = st.status_message.clone().unwrap();
    assert_eq!(status, "Unknown command: 'foo'");
    assert!(status.contains("foo"));
    assert_eq!(st.last_ai_output, None);
    assert_eq!(st.selected_idx, 0);
}

#[test]
fn known_command_asks_for_the_selected_note() {
    let mut st = state();
    let job = handle_cmd(":summarize".to_string(), &mut st).unwrap();
    assert_eq!(job.op, AiOp::Summarize);
    assert_eq!(job.slug, "a");
    assert_eq!(st.status_message, None);
    assert_eq!(st.last_ai_output, None);
}

#[test]
fn known_command_without_note_does_nothing() {
    let mut st = AppState::new(Vec::new(), &NoteFiles::new());
    assert!(handle_cmd(":keywords".to_string(), &mut st).is_none());
    assert_eq!(st.status_message, None);
    assert_eq!(st.last_ai_output, None);
}

#[test]
fn finished_analysis_sets_the_output() {
    let mut st = state();
    let job = AiJob { op: AiOp::Summarize, slug: "a".to_string() };
    command_finished(&mut st, &job, Ok("short".to_string()));
    assert_eq!(st.last_ai_output, Some("short".to_string()));
    assert_eq!(st.status_message, Some("AI Summarize done for 'a'".to_string()));
    let job = AiJob { op: AiOp::Keywords, slug: "b".to_string() };
    command_finished(&mut st, &job, Ok("k1, k2".to_string()));
    assert_eq!(st.last_ai_output, Some("k1, k2".to_string()));
    assert_eq!(st.status_message, Some("AI Keywords done for 'b'".to_string()));
}

#[test]
fn failed_analysis_keeps_the_last_output() {
    let mut st = state();
    let job = AiJob { op: AiOp::Summarize, slug: "a".to_string() };
    command_finished(&mut st, &job, Ok("short".to_string()));
    command_finished(&mut st, &job, Err(AiError::Transport("connection refused".to_string())));
    assert_eq!(st.last_ai_output, Some("short".to_string()));
    assert_eq!(st.status_message, Some("Error: connection refused".to_string()));
}

#[test]
fn missing_credential_is_reported_and_the_session_goes_on() {
    let mut st = state();
    let files = NoteFiles::new();
    let job = handle_cmd(":summarize".to_string(), &mut st).unwrap();
    let outcome = match openai_request(job.op, "text of a", None) {
        Ok(_) => panic!("nothing may be sent without a credential"),
        Err(e) => Err(e),
    };
    command_finished(&mut st, &job, outcome);
    assert_eq!(st.last_ai_output, None);
    let status = st.status_message.clone().unwrap();
    assert_eq!(status, "Error: Please set OPENAI_API_KEY!");
    assert!(status.contains("OPENAI_API_KEY"));
    let next = st.handle_key(KeyPress { code: KeyCode::Char('j'), plain: true }, &files);
    assert!(matches!(next, Action::Continue));
    assert_eq!(st.selected_idx, 1);
}

#[test]
fn request_holds_instruction_and_note() {
    let r = chat_request(AiOp::Summarize, "my note");
    assert_eq!(r.model, "gpt-4o-latest");
    assert_eq!(r.messages.len(), 2);
    assert_eq!(r.messages[0].role, Role::System);
    assert_eq!(r.messages[0].content, "You are a helpful assistant that summarizes notes.");
    assert_eq!(r.messages[1].role, Role::User);
    assert_eq!(r.messages[1].content, "Summarize:\n\nmy note");
    let r = chat_request(AiOp::Keywords, "my note");
    assert_eq!(r.messages[0].content, "You are a helpful assistant that extracts keywords.");
    assert_eq!(r.messages[1].content, "Extract keywords:\n\nmy note");
}

#[test]
fn request_goes_out_under_the_credential() {
    match openai_request(AiOp::Keywords, "n", Some("secret".to_string())) {
        Ok(call) => {
            assert_eq!(call.api_key, "secret");
            assert_eq!(call.request.messages[1].content, "Extract keywords:\n\nn");
        }
        Err(_) => panic!("the credential was there"),
    }
    assert!(matches!(openai_request(AiOp::Keywords, "n", None), Err(AiError::MissingCredential)));
}

#[test]
fn answer_is_the_first_choice() {
    let choices = vec!["one".to_string(), "two".to_string()];
    assert_eq!(first_choice(AiOp::Summarize, &choices), "one");
    assert_eq!(first_choice(AiOp::Summarize, &Vec::new()), "No summary received.");
    assert_eq!(first_choice(AiOp::Keywords, &Vec::new()), "No keywords received.");
}

#[test]
fn result_maps_transport_failure() {
    assert!(matches!(openai_result(AiOp::Summarize, Ok(vec!["x".to_string()])), Ok(t) if t == "x"));
    assert!(matches!(openai_result(AiOp::Keywords, Ok(Vec::new())), Ok(t) if t == "No keywords received."));
    match openai_result(AiOp::Summarize, Err("timeout".to_string())) {
        Err(e) => assert_eq!(e.message(), "timeout"),
        Ok(_) => panic!("the exchange failed"),
    }
    assert_eq!(AiError::MissingCredential.message(), "Please set OPENAI_API_KEY!");
}
