use nrs::notes::NoteFiles;
use nrs::tui::{
    copy_names, editor_command, is_part_of, matching_notes, position_of, same_names, Action, AppState, KeyCode,
    KeyPress, OverlayMode, TabState,
};

fn names(list: &[&str]) -> Vec<String> {
    list.iter().map(|s| s.to_string()).collect()
}

fn files(list: &[(&str, &str)]) -> NoteFiles {
    let mut out = NoteFiles::new();
    for (slug, content) in list {
        out.add(slug.to_string(), content.to_string());
    }
    out
}

fn sample_files() -> NoteFiles {
    files(&[
        ("apple_pie", "---\ntitle: Apple Pie\ntags: [food]\n---\nBake it.\nEat it."),
        ("banana", "Yellow FRUIT"),
        ("cherry", "red fruit\nsmall"),
    ])
}

fn sample() -> AppState {
    AppState::new(names(&["apple_pie", "banana", "cherry", "ghost"]), &sample_files())
}

fn key(c: char) -> KeyPress {
    KeyPress { code: KeyCode::Char(c), plain: true }
}

fn press(code: KeyCode) -> KeyPress {
    KeyPress { code, plain: true }
}

fn type_text(st: &mut AppState, text: &str, fs: &NoteFiles) {
    for c in text.chars() {
        assert!(matches!(st.handle_key(key(c), fs), Action::Continue));
    }
}

#[test]
fn new_state_selects_first_note() {
    let st = sample();
    assert_eq!(st.notes, names(&["apple_pie", "banana", "cherry", "ghost"]));
    assert_eq!(st.filtered_notes, st.notes);
    assert_eq!(st.selected_idx, 0);
    assert_eq!(st.overlay, OverlayMode::Closed);
    assert_eq!(st.overlay_input, "");
    assert_eq!(st.last_ai_output, None);
    assert_eq!(st.preview, Some("Bake it.\nEat it.".to_string()));
    assert_eq!(st.status_message, None);
    assert_eq!(st.active_tab, TabState::Notes);
    assert_eq!(st.search_query, None);
    assert!(!st.show_tags);
}

#[test]
fn new_state_without_notes_has_no_preview() {
    let st = AppState::new(Vec::new(), &NoteFiles::new());
    assert_eq!(st.selected_idx, 0);
    assert_eq!(st.selected_note(), None);
    assert_eq!(st.preview, None);
}

#[test]
fn next_wraps_around_after_len_steps() {
    let fs = sample_files();
    for start in 0..4 {
        let mut st = sample();
        for _ in 0..start {
            st.next_note(&fs);
        }
        assert_eq!(st.selected_idx, start);
        for _ in 0..st.notes.len() {
            st.next_note(&fs);
        }
        assert_eq!(st.selected_idx, start);
    }
}

#[test]
fn next_goes_from_last_to_first() {
    let fs = sample_files();
    let mut st = sample();
    st.next_note(&fs);
    assert_eq!(st.selected_idx, 1);
    assert_eq!(st.preview, Some("Yellow FRUIT".to_string()));
    st.next_note(&fs);
    st.next_note(&fs);
    assert_eq!(st.selected_idx, 3);
    assert_eq!(st.preview, None);
    st.next_note(&fs);
    assert_eq!(st.selected_idx, 0);
    assert_eq!(st.preview, Some("Bake it.\nEat it.".to_string()));
}

#[test]
fn prev_goes_from_first_to_last() {
    let fs = sample_files();
    let mut st = sample();
    st.prev_note(&fs);
    assert_eq!(st.selected_idx, 3);
    st.prev_note(&fs);
    assert_eq!(st.selected_idx, 2);
    assert_eq!(st.preview, Some("red fruit\nsmall".to_string()));
}

#[test]
fn navigation_in_empty_list_changes_nothing() {
    let fs = NoteFiles::new();
    let mut st = AppState::new(Vec::new(), &fs);
    st.next_note(&fs);
    assert_eq!(st.selected_idx, 0);
    st.prev_note(&fs);
    assert_eq!(st.selected_idx, 0);
    assert_eq!(st.preview, None);
}

#[test]
fn selected_note_follows_the_shown_list() {
    let fs = sample_files();
    let mut st = sample();
    st.next_note(&fs);
    assert_eq!(st.selected_note(), Some(&"banana".to_string()));
    st.search_query = Some("cherry".to_string());
    st.apply_search(&fs);
    assert_eq!(st.selected_note(), Some(&"cherry".to_string()));
}

#[test]
fn toggle_tab_has_period_three() {
    let mut st = sample();
    st.toggle_tab();
    assert_eq!(st.active_tab, TabState::Preview);
    st.toggle_tab();
    assert_eq!(st.active_tab, TabState::AI);
    st.toggle_tab();
    assert_eq!(st.active_tab, TabState::Notes);
}

#[test]
fn search_keeps_order_and_matches_name_or_content() {
    let fs = sample_files();
    let mut st = sample();
    st.search_query = Some("FRUIT".to_string());
    st.apply_search(&fs);
    assert_eq!(st.filtered_notes, names(&["banana", "cherry"]));
    assert_eq!(st.selected_idx, 0);
    assert_eq!(st.preview, Some("Yellow FRUIT".to_string()));
    st.search_query = Some("PIE".to_string());
    st.apply_search(&fs);
    assert_eq!(st.filtered_notes, names(&["apple_pie"]));
    st.search_query = Some("h".to_string());
    st.apply_search(&fs);
    assert_eq!(st.filtered_notes, names(&["cherry", "ghost"]));
}

#[test]
fn search_without_hits_shows_nothing() {
    let fs = sample_files();
    let mut st = sample();
    st.search_query = Some("zebra".to_string());
    st.apply_search(&fs);
    assert!(st.filtered_notes.is_empty());
    assert_eq!(st.selected_note(), None);
    assert_eq!(st.preview, None);
    st.next_note(&fs);
    assert_eq!(st.selected_idx, 0);
}

#[test]
fn apply_search_without_query_shows_all() {
    let fs = sample_files();
    let mut st = sample();
    st.next_note(&fs);
    st.filtered_notes = Vec::new();
    st.apply_search(&fs);
    assert_eq!(st.filtered_notes, st.notes);
    assert_eq!(st.selected_idx, 1);
}

#[test]
fn matching_notes_is_a_subsequence() {
    let fs = sample_files();
    let all = names(&["cherry", "banana", "apple_pie", "banana"]);
    assert_eq!(matching_notes(&all, "an", &fs), names(&["banana", "banana"]));
    assert_eq!(matching_notes(&all, "", &fs), all);
    assert_eq!(matching_notes(&all, "e", &fs), names(&["cherry", "banana", "apple_pie", "banana"]));
}

#[test]
fn copy_names_copies() {
    let all = names(&["a", "b"]);
    assert_eq!(copy_names(&all), all);
}

#[test]
fn position_of_gives_first_or_zero() {
    let all = names(&["a", "b", "c", "b"]);
    assert_eq!(position_of(&all, &"b".to_string()), 1);
    assert_eq!(position_of(&all, &"a".to_string()), 0);
    assert_eq!(position_of(&all, &"z".to_string()), 0);
}

#[test]
fn quit_only_without_overlay_and_modifier() {
    let fs = sample_files();
    let mut st = sample();
    assert!(matches!(st.handle_key(KeyPress { code: KeyCode::Char('q'), plain: false }, &fs), Action::Continue));
    assert!(matches!(st.handle_key(key('q'), &fs), Action::Quit));
    st.handle_key(key('/'), &fs);
    assert!(matches!(st.handle_key(key('q'), &fs), Action::Continue));
    assert_eq!(st.overlay, OverlayMode::Search);
    assert_eq!(st.overlay_input, "q");
}

#[test]
fn browser_keys_navigate() {
    let fs = sample_files();
    let mut st = sample();
    st.handle_key(key('j'), &fs);
    assert_eq!(st.selected_idx, 1);
    st.handle_key(press(KeyCode::Down), &fs);
    assert_eq!(st.selected_idx, 2);
    st.handle_key(key('k'), &fs);
    assert_eq!(st.selected_idx, 1);
    st.handle_key(press(KeyCode::Up), &fs);
    assert_eq!(st.selected_idx, 0);
    st.handle_key(press(KeyCode::Tab), &fs);
    assert_eq!(st.active_tab, TabState::Preview);
}

#[test]
fn browser_keys_open_overlays() {
    let fs = sample_files();
    for (c, mode) in [
        (':', OverlayMode::CommandPalette),
        ('n', OverlayMode::NoteCreation),
        ('/', OverlayMode::Search),
        ('h', OverlayMode::Help),
    ] {
        let mut st = sample();
        assert!(matches!(st.handle_key(key(c), &fs), Action::Continue));
        assert_eq!(st.overlay, mode);
        assert_eq!(st.overlay_input, "");
        assert!(matches!(st.handle_key(press(KeyCode::Esc), &fs), Action::Continue));
        assert_eq!(st.overlay, OverlayMode::Closed);
        assert_eq!(st.overlay_input, "");
    }
}

#[test]
fn browser_keys_ask_for_outside_work() {
    let fs = sample_files();
    let mut st = sample();
    st.handle_key(key('j'), &fs);
    match st.handle_key(key('e'), &fs) {
        Action::EditNote(slug) => assert_eq!(slug, "banana"),
        _ => panic!("the editor was not asked for"),
    }
    assert!(matches!(st.handle_key(key('r'), &fs), Action::Rescan));
    let mut none = AppState::new(Vec::new(), &fs);
    assert!(matches!(none.handle_key(key('e'), &fs), Action::Continue));
}

#[test]
fn tag_display_toggles_with_status() {
    let fs = sample_files();
    let mut st = sample();
    st.handle_key(key('t'), &fs);
    assert!(st.show_tags);
    assert_eq!(st.status_message, Some("Tags display: on".to_string()));
    st.handle_key(key('t'), &fs);
    assert!(!st.show_tags);
    assert_eq!(st.status_message, Some("Tags display: off".to_string()));
}

#[test]
fn unknown_keys_change_nothing() {
    let fs = sample_files();
    let mut st = sample();
    for k in [key('x'), press(KeyCode::Enter), press(KeyCode::Backspace), press(KeyCode::Other), press(KeyCode::Esc)] {
        assert!(matches!(st.handle_key(k, &fs), Action::Continue));
    }
    assert_eq!(st.selected_idx, 0);
    assert_eq!(st.overlay, OverlayMode::Closed);
    assert_eq!(st.status_message, None);
}

#[test]
fn overlay_takes_text_and_backspace() {
    let fs = sample_files();
    let mut st = sample();
    st.handle_key(key('n'), &fs);
    type_text(&mut st, "jkq:/h", &fs);
    assert_eq!(st.overlay_input, "jkq:/h");
    assert_eq!(st.selected_idx, 0);
    st.handle_key(press(KeyCode::Backspace), &fs);
    assert_eq!(st.overlay_input, "jkq:/");
    for _ in 0..9 {
        st.handle_key(press(KeyCode::Backspace), &fs);
    }
    assert_eq!(st.overlay_input, "");
    assert_eq!(st.overlay, OverlayMode::NoteCreation);
}

#[test]
fn help_closes_on_esc_or_h() {
    let fs = sample_files();
    let mut st = sample();
    st.handle_key(key('h'), &fs);
    st.handle_key(key('x'), &fs);
    assert_eq!(st.overlay, OverlayMode::Help);
    assert_eq!(st.overlay_input, "");
    st.handle_key(key('h'), &fs);
    assert_eq!(st.overlay, OverlayMode::Closed);
    st.handle_key(key('h'), &fs);
    st.handle_key(press(KeyCode::Esc), &fs);
    assert_eq!(st.overlay, OverlayMode::Closed);
}

#[test]
fn search_overlay_applies_the_query() {
    let fs = sample_files();
    let mut st = sample();
    st.handle_key(key('j'), &fs);
    st.handle_key(key('/'), &fs);
    type_text(&mut st, "  Fruit ", &fs);
    assert!(matches!(st.handle_key(press(KeyCode::Enter), &fs), Action::Continue));
    assert_eq!(st.search_query, Some("Fruit".to_string()));
    assert_eq!(st.filtered_notes, names(&["banana", "cherry"]));
    assert_eq!(st.selected_idx, 0);
    assert_eq!(st.overlay, OverlayMode::Closed);
    assert_eq!(st.overlay_input, "");
    assert_eq!(st.preview, Some("Yellow FRUIT".to_string()));
    st.handle_key(key('j'), &fs);
    st.handle_key(key('j'), &fs);
    assert_eq!(st.selected_idx, 0);
    assert_eq!(st.notes.len(), 4);
}

#[test]
fn clearing_a_search_restores_all_notes() {
    let fs = sample_files();
    let mut st = sample();
    st.handle_key(key('/'), &fs);
    type_text(&mut st, "fruit", &fs);
    st.handle_key(press(KeyCode::Enter), &fs);
    st.handle_key(key('j'), &fs);
    assert_eq!(st.selected_idx, 1);
    st.handle_key(key('/'), &fs);
    st.handle_key(press(KeyCode::Enter), &fs);
    assert_eq!(st.search_query, None);
    assert_eq!(st.filtered_notes, st.notes);
    assert_eq!(st.selected_idx, 0);
    assert_eq!(st.preview, Some("Bake it.\nEat it.".to_string()));
}

#[test]
fn search_of_white_space_clears_too() {
    let fs = sample_files();
    let mut st = sample();
    st.handle_key(key('/'), &fs);
    type_text(&mut st, "pie", &fs);
    st.handle_key(press(KeyCode::Enter), &fs);
    st.handle_key(key('/'), &fs);
    type_text(&mut st, "   ", &fs);
    st.handle_key(press(KeyCode::Enter), &fs);
    assert_eq!(st.search_query, None);
    assert_eq!(st.filtered_notes, st.notes);
}

#[test]
fn search_esc_leaves_the_filter() {
    let fs = sample_files();
    let mut st = sample();
    st.handle_key(key('/'), &fs);
    type_text(&mut st, "pie", &fs);
    st.handle_key(press(KeyCode::Enter), &fs);
    st.handle_key(key('/'), &fs);
    type_text(&mut st, "zzz", &fs);
    st.handle_key(press(KeyCode::Esc), &fs);
    assert_eq!(st.search_query, Some("pie".to_string()));
    assert_eq!(st.filtered_notes, names(&["apple_pie"]));
    assert_eq!(st.overlay_input, "");
}

#[test]
fn creation_overlay_asks_for_the_note() {
    let fs = sample_files();
    let mut st = sample();
    st.handle_key(key('n'), &fs);
    type_text(&mut st, " My Idea ", &fs);
    match st.handle_key(press(KeyCode::Enter), &fs) {
        Action::CreateNote(title) => assert_eq!(title, "My Idea"),
        _ => panic!("no note was asked for"),
    }
    assert_eq!(st.overlay, OverlayMode::Closed);
    assert_eq!(st.overlay_input, "");
}

#[test]
fn creation_overlay_ignores_an_empty_title() {
    let fs = sample_files();
    let mut st = sample();
    st.handle_key(key('n'), &fs);
    type_text(&mut st, "  ", &fs);
    assert!(matches!(st.handle_key(press(KeyCode::Enter), &fs), Action::Continue));
    assert_eq!(st.overlay, OverlayMode::Closed);
    assert_eq!(st.notes.len(), 4);
}

#[test]
fn created_note_is_selected() {
    let mut fs = sample_files();
    let mut st = sample();
    st.handle_key(key('/'), &fs);
    type_text(&mut st, "fruit", &fs);
    st.handle_key(press(KeyCode::Enter), &fs);
    fs.add("my_idea".to_string(), "---\ntitle: My Idea\ntags: []\n---\n# My Idea\n".to_string());
    let all = names(&["apple_pie", "banana", "cherry", "ghost", "my_idea"]);
    st.note_created("My Idea", false, all.clone(), &fs);
    assert_eq!(st.notes, all);
    assert_eq!(st.filtered_notes, all);
    assert_eq!(st.search_query, None);
    assert_eq!(st.selected_idx, 4);
    assert_eq!(st.selected_note(), Some(&"my_idea".to_string()));
    assert_eq!(st.preview, Some("# My Idea".to_string()));
    assert_eq!(st.status_message, Some("Note created: My Idea".to_string()));
}

#[test]
fn creating_twice_reports_that_the_note_exists() {
    let fs = sample_files();
    let mut st = sample();
    let all = names(&["apple_pie", "banana", "cherry", "ghost"]);
    st.note_created("Banana", true, all.clone(), &fs);
    assert_eq!(st.notes, all);
    assert_eq!(st.selected_idx, 1);
    assert_eq!(st.status_message, Some("Note already exists: Banana".to_string()));
}

#[test]
fn created_note_that_the_scan_missed_selects_the_first() {
    let fs = sample_files();
    let mut st = sample();
    st.next_note(&fs);
    st.note_created("Lost", false, names(&["apple_pie", "banana"]), &fs);
    assert_eq!(st.selected_idx, 0);
}

#[test]
fn failed_creation_only_sets_the_status() {
    let fs = sample_files();
    let mut st = sample();
    st.next_note(&fs);
    st.note_creation_failed("disk full");
    assert_eq!(st.status_message, Some("Error: disk full".to_string()));
    assert_eq!(st.selected_idx, 1);
    assert_eq!(st.notes.len(), 4);
}

#[test]
fn rescan_reapplies_the_search() {
    let mut fs = sample_files();
    let mut st = sample();
    st.handle_key(key('/'), &fs);
    type_text(&mut st, "fruit", &fs);
    st.handle_key(press(KeyCode::Enter), &fs);
    st.handle_key(key('j'), &fs);
    fs.add("date".to_string(), "dried fruit".to_string());
    st.notes_rescanned(names(&["banana", "cherry", "date", "elder"]), &fs);
    assert_eq!(st.notes, names(&["banana", "cherry", "date", "elder"]));
    assert_eq!(st.filtered_notes, names(&["banana", "cherry", "date"]));
    assert_eq!(st.search_query, Some("fruit".to_string()));
    assert_eq!(st.selected_idx, 0);
    assert_eq!(st.status_message, Some("Notes refreshed".to_string()));
}

#[test]
fn rescan_keeps_the_selection_in_the_list() {
    let fs = sample_files();
    let mut st = sample();
    st.prev_note(&fs);
    assert_eq!(st.selected_idx, 3);
    st.notes_rescanned(names(&["apple_pie", "banana"]), &fs);
    assert_eq!(st.filtered_notes, names(&["apple_pie", "banana"]));
    assert_eq!(st.selected_idx, 1);
    assert_eq!(st.preview, Some("Yellow FRUIT".to_string()));
    st.notes_rescanned(Vec::new(), &fs);
    assert_eq!(st.selected_idx, 0);
    assert_eq!(st.preview, None);
    st.notes_rescanned(names(&["cherry"]), &fs);
    assert_eq!(st.selected_idx, 0);
    assert_eq!(st.preview, Some("red fruit\nsmall".to_string()));
}

#[test]
fn editor_return_refreshes_the_preview() {
    let fs = sample_files();
    let mut st = sample();
    st.next_note(&fs);
    let edited = files(&[("banana", "Green now")]);
    st.editor_closed("banana", Ok(()), &edited);
    assert_eq!(st.status_message, Some("Edited note: banana".to_string()));
    assert_eq!(st.preview, Some("Green now".to_string()));
    st.editor_closed("banana", Err("no such program".to_string()), &fs);
    assert_eq!(st.status_message, Some("Editor error: no such program".to_string()));
    assert_eq!(st.preview, Some("Green now".to_string()));
}

#[test]
fn palette_completes_a_command() {
    let fs = sample_files();
    let mut st = sample();
    st.handle_key(key(':'), &fs);
    type_text(&mut st, ":su", &fs);
    st.handle_key(key('\t'), &fs);
    assert_eq!(st.overlay_input, ":summarize");
    st.handle_key(press(KeyCode::Esc), &fs);
    st.handle_key(key(':'), &fs);
    type_text(&mut st, "k", &fs);
    st.handle_key(key('\t'), &fs);
    assert_eq!(st.overlay_input, ":keywords");
}

#[test]
fn palette_does_not_complete_what_is_not_a_start() {
    let fs = sample_files();
    let mut st = sample();
    st.handle_key(key(':'), &fs);
    st.handle_key(key('\t'), &fs);
    assert_eq!(st.overlay_input, "");
    type_text(&mut st, "x", &fs);
    st.handle_key(key('\t'), &fs);
    assert_eq!(st.overlay_input, "x");
}

#[test]
fn palette_runs_a_known_command() {
    let fs = sample_files();
    let mut st = sample();
    st.handle_key(key('j'), &fs);
    st.handle_key(key(':'), &fs);
    type_text(&mut st, ":keywords ", &fs);
    match st.handle_key(press(KeyCode::Enter), &fs) {
        Action::RunAi(job) => {
            assert_eq!(job.op, nrs::ai::AiOp::Keywords);
            assert_eq!(job.slug, "banana");
        }
        _ => panic!("no analysis was asked for"),
    }
    assert_eq!(st.overlay, OverlayMode::Closed);
    assert_eq!(st.overlay_input, "");
    assert_eq!(st.status_message, None);
}

#[test]
fn palette_reports_an_unknown_command() {
    let fs = sample_files();
    let mut st = sample();
    st.handle_key(key(':'), &fs);
    type_text(&mut st, ":foo", &fs);
    assert!(matches!(st.handle_key(press(KeyCode::Enter), &fs), Action::Continue));
    assert_eq!(st.status_message, Some("Unknown command: 'foo'".to_string()));
    assert_eq!(st.overlay, OverlayMode::Closed);
    assert_eq!(st.overlay_input, "");
    assert_eq!(st.last_ai_output, None);
}

#[test]
fn part_of_keeps_the_order() {
    let whole = names(&["a", "b", "a", "c"]);
    assert!(is_part_of(&names(&[]), &whole));
    assert!(is_part_of(&names(&["a", "a", "c"]), &whole));
    assert!(is_part_of(&names(&["b", "c"]), &whole));
    assert!(is_part_of(&whole, &whole));
    assert!(!is_part_of(&names(&["c", "a"]), &whole));
    assert!(!is_part_of(&names(&["b", "b"]), &whole));
    assert!(!is_part_of(&names(&["a", "a", "a"]), &whole));
    assert!(!is_part_of(&names(&["d"]), &whole));
    assert!(!is_part_of(&names(&["a"]), &names(&[])));
    assert!(is_part_of(&names(&[]), &names(&[])));
}

#[test]
fn same_names_compares_in_order() {
    assert!(same_names(&names(&["a", "b"]), &names(&["a", "b"])));
    assert!(!same_names(&names(&["a", "b"]), &names(&["b", "a"])));
    assert!(!same_names(&names(&["a"]), &names(&["a", "b"])));
    assert!(same_names(&names(&[]), &names(&[])));
}

#[test]
fn states_of_a_session_are_valid() {
    let fs = sample_files();
    let mut st = sample();
    assert!(st.is_valid());
    for k in [key('/'), key('f'), key('r'), press(KeyCode::Enter), key('j'), key(':'), key('x'), press(KeyCode::Enter), key('h')] {
        st.handle_key(k, &fs);
        assert!(st.is_valid());
    }
}

#[test]
fn broken_states_are_not_valid() {
    let mut st = sample();
    st.selected_idx = 4;
    assert!(!st.is_valid());
    let mut st = sample();
    st.filtered_notes = names(&["banana"]);
    assert!(!st.is_valid());
    st.search_query = Some("banana".to_string());
    assert!(st.is_valid());
    st.filtered_notes = names(&["banana", "apple_pie"]);
    assert!(!st.is_valid());
    let mut st = sample();
    st.overlay_input = "x".to_string();
    assert!(!st.is_valid());
    st.overlay = OverlayMode::Help;
    assert!(!st.is_valid());
    st.overlay = OverlayMode::Search;
    assert!(st.is_valid());
}

#[test]
fn editor_comes_from_the_environment() {
    assert_eq!(editor_command(Some("nano".to_string()), Some("code".to_string())), "nano");
    assert_eq!(editor_command(None, Some("code".to_string())), "code");
    assert_eq!(editor_command(None, None), "vi");
    assert_eq!(editor_command(Some(String::new()), None), "");
}
