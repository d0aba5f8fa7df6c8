use nrs::notes::{
    create_new_note, load_notes_list, note_path, note_slug, note_stem, note_template, notes_dir,
    underscore, NoteCreation, NoteFiles,
};

fn names(list: &[&str]) -> Vec<String> {
    list.iter().map(|s| s.to_string()).collect()
}

#[test]
fn notes_dir_lies_below_home() {
    assert_eq!(notes_dir("/home/ann"), "/home/ann/notes");
}

#[test]
fn note_path_adds_extension() {
    assert_eq!(note_path("/home/ann/notes", "my_idea"), "/home/ann/notes/my_idea.md");
    assert_eq!(note_path("notes", ""), "notes/.md");
}

#[test]
fn slug_of_my_idea() {
    assert_eq!(note_slug("My Idea"), "my_idea");
}

#[test]
fn slug_replaces_slashes() {
    assert_eq!(note_slug("A/B\\C d"), "a_b_c_d");
    assert_eq!(note_slug("ÄÖ Ü"), "äö_ü");
    assert_eq!(note_slug(""), "");
}

#[test]
fn template_holds_title_twice() {
    assert_eq!(
        note_template("My Idea"),
        "---\ntitle: My Idea\ntags: []\n---\n# My Idea\n\nWrite your note here.\n"
    );
}

#[test]
fn creating_a_note_writes_the_template() {
    match create_new_note("/n", "My Idea", false) {
        NoteCreation::Write { path, content } => {
            assert_eq!(path, "/n/my_idea.md");
            assert_eq!(content, note_template("My Idea"));
        }
        NoteCreation::Exists { .. } => panic!("nothing was there"),
    }
}

#[test]
fn creating_a_note_twice_leaves_one_file() {
    let mut files: Vec<(String, String)> = Vec::new();
    for _ in 0..2 {
        let path = note_path("/n", &note_slug("My Idea"));
        let exists = files.iter().any(|(p, _)| *p == path);
        match create_new_note("/n", "My Idea", exists) {
            NoteCreation::Write { path, content } => files.push((path, content)),
            NoteCreation::Exists { path } => assert_eq!(path, "/n/my_idea.md"),
        }
    }
    assert_eq!(files.len(), 1);
    assert_eq!(files[0].0, "/n/my_idea.md");
}

#[test]
fn stem_needs_the_md_extension() {
    assert_eq!(note_stem("a.md"), Some("a".to_string()));
    assert_eq!(note_stem("a.b.md"), Some("a.b".to_string()));
    assert_eq!(note_stem(".md"), None);
    assert_eq!(note_stem("md"), None);
    assert_eq!(note_stem("a.MD"), None);
    assert_eq!(note_stem("a.md.txt"), None);
    assert_eq!(note_stem("a.mdx"), None);
    assert_eq!(note_stem("..md"), Some(".".to_string()));
}

#[test]
fn stem_agrees_with_std_paths() {
    for name in ["a.md", "a.b.md", ".md", "md", "a.txt", "..md", "a..md", ".hidden.md", "x"] {
        let p = std::path::Path::new(name);
        let expected = if p.extension().and_then(|e| e.to_str()) == Some("md") {
            p.file_stem().map(|s| s.to_string_lossy().to_string())
        } else {
            None
        };
        assert_eq!(note_stem(name), expected);
    }
}

#[test]
fn notes_list_is_sorted_stems() {
    let files = names(&["zeta.md", "readme.txt", "alpha.md", "Beta.md", "alpha.md", "émile.md"]);
    assert_eq!(load_notes_list(&files), names(&["Beta", "alpha", "alpha", "zeta", "émile"]));
}

#[test]
fn notes_list_of_nothing_is_empty() {
    assert!(load_notes_list(&Vec::new()).is_empty());
    assert!(load_notes_list(&names(&["a.txt", "b"])).is_empty());
}

#[test]
fn files_give_the_first_content_of_a_slug() {
    let mut files = NoteFiles::new();
    assert_eq!(files.content(&"a".to_string()), None);
    files.add("a".to_string(), "one".to_string());
    files.add("b".to_string(), "two".to_string());
    files.add("a".to_string(), "three".to_string());
    assert_eq!(files.content(&"a".to_string()), Some(&"one".to_string()));
    assert_eq!(files.content(&"b".to_string()), Some(&"two".to_string()));
    assert_eq!(files.content(&"c".to_string()), None);
}

#[test]
fn underscore_replaces_three_characters() {
    let text: Vec<char> = "a b/c\\d_e".chars().collect();
    let got: String = underscore(&text).iter().collect();
    assert_eq!(got, "a_b_c_d_e");
    assert!(underscore(&Vec::new()).is_empty());
}
