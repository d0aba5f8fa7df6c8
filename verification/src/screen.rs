//! What the session shows: the contents of the screen as plain values, and
//! where the overlays lie. Drawing them is left to the caller.

use crate::front_matter::{
    body_start, body_start_of, delimiter_marks, lines_window, marks_of, window,
};
use crate::notes::{content_in, NoteFiles};
use crate::text::{
    chars_of, decimal, decimal_of, each_trimmed, join, joined, lines_of, occurs_at, owned,
    pieces_of, push_all, replace_char, split_lines, split_on, starts_with, string_of, strings_of,
    strip_leading_char, strip_leading_text, strip_trailing_char, texts, trim, trim_each, trimmed,
    with_char_replaced, without_leading_char, without_leading_text, without_trailing_char,
};
use crate::tui::{AppState, OverlayMode, TabState};
use vstd::prelude::*;

verus! {

/// The name under which a note is listed: its slug with spaces for `_`.
pub open spec fn listed_name(slug: Seq<char>) -> Seq<char> {
    with_char_replaced(slug, '_', ' ')
}

/// The value of a `title:` line.
pub open spec fn title_in(line: Seq<char>) -> Seq<char> {
    trimmed(without_leading_text(line, "title:"@))
}

/// The tags of a `tags:` line: the pieces between the commas of its
/// value, the value taken without the square brackets around it.
pub open spec fn tags_in(line: Seq<char>) -> Seq<Seq<char>> {
    let value = trimmed(without_leading_text(line, "tags:"@));
    each_trimmed(pieces_of(without_trailing_char(without_leading_char(value, '['), ']'), ','))
}

/// The title that a front matter block gives: the value of its last line
/// that begins with `title:`, or `otherwise`.
pub open spec fn front_title(block: Seq<Seq<char>>, otherwise: Seq<char>) -> Seq<char>
    decreases block.len(),
{
    if block.len() == 0 {
        otherwise
    } else if occurs_at(block.last(), "title:"@, 0) {
        title_in(block.last())
    } else {
        front_title(block.drop_last(), otherwise)
    }
}

/// The tags that a front matter block gives: those of its last line that
/// begins with `tags:`, or none.
pub open spec fn front_tags(block: Seq<Seq<char>>) -> Seq<Seq<char>>
    decreases block.len(),
{
    if block.len() == 0 {
        Seq::empty()
    } else if occurs_at(block.last(), "tags:"@, 0) {
        tags_in(block.last())
    } else {
        front_tags(block.drop_last())
    }
}

/// The lines of the front matter block, for the body start `start`.
pub open spec fn block_lines(lines: Seq<Seq<char>>, start: int) -> Seq<Seq<char>> {
    if start >= 2 {
        lines.subrange(1, start - 1)
    } else {
        Seq::empty()
    }
}

/// What is shown of a note: its title, its tags, and the lines of its text.
pub struct NoteDetails {
    pub title: String,
    pub tags: Vec<String>,
    pub body: Vec<String>,
}

/// `details` is what is shown of the note `slug` whose file has the lines
/// `lines`, marked as delimiters by `marks`: title and tags as the front
/// matter gives them, the listed name for a title that it does not give,
/// and the lines behind the front matter.
pub open spec fn details_show(
    details: NoteDetails,
    slug: Seq<char>,
    lines: Seq<Seq<char>>,
    marks: Seq<bool>,
) -> bool {
    let start = body_start_of(marks);
    let block = block_lines(lines, start);
    &&& details.title@ == front_title(block, listed_name(slug))
    &&& details.tags.deep_view() == front_tags(block)
    &&& details.body.deep_view() == lines.skip(start)
}

/// What is shown of the note `slug` whose file has the lines `lines`, of
/// which `marks` says which are delimiter lines.
pub fn note_details(
    slug: &Vec<char>,
    lines: &Vec<Vec<char>>,
    marks: &Vec<bool>,
) -> (r: NoteDetails)
    requires
        marks.len() == lines.len(),
    ensures
        details_show(r, slug@, texts(lines@), marks@),
{
    let start = body_start(marks);
    let ghost block = block_lines(texts(lines@), start as int);
    let mut title = replace_char(slug, '_', ' ');
    let mut tags: Vec<Vec<char>> = Vec::new();
    assert(texts(tags@) =~= Seq::<Seq<char>>::empty());
    let title_key = chars_of("title:");
    let tags_key = chars_of("tags:");
    if start >= 2 {
        let mut i: usize = 1;
        assert(block.take(0) =~= Seq::<Seq<char>>::empty());
        while i < start - 1
            invariant
                1 <= i <= start - 1,
                2 <= start <= lines.len(),
                block == texts(lines@).subrange(1, start - 1),
                title_key@ == "title:"@,
                tags_key@ == "tags:"@,
                title@ == front_title(block.take(i - 1), listed_name(slug@)),
                texts(tags@) == front_tags(block.take(i - 1)),
            decreases start - i,
        {
            let line = &lines[i];
            proof {
                let next = block.take(i as int);
                assert(next.drop_last() =~= block.take(i - 1));
                assert(next.last() == line@);
            }
            if starts_with(line, &title_key) {
                title = trim(&strip_leading_text(line, &title_key));
            }
            if starts_with(line, &tags_key) {
                let value = trim(&strip_leading_text(line, &tags_key));
                let inner = strip_trailing_char(&strip_leading_char(&value, '['), ']');
                tags = trim_each(&split_on(&inner, ','));
            }
            i += 1;
        }
        assert(block.take(start - 2) =~= block);
    }
    let rest = lines_window(lines, start, lines.len());
    assert(window(texts(lines@), start as int, lines.len() as int) =~= texts(lines@).skip(
        start as int,
    ));
    NoteDetails { title: string_of(&title), tags: strings_of(&tags), body: strings_of(&rest) }
}

/// What is shown of the note `slug` whose file holds `content`.
pub open spec fn details_of(details: NoteDetails, slug: Seq<char>, content: Seq<char>) -> bool {
    details_show(details, slug, lines_of(content), marks_of(lines_of(content)))
}

/// What is shown of the note `slug` whose file holds `content`.
pub fn read_details(slug: &str, content: &str) -> (r: NoteDetails)
    ensures
        details_of(r, slug@, content@),
{
    let lines = split_lines(&chars_of(content));
    let marks = delimiter_marks(&lines);
    note_details(&chars_of(slug), &lines, &marks)
}

/// One row of the note list.
pub struct ListRow {
    pub text: String,
    pub selected: bool,
}

/// What the panel beside the note list shows.
pub enum Panel {
    /// The selected note: its title, the line of its tags where they are
    /// shown, and the lines of its text.
    Details { title: String, tags: Option<String>, body: Vec<String> },
    /// Nothing: the file of the selected note could not be read.
    Blank,
    /// The notice that no note is selected.
    NoSelection,
    /// The lines of the preview.
    Preview { lines: Vec<String> },
    /// The output of the last analysis, or the hint how to ask for one.
    Ai { text: String },
}

/// The overlay that lies over the panel.
pub enum OverlayView {
    Hidden,
    /// An input box with its title and what has been typed.
    Input { title: String, content: String },
    Help,
}

/// The contents of the screen.
pub struct Screen {
    /// The position of the panel's tab among Notes, Preview, AI.
    pub tab: usize,
    pub list_title: String,
    pub rows: Vec<ListRow>,
    pub panel: Panel,
    /// How many notes there are, and how many of them are shown.
    pub count: String,
    /// The status message, or the word that stands for none.
    pub status: String,
    /// Whether `status` is a message.
    pub has_message: bool,
    pub overlay: OverlayView,
}

/// A rectangle of the terminal, in cells.
#[derive(Debug, PartialEq, Eq, Clone, Copy, Structural)]
pub struct Rect {
    pub x: u16,
    pub y: u16,
    pub width: u16,
    pub height: u16,
}

/// An input box: where it lies, its title and its content.
pub struct OverlayBox {
    pub area: Rect,
    pub title: String,
    pub content: String,
}

/// The position of a panel's tab.
pub open spec fn tab_index(tab: TabState) -> int {
    match tab {
        TabState::Notes => 0,
        TabState::Preview => 1,
        TabState::AI => 2,
    }
}

/// The title of the note list.
pub open spec fn list_title_of(query: Option<Seq<char>>) -> Seq<char> {
    match query {
        Some(q) => ("Notes (filtered: "@ + q).push(')'),
        None => "Notes"@,
    }
}

/// The count of notes in the status line.
pub open spec fn count_of(searching: bool, shown: nat, all: nat) -> Seq<char> {
    if searching {
        decimal_of(shown).push('/') + decimal_of(all) + " notes"@
    } else {
        decimal_of(all) + " notes"@
    }
}

/// The title of the input box of an overlay that takes text.
pub open spec fn overlay_title(mode: OverlayMode) -> Seq<char> {
    match mode {
        OverlayMode::CommandPalette => "[Command]"@,
        OverlayMode::NoteCreation => "[New Note Title]"@,
        _ => "[Search]"@,
    }
}

/// `rows` lists `names`, with the row at `selected` marked.
pub open spec fn rows_list(rows: Seq<ListRow>, names: Seq<Seq<char>>, selected: int) -> bool {
    &&& rows.len() == names.len()
    &&& forall|i: int|
        0 <= i < rows.len() ==> (#[trigger] rows[i]).text@ == listed_name(names[i]) && rows[i].selected
            == (i == selected)
}

/// The line of tags in the details of a note: the tags with a comma and a
/// space between each two, where there are tags and they are to be shown.
pub open spec fn tags_line(tags: Seq<Seq<char>>, show: bool) -> Option<Seq<char>> {
    if tags.len() > 0 && show {
        Some(joined(tags, ", "@))
    } else {
        None
    }
}

/// The lines of the preview panel: those of the preview, or a notice.
pub open spec fn preview_lines(preview: Option<Seq<char>>) -> Seq<Seq<char>> {
    match preview {
        Some(p) => lines_of(p),
        None => seq!["No note selected."@],
    }
}

/// The text of the analysis panel: the last output, or a hint.
pub open spec fn analysis_text(output: Option<Seq<char>>) -> Seq<char> {
    match output {
        Some(t) => t,
        None => "No AI output. Use :summarize or :keywords command."@,
    }
}

/// The text of the status line: the message, or the word for none.
pub open spec fn status_text(message: Option<Seq<char>>) -> Seq<char> {
    match message {
        Some(m) => m,
        None => "Ready"@,
    }
}

/// `panel` is what the panel shows in the state `st`.
pub open spec fn panel_shows(panel: Panel, st: AppState, files: Seq<(Seq<char>, Seq<char>)>) -> bool {
    match st.active_tab {
        TabState::Notes => match st.selected() {
            Some(slug) => match content_in(files, slug) {
                Some(content) => {
                    let lines = lines_of(content);
                    let start = body_start_of(marks_of(lines));
                    let block = block_lines(lines, start);
                    panel matches Panel::Details { title, tags, body } && title@ == front_title(
                        block,
                        listed_name(slug),
                    ) && tags.deep_view() == tags_line(front_tags(block), st.show_tags)
                        && body.deep_view() == lines.skip(start)
                },
                None => panel is Blank,
            },
            None => panel is NoSelection,
        },
        TabState::Preview => panel matches Panel::Preview { lines } && lines.deep_view()
            == preview_lines(st.preview.deep_view()),
        TabState::AI => panel matches Panel::Ai { text } && text@ == analysis_text(
            st.last_ai_output.deep_view(),
        ),
    }
}

/// `overlay` is the overlay of the state `st`.
pub open spec fn overlay_shows(overlay: OverlayView, st: AppState) -> bool {
    match st.overlay {
        OverlayMode::Closed => overlay is Hidden,
        OverlayMode::Help => overlay is Help,
        mode => overlay matches OverlayView::Input { title, content } && title@ == overlay_title(
            mode,
        ) && content@ == st.overlay_input@,
    }
}

/// `screen` shows the state `st`, with the note files as `files` holds them.
pub open spec fn shows(screen: Screen, st: AppState, files: Seq<(Seq<char>, Seq<char>)>) -> bool {
    &&& screen.tab == tab_index(st.active_tab)
    &&& screen.list_title@ == list_title_of(st.search_query.deep_view())
    &&& rows_list(screen.rows@, st.active(), st.selected_idx as int)
    &&& panel_shows(screen.panel, st, files)
    &&& screen.count@ == count_of(
        st.search_query is Some,
        st.filtered_notes@.len(),
        st.notes@.len(),
    )
    &&& screen.status@ == status_text(st.status_message.deep_view())
    &&& screen.has_message == st.status_message is Some
    &&& overlay_shows(screen.overlay, st)
}

/// The rows of the note list for `names`, with the row at `selected` marked.
pub fn list_rows(names: &Vec<String>, selected: usize) -> (r: Vec<ListRow>)
    ensures
        rows_list(r@, names.deep_view(), selected as int),
{
    let mut out: Vec<ListRow> = Vec::new();
    let mut i: usize = 0;
    while i < names.len()
        invariant
            i <= names.len(),
            rows_list(out@, names.deep_view().take(i as int), selected as int),
        decreases names.len() - i,
    {
        let text = string_of(&replace_char(&chars_of(names[i].as_str()), '_', ' '));
        out.push(ListRow { text, selected: i == selected });
        i += 1;
    }
    assert(names.deep_view().take(names.len() as int) =~= names.deep_view());
    out
}

/// What the panel shows in the state `st`.
pub fn panel(st: &AppState, files: &NoteFiles) -> (r: Panel)
    ensures
        panel_shows(r, *st, files@),
{
    match st.active_tab {
        TabState::Notes => match st.selected_note() {
            Some(slug) => match files.content(slug) {
                Some(content) => {
                    let details = read_details(slug.as_str(), content.as_str());
                    let tags = if details.tags.len() > 0 && st.show_tags {
                        let mut parts: Vec<Vec<char>> = Vec::new();
                        let mut i: usize = 0;
                        while i < details.tags.len()
                            invariant
                                i <= details.tags.len(),
                                texts(parts@) == details.tags.deep_view().take(i as int),
                            decreases details.tags.len() - i,
                        {
                            let ghost before = texts(parts@);
                            let part = chars_of(details.tags[i].as_str());
                            parts.push(part);
                            assert(texts(parts@) =~= before.push(part@));
                            assert(texts(parts@) =~= details.tags.deep_view().take(i + 1));
                            i += 1;
                        }
                        assert(texts(parts@) =~= details.tags.deep_view());
                        Some(string_of(&join(&parts, &chars_of(", "))))
                    } else {
                        None
                    };
                    Panel::Details { title: details.title, tags, body: details.body }
                },
                None => Panel::Blank,
            },
            None => Panel::NoSelection,
        },
        TabState::Preview => {
            let lines = match &st.preview {
                Some(p) => strings_of(&split_lines(&chars_of(p.as_str()))),
                None => {
                    let mut one: Vec<String> = Vec::new();
                    one.push(owned("No note selected."));
                    assert(one.deep_view() =~= seq!["No note selected."@]);
                    one
                },
            };
            Panel::Preview { lines }
        },
        TabState::AI => {
            let text = match &st.last_ai_output {
                Some(t) => t.clone(),
                None => owned("No AI output. Use :summarize or :keywords command."),
            };
            Panel::Ai { text }
        },
    }
}

/// The contents of the screen in the state `st`, with the note files as
/// `files` holds them.
pub fn ui(st: &AppState, files: &NoteFiles) -> (r: Screen)
    ensures
        shows(r, *st, files@),
{
    let tab: usize = match st.active_tab {
        TabState::Notes => 0,
        TabState::Preview => 1,
        TabState::AI => 2,
    };
    let list_title = match &st.search_query {
        Some(q) => {
            let mut t = chars_of("Notes (filtered: ");
            push_all(&mut t, &chars_of(q.as_str()));
            t.push(')');
            string_of(&t)
        },
        None => owned("Notes"),
    };
    let rows = if st.search_query.is_some() {
        list_rows(&st.filtered_notes, st.selected_idx)
    } else {
        list_rows(&st.notes, st.selected_idx)
    };
    let mut count: Vec<char> = Vec::new();
    if st.search_query.is_some() {
        push_all(&mut count, &decimal(st.filtered_notes.len()));
        count.push('/');
    }
    push_all(&mut count, &decimal(st.notes.len()));
    push_all(&mut count, &chars_of(" notes"));
    assert(count@ =~= count_of(
        st.search_query is Some,
        st.filtered_notes@.len(),
        st.notes@.len(),
    ));
    let status = match &st.status_message {
        Some(m) => m.clone(),
        None => owned("Ready"),
    };
    let overlay = match st.overlay {
        OverlayMode::Closed => OverlayView::Hidden,
        OverlayMode::Help => OverlayView::Help,
        OverlayMode::CommandPalette => OverlayView::Input {
            title: owned("[Command]"),
            content: st.overlay_input.clone(),
        },
        OverlayMode::NoteCreation => OverlayView::Input {
            title: owned("[New Note Title]"),
            content: st.overlay_input.clone(),
        },
        OverlayMode::Search => OverlayView::Input {
            title: owned("[Search]"),
            content: st.overlay_input.clone(),
        },
    };
    Screen {
        tab,
        list_title,
        rows,
        panel: panel(st, files),
        count: string_of(&count),
        status,
        has_message: st.status_message.is_some(),
        overlay,
    }
}

/// `a - b`, or 0 where `b` is the larger.
pub open spec fn less(a: int, b: int) -> int {
    if a > b {
        a - b
    } else {
        0
    }
}

/// The smaller of `a` and `b`.
pub open spec fn smaller(a: int, b: int) -> int {
    if a < b {
        a
    } else {
        b
    }
}

/// Where an input box lies in `area`: three rows high, two rows above the
/// bottom, two columns in from each side.
pub open spec fn input_area(area: Rect) -> (int, int, int, int) {
    (area.x + 2, area.y + less(area.height as int, 3) - 2, less(area.width as int, 4), 3)
}

/// Where the help lies in `area`: in the middle, five columns and three
/// rows in from the sides where there is room, and at most 80 by 20.
pub open spec fn help_area(area: Rect) -> (int, int, int, int) {
    let w = smaller(less(area.width as int, 10), 80);
    let h = smaller(less(area.height as int, 6), 20);
    (area.x + less(area.width as int, w) / 2, area.y + less(area.height as int, h) / 2, w, h)
}

/// `rect` has the position and size `at`.
pub open spec fn lies_at(rect: Rect, at: (int, int, int, int)) -> bool {
    rect.x == at.0 && rect.y == at.1 && rect.width == at.2 && rect.height == at.3
}

/// The input box titled `title` with the content `content`, laid into
/// `area`. The area must leave the box on the screen: its left edge two
/// columns from the last, its bottom two rows from the first.
pub fn draw_overlay(title: &str, content: &str, area: Rect) -> (r: OverlayBox)
    requires
        area.x + 2 <= u16::MAX,
        2 <= area.y + less(area.height as int, 3) <= u16::MAX,
    ensures
        lies_at(r.area, input_area(area)),
        r.title@ == title@,
        r.content@ == content@,
{
    let h: u16 = 3;
    let w: u16 = if area.width > 4 {
        area.width - 4
    } else {
        0
    };
    let up: u16 = if area.height > h {
        area.height - h
    } else {
        0
    };
    OverlayBox {
        area: Rect { x: area.x + 2, y: area.y + up - 2, width: w, height: h },
        title: owned(title),
        content: owned(content),
    }
}

/// Where the help is drawn in `area`. The area must leave its corner on
/// the screen.
pub fn draw_help_overlay(area: Rect) -> (r: Rect)
    requires
        help_area(area).0 <= u16::MAX,
        help_area(area).1 <= u16::MAX,
    ensures
        lies_at(r, help_area(area)),
{
    let wide: u16 = if area.width > 10 {
        area.width - 10
    } else {
        0
    };
    let w: u16 = if wide < 80 {
        wide
    } else {
        80
    };
    let high: u16 = if area.height > 6 {
        area.height - 6
    } else {
        0
    };
    let h: u16 = if high < 20 {
        high
    } else {
        20
    };
    let x: u16 = area.x + (area.width - w) / 2;
    let y: u16 = area.y + (area.height - h) / 2;
    Rect { x, y, width: w, height: h }
}

} // verus!
