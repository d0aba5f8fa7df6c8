//! The state of the interactive session and its transitions.

use crate::commands::{command_name, command_op, handle_cmd, unknown_text, AiJob};
use crate::front_matter::{preview_of, preview_text};
use crate::notes::{content_in, note_slug, slug_of, NoteFiles};
use crate::text::{
    chars_of, contains, contains_text, lowercase_of, occurs_at, owned, push_all, starts_with,
    string_of, strip_leading_char, trim, trimmed, without_leading_char,
};
use vstd::prelude::*;

verus! {

/// The modal input state. While one is active it takes every key.
#[derive(Debug, PartialEq, Eq, Clone, Copy, Structural)]
pub enum OverlayMode {
    /// No overlay is open: the keys go to the browser.
    Closed,
    CommandPalette,
    NoteCreation,
    Help,
    Search,
}

/// Which read-only panel is shown beside the note list.
#[derive(Debug, PartialEq, Eq, Clone, Copy, Structural)]
pub enum TabState {
    Notes,
    Preview,
    AI,
}

/// The state of the session.
pub struct AppState {
    /// The slugs of all known notes, as the last scan of the directory gave them.
    pub notes: Vec<String>,
    /// The notes that match the search query; all notes while there is none.
    pub filtered_notes: Vec<String>,
    /// The position of the selected note in the list that is shown.
    pub selected_idx: usize,
    pub overlay: OverlayMode,
    /// What has been typed into the overlay.
    pub overlay_input: String,
    /// The text that the last analysis of a note gave.
    pub last_ai_output: Option<String>,
    /// The first lines of the selected note.
    pub preview: Option<String>,
    pub status_message: Option<String>,
    pub active_tab: TabState,
    /// The query of the search that is active, as it was typed.
    pub search_query: Option<String>,
    pub show_tags: bool,
}

/// The panel that follows `tab` in the cycle Notes, Preview, AI.
pub open spec fn next_tab(tab: TabState) -> TabState {
    match tab {
        TabState::Notes => TabState::Preview,
        TabState::Preview => TabState::AI,
        TabState::AI => TabState::Notes,
    }
}

/// The position behind `i` in a list of `n` items, the first behind the last.
pub open spec fn next_index(i: int, n: int) -> int {
    if i + 1 < n {
        i + 1
    } else {
        0
    }
}

/// The position before `i` in a list of `n` items, the last before the first.
pub open spec fn prev_index(i: int, n: int) -> int {
    if i > 0 {
        i - 1
    } else if n > 0 {
        n - 1
    } else {
        0
    }
}

/// The position reached from `i` by going to the next item `k` times.
pub open spec fn advanced(i: int, n: int, k: nat) -> int
    decreases k,
{
    if k == 0 {
        i
    } else {
        next_index(advanced(i, n, (k - 1) as nat), n)
    }
}

/// `at` gives, for each item of `part`, a position in `whole` that holds
/// it, and the positions ascend.
pub open spec fn embeds(part: Seq<Seq<char>>, whole: Seq<Seq<char>>, at: Seq<int>) -> bool {
    &&& at.len() == part.len()
    &&& forall|i: int|
        0 <= i < at.len() ==> 0 <= #[trigger] at[i] < whole.len() && whole[at[i]] == part[i]
    &&& forall|i: int, j: int| 0 <= i < j < at.len() ==> at[i] < at[j]
}

/// `part` is `whole` with some items left out: the items that stay keep
/// their order.
pub open spec fn is_subsequence(part: Seq<Seq<char>>, whole: Seq<Seq<char>>) -> bool {
    exists|at: Seq<int>| embeds(part, whole, at)
}

/// The note `slug` matches the query `query`, given in lower case: the
/// query stands in the slug or in the content of its file, both taken in
/// lower case.
pub open spec fn note_matches(
    slug: Seq<char>,
    query: Seq<char>,
    files: Seq<(Seq<char>, Seq<char>)>,
) -> bool {
    contains_text(lowercase_of(slug), query) || match content_in(files, slug) {
        Some(content) => contains_text(lowercase_of(content), query),
        None => false,
    }
}

/// The notes of `notes` that match `query`, in the order of `notes`.
pub open spec fn search_hits(
    notes: Seq<Seq<char>>,
    query: Seq<char>,
    files: Seq<(Seq<char>, Seq<char>)>,
) -> Seq<Seq<char>>
    decreases notes.len(),
{
    if notes.len() == 0 {
        Seq::empty()
    } else if note_matches(notes.last(), query, files) {
        search_hits(notes.drop_last(), query, files).push(notes.last())
    } else {
        search_hits(notes.drop_last(), query, files)
    }
}

/// The preview of the note `selected`: of its content where the file could
/// be read, none where it could not or no note is selected.
pub open spec fn preview_for(files: Seq<(Seq<char>, Seq<char>)>, selected: Option<Seq<char>>) -> Option<
    Seq<char>,
> {
    match selected {
        Some(slug) => match content_in(files, slug) {
            Some(content) => Some(preview_of(content)),
            None => None,
        },
        None => None,
    }
}

/// Every list is a subsequence of itself.
pub proof fn lemma_subsequence_of_itself(list: Seq<Seq<char>>)
    ensures
        is_subsequence(list, list),
{
    let at = Seq::new(list.len(), |i: int| i);
    assert(embeds(list, list, at));
}

/// The result of a search is a subsequence of the notes, in their order, and
/// each note in it matches the query.
pub proof fn lemma_search_hits(
    notes: Seq<Seq<char>>,
    query: Seq<char>,
    files: Seq<(Seq<char>, Seq<char>)>,
)
    ensures
        is_subsequence(search_hits(notes, query, files), notes),
        forall|i: int|
            0 <= i < search_hits(notes, query, files).len() ==> note_matches(
                #[trigger] search_hits(notes, query, files)[i],
                query,
                files,
            ),
        search_hits(notes, query, files).len() <= notes.len(),
    decreases notes.len(),
{
    if notes.len() > 0 {
        let rest = notes.drop_last();
        lemma_search_hits(rest, query, files);
        let at = choose|at: Seq<int>| embeds(search_hits(rest, query, files), rest, at);
        if note_matches(notes.last(), query, files) {
            let longer = at.push(notes.len() - 1);
            assert(embeds(search_hits(notes, query, files), notes, longer));
        } else {
            assert(embeds(search_hits(notes, query, files), notes, at));
        }
    } else {
        assert(embeds(search_hits(notes, query, files), notes, Seq::<int>::empty()));
    }
}

/// Going to the next item as many times as the list has items leads back to
/// the item where one began.
pub proof fn lemma_next_wraps_around(i: int, n: int)
    requires
        0 <= i < n,
    ensures
        advanced(i, n, n as nat) == i,
{
    lemma_advanced(i, n, n as nat);
}

/// Where `k` steps lead, for `k` up to the length of the list.
proof fn lemma_advanced(i: int, n: int, k: nat)
    requires
        0 <= i < n,
        k <= n,
    ensures
        advanced(i, n, k) == if i + k < n {
            i + k
        } else {
            i + k - n
        },
    decreases k,
{
    if k > 0 {
        lemma_advanced(i, n, (k - 1) as nat);
    }
}

/// Three steps through the panels lead back to the panel where one began.
pub proof fn lemma_tabs_cycle(tab: TabState)
    ensures
        next_tab(next_tab(next_tab(tab))) == tab,
        next_tab(tab) != tab,
        next_tab(next_tab(tab)) != tab,
{
}

/// A copy of `names`.
pub fn copy_names(names: &Vec<String>) -> (r: Vec<String>)
    ensures
        r@ == names@,
{
    let mut out: Vec<String> = Vec::new();
    let mut i: usize = 0;
    while i < names.len()
        invariant
            i <= names.len(),
            out@ == names@.take(i as int),
        decreases names.len() - i,
    {
        out.push(names[i].clone());
        assert(out@ =~= names@.take(i + 1));
        i += 1;
    }
    assert(names@.take(names.len() as int) =~= names@);
    out
}

/// Whether two lists hold the same names in the same order.
pub fn same_names(a: &Vec<String>, b: &Vec<String>) -> (r: bool)
    ensures
        r == (a.deep_view() == b.deep_view()),
{
    if a.len() != b.len() {
        assert(a.deep_view().len() != b.deep_view().len());
        return false;
    }
    let mut i: usize = 0;
    while i < a.len()
        invariant
            i <= a.len(),
            a.len() == b.len(),
            forall|k: int| 0 <= k < i ==> a.deep_view()[k] == b.deep_view()[k],
        decreases a.len() - i,
    {
        if a[i] != b[i] {
            assert(a.deep_view()[i as int] != b.deep_view()[i as int]);
            return false;
        }
        i += 1;
    }
    assert(a.deep_view() =~= b.deep_view());
    true
}

/// Whether `part` is a subsequence of `whole`. Each name of `part` is
/// looked for behind the place where the one before it was found.
pub fn is_part_of(part: &Vec<String>, whole: &Vec<String>) -> (r: bool)
    ensures
        r == is_subsequence(part.deep_view(), whole.deep_view()),
{
    let ghost p = part.deep_view();
    let ghost w = whole.deep_view();
    let ghost mut at: Seq<int> = Seq::empty();
    let mut j: usize = 0;
    let mut i: usize = 0;
    proof {
        assert(embeds(p.take(0), w.take(0), at));
        if p.len() > 0 {
            assert forall|other: Seq<int>| !#[trigger] embeds(p.take(1), w.take(0), other) by {
                if embeds(p.take(1), w.take(0), other) {
                    assert(0 <= other[0] < w.take(0).len());
                }
            }
        }
    }
    while i < whole.len()
        invariant
            i <= whole.len(),
            j <= part.len(),
            p == part.deep_view(),
            w == whole.deep_view(),
            embeds(p.take(j as int), w.take(i as int), at),
            j < p.len() ==> forall|other: Seq<int>|
                !#[trigger] embeds(p.take(j + 1), w.take(i as int), other),
        decreases whole.len() - i,
    {
        if j < part.len() && whole[i] == part[j] {
            proof {
                assert(w[i as int] == p[j as int]);
                let longer = at.push(i as int);
                assert(embeds(p.take(j + 1), w.take(i + 1), longer));
                if j + 1 < p.len() {
                    assert forall|other: Seq<int>|
                        !#[trigger] embeds(p.take(j + 2), w.take(i + 1), other) by {
                        if embeds(p.take(j + 2), w.take(i + 1), other) {
                            let shorter = other.take(j + 1);
                            assert forall|k: int| 0 <= k < shorter.len() implies 0
                                <= #[trigger] shorter[k] < w.take(i as int).len() && w.take(
                                i as int,
                            )[shorter[k]] == p.take(j + 1)[k] by {
                                assert(other[k] < other[j + 1]);
                                assert(w.take(i + 1)[other[k]] == p.take(j + 2)[k]);
                            }
                            assert(embeds(p.take(j + 1), w.take(i as int), shorter));
                        }
                    }
                }
                at = longer;
            }
            j += 1;
        } else {
            proof {
                assert(embeds(p.take(j as int), w.take(i + 1), at));
                if j < p.len() {
                    assert(w[i as int] != p[j as int]);
                    assert forall|other: Seq<int>|
                        !#[trigger] embeds(p.take(j + 1), w.take(i + 1), other) by {
                        if embeds(p.take(j + 1), w.take(i + 1), other) {
                            assert(w.take(i + 1)[other[j as int]] == p.take(j + 1)[j as int]);
                            assert forall|k: int| 0 <= k < other.len() implies 0
                                <= #[trigger] other[k] < w.take(i as int).len() && w.take(
                                i as int,
                            )[other[k]] == p.take(j + 1)[k] by {
                                if k < j {
                                    assert(other[k] < other[j as int]);
                                }
                                assert(w.take(i + 1)[other[k]] == p.take(j + 1)[k]);
                            }
                            assert(embeds(p.take(j + 1), w.take(i as int), other));
                        }
                    }
                }
            }
        }
        i += 1;
    }
    proof {
        assert(w.take(w.len() as int) =~= w);
        if j == part.len() {
            assert(p.take(j as int) =~= p);
        } else {
            assert forall|other: Seq<int>| !embeds(p, w, other) by {
                if embeds(p, w, other) {
                    assert(embeds(p.take(j + 1), w, other.take(j + 1)));
                }
            }
        }
    }
    j == part.len()
}

/// The notes of `notes` that match `query`, in the order of `notes`.
pub fn matching_notes(notes: &Vec<String>, query: &str, files: &NoteFiles) -> (r: Vec<String>)
    ensures
        r.deep_view() == search_hits(notes.deep_view(), lowercase_of(query@), files@),
{
    let low = chars_of(query.to_lowercase().as_str());
    let ghost all = notes.deep_view();
    let mut out: Vec<String> = Vec::new();
    let mut i: usize = 0;
    assert(all.take(0) =~= Seq::<Seq<char>>::empty());
    assert(out.deep_view() =~= Seq::<Seq<char>>::empty());
    while i < notes.len()
        invariant
            i <= notes.len(),
            all == notes.deep_view(),
            low@ == lowercase_of(query@),
            out.deep_view() == search_hits(all.take(i as int), low@, files@),
        decreases notes.len() - i,
    {
        let ghost before = out.deep_view();
        proof {
            let next = all.take(i + 1);
            assert(next.drop_last() =~= all.take(i as int));
            assert(next.last() == notes@[i as int]@);
        }
        let note = &notes[i];
        let in_name = contains(&chars_of(note.as_str().to_lowercase().as_str()), &low);
        let in_content = match files.content(note) {
            Some(content) => contains(&chars_of(content.as_str().to_lowercase().as_str()), &low),
            None => false,
        };
        if in_name || in_content {
            out.push(note.clone());
            assert(out.deep_view() =~= before.push(note@));
        }
        i += 1;
    }
    assert(all.take(notes.len() as int) =~= all);
    out
}

impl AppState {
    /// The strings of the list that is shown.
    pub open spec fn shown(&self) -> Seq<String> {
        if self.search_query is Some {
            self.filtered_notes@
        } else {
            self.notes@
        }
    }

    /// The list that is shown: the matching notes while a search is active,
    /// else all notes.
    pub open spec fn active(&self) -> Seq<Seq<char>> {
        if self.search_query is Some {
            self.filtered_notes.deep_view()
        } else {
            self.notes.deep_view()
        }
    }

    /// The selected note, where the list that is shown has one at the
    /// selected position.
    pub open spec fn selected(&self) -> Option<Seq<char>> {
        if self.selected_idx < self.active().len() {
            Some(self.active()[self.selected_idx as int])
        } else {
            None
        }
    }

    /// What holds of every state of a session: the selected position lies
    /// in the list that is shown, or is 0 where that list is empty; the
    /// matching notes are a subsequence of all notes, and are all notes
    /// while no search is active; the input buffer is empty unless an
    /// overlay that takes text is open.
    pub open spec fn wf(&self) -> bool {
        &&& self.selected_idx < self.active().len() || self.selected_idx == 0
        &&& is_subsequence(self.filtered_notes.deep_view(), self.notes.deep_view())
        &&& self.search_query is None ==> self.filtered_notes.deep_view()
            == self.notes.deep_view()
        &&& (self.overlay == OverlayMode::Closed || self.overlay == OverlayMode::Help)
            ==> self.overlay_input@.len() == 0
    }

    /// The state has the lists and the query of `other`.
    pub open spec fn same_lists(&self, other: &AppState) -> bool {
        &&& self.notes == other.notes
        &&& self.filtered_notes == other.filtered_notes
        &&& self.search_query == other.search_query
    }

    /// The state has the selected position and the preview of `other`.
    pub open spec fn same_selection(&self, other: &AppState) -> bool {
        &&& self.selected_idx == other.selected_idx
        &&& self.preview == other.preview
    }

    /// The state has the overlay and the input buffer of `other`.
    pub open spec fn same_overlay(&self, other: &AppState) -> bool {
        &&& self.overlay == other.overlay
        &&& self.overlay_input == other.overlay_input
    }

    /// The state has the panel, the tag display and the analysis output of
    /// `other`.
    pub open spec fn same_panels(&self, other: &AppState) -> bool {
        &&& self.active_tab == other.active_tab
        &&& self.show_tags == other.show_tags
        &&& self.last_ai_output == other.last_ai_output
    }

    /// The state has the status message of `other`.
    pub open spec fn same_status(&self, other: &AppState) -> bool {
        self.status_message == other.status_message
    }

    /// The state is `pre` but for the selection: the position `idx` is
    /// selected, and the preview is that of the note there, as `files`
    /// holds it.
    pub open spec fn selects(
        &self,
        pre: &AppState,
        idx: int,
        files: Seq<(Seq<char>, Seq<char>)>,
    ) -> bool {
        &&& self.selected_idx == idx
        &&& self.preview.deep_view() == preview_for(files, self.selected())
        &&& self.same_lists(pre)
        &&& self.same_overlay(pre)
        &&& self.same_panels(pre)
        &&& self.same_status(pre)
    }

    /// Whether the state is one that a session can be in.
    pub fn is_valid(&self) -> (r: bool)
        ensures
            r == self.wf(),
    {
        let shown = if self.search_query.is_some() {
            self.filtered_notes.len()
        } else {
            self.notes.len()
        };
        let takes_text = match self.overlay {
            OverlayMode::Closed => false,
            OverlayMode::Help => false,
            _ => true,
        };
        let in_list = self.selected_idx < shown || self.selected_idx == 0;
        let all_shown = self.search_query.is_some() || same_names(
            &self.filtered_notes,
            &self.notes,
        );
        let no_stray_input = takes_text || self.overlay_input.as_str().is_empty();
        in_list && is_part_of(&self.filtered_notes, &self.notes) && all_shown && no_stray_input
    }

    /// The state at the start of a session over the notes `notes`, whose
    /// files hold `files`: the first note is selected and previewed, no
    /// overlay is open and no search is active.
    pub fn new(notes: Vec<String>, files: &NoteFiles) -> (r: AppState)
        ensures
            r.wf(),
            r.notes == notes,
            r.filtered_notes@ == notes@,
            r.selected_idx == 0,
            r.overlay == OverlayMode::Closed,
            r.overlay_input@ == Seq::<char>::empty(),
            r.last_ai_output is None,
            r.preview.deep_view() == preview_for(files@, r.selected()),
            r.status_message is None,
            r.active_tab == TabState::Notes,
            r.search_query is None,
            !r.show_tags,
    {
        let filtered = copy_names(&notes);
        let mut s = AppState {
            notes,
            filtered_notes: filtered,
            selected_idx: 0,
            overlay: OverlayMode::Closed,
            overlay_input: String::new(),
            last_ai_output: None,
            preview: None,
            status_message: None,
            active_tab: TabState::Notes,
            search_query: None,
            show_tags: false,
        };
        proof {
            lemma_subsequence_of_itself(s.notes.deep_view());
        }
        s.update_preview(files);
        s
    }

    /// Selects the next note of the list that is shown, the first behind
    /// the last, and previews it. An empty list leaves the state as it is.
    pub fn next_note(&mut self, files: &NoteFiles)
        requires
            old(self).wf(),
        ensures
            final(self).wf(),
            old(self).active().len() == 0 ==> *final(self) == *old(self),
            old(self).active().len() > 0 ==> final(self).selects(
                old(self),
                next_index(old(self).selected_idx as int, old(self).active().len() as int),
                files@,
            ),
    {
        let len = if self.search_query.is_some() {
            self.filtered_notes.len()
        } else {
            self.notes.len()
        };
        if len > 0 {
            self.selected_idx = if self.selected_idx + 1 < len {
                self.selected_idx + 1
            } else {
                0
            };
            self.update_preview(files);
        }
    }

    /// Selects the note before the selected one, the last before the first,
    /// and previews it. An empty list leaves the state as it is.
    pub fn prev_note(&mut self, files: &NoteFiles)
        requires
            old(self).wf(),
        ensures
            final(self).wf(),
            old(self).active().len() == 0 ==> *final(self) == *old(self),
            old(self).active().len() > 0 ==> final(self).selects(
                old(self),
                prev_index(old(self).selected_idx as int, old(self).active().len() as int),
                files@,
            ),
    {
        let len = if self.search_query.is_some() {
            self.filtered_notes.len()
        } else {
            self.notes.len()
        };
        if len > 0 {
            if self.selected_idx == 0 {
                self.selected_idx = len - 1;
            } else {
                self.selected_idx -= 1;
            }
            self.update_preview(files);
        }
    }

    /// The selected note, where there is one.
    pub fn selected_note(&self) -> (r: Option<&String>)
        ensures
            r.deep_view() == self.selected(),
            r matches Some(slug) ==> *slug == self.shown()[self.selected_idx as int],
    {
        if self.search_query.is_some() {
            if self.selected_idx < self.filtered_notes.len() {
                Some(&self.filtered_notes[self.selected_idx])
            } else {
                None
            }
        } else {
            if self.selected_idx < self.notes.len() {
                Some(&self.notes[self.selected_idx])
            } else {
                None
            }
        }
    }

    /// Sets the preview to that of the selected note, as `files` holds it.
    pub fn update_preview(&mut self, files: &NoteFiles)
        ensures
            final(self).selects(old(self), old(self).selected_idx as int, files@),
    {
        let shown = match self.selected_note() {
            Some(slug) => match files.content(slug) {
                Some(content) => Some(string_of(&preview_text(&chars_of(content.as_str())))),
                None => None,
            },
            None => None,
        };
        self.preview = shown;
    }

    /// Applies the search query: the matching notes become those that hold
    /// the query, in lower case, in their slug or their content, the first
    /// of them is selected and previewed. Without a query the matching
    /// notes become all notes, and nothing else changes.
    pub fn apply_search(&mut self, files: &NoteFiles)
        ensures
            final(self).notes == old(self).notes,
            final(self).search_query == old(self).search_query,
            final(self).same_overlay(old(self)),
            final(self).same_panels(old(self)),
            final(self).same_status(old(self)),
            is_subsequence(final(self).filtered_notes.deep_view(), final(self).notes.deep_view()),
            match old(self).search_query {
                Some(query) => {
                    &&& final(self).filtered_notes.deep_view() == search_hits(
                        old(self).notes.deep_view(),
                        lowercase_of(query@),
                        files@,
                    )
                    &&& forall|i: int|
                        0 <= i < final(self).filtered_notes.len() ==> note_matches(
                            #[trigger] final(self).filtered_notes.deep_view()[i],
                            lowercase_of(query@),
                            files@,
                        )
                    &&& final(self).selected_idx == 0
                    &&& final(self).preview.deep_view() == preview_for(
                        files@,
                        final(self).selected(),
                    )
                },
                None => {
                    &&& final(self).filtered_notes@ == old(self).notes@
                    &&& final(self).selected_idx == old(self).selected_idx
                    &&& final(self).preview == old(self).preview
                },
            },
    {
        match &self.search_query {
            Some(query) => {
                let hits = matching_notes(&self.notes, query.as_str(), files);
                proof {
                    lemma_search_hits(self.notes.deep_view(), lowercase_of(query@), files@);
                }
                self.filtered_notes = hits;
                self.selected_idx = 0;
                self.update_preview(files);
            },
            None => {
                let all = copy_names(&self.notes);
                proof {
                    lemma_subsequence_of_itself(self.notes.deep_view());
                }
                self.filtered_notes = all;
            },
        }
    }

    /// Shows the next panel: Preview behind Notes, AI behind Preview, Notes
    /// behind AI.
    pub fn toggle_tab(&mut self)
        ensures
            *final(self) == (AppState { active_tab: next_tab(old(self).active_tab), ..*old(self) }),
    {
        self.active_tab =
        match self.active_tab {
            TabState::Notes => TabState::Preview,
            TabState::Preview => TabState::AI,
            TabState::AI => TabState::Notes,
        };
    }
}

/// A key, as far as the session tells keys apart.
#[derive(Debug, PartialEq, Eq, Clone, Copy, Structural)]
pub enum KeyCode {
    Char(char),
    Enter,
    Esc,
    Backspace,
    Tab,
    Up,
    Down,
    /// Any other key.
    Other,
}

/// A key that was pressed; `plain` where no modifier was held with it.
#[derive(Debug, PartialEq, Eq, Clone, Copy, Structural)]
pub struct KeyPress {
    pub code: KeyCode,
    pub plain: bool,
}

/// What the caller has to do after a key, before it draws again.
pub enum Action {
    /// Nothing.
    Continue,
    /// End the session.
    Quit,
    /// Open the note of this slug in the editor, then call `editor_closed`.
    EditNote(String),
    /// Scan the directory, then call `notes_rescanned`.
    Rescan,
    /// Create the note of this title, scan the directory, then call
    /// `note_created` or `note_creation_failed`.
    CreateNote(String),
    /// Run this analysis, then call `command_finished`.
    RunAi(AiJob),
}

/// The status message behind a change of the tag display.
pub open spec fn tags_text(on: bool) -> Seq<char> {
    if on {
        "Tags display: on"@
    } else {
        "Tags display: off"@
    }
}

/// What the tab key makes of the input of the command palette: where the
/// text behind the colons begins exactly one of the two commands, that
/// command behind one colon; else the input as it is.
pub open spec fn completed(input: Seq<char>) -> Seq<char> {
    let partial = without_leading_char(input, ':');
    let summarize = occurs_at("summarize"@, partial, 0);
    let keywords = occurs_at("keywords"@, partial, 0);
    if summarize && !keywords {
        ":summarize"@
    } else if keywords && !summarize {
        ":keywords"@
    } else {
        input
    }
}

/// `input` without its last character, where it has one.
pub open spec fn without_last(input: Seq<char>) -> Seq<char> {
    if input.len() > 0 {
        input.drop_last()
    } else {
        input
    }
}

/// The position `i` where it lies in a list of `n` items, else the last
/// position of the list, or 0 for an empty list.
pub open spec fn clamped(i: int, n: int) -> int {
    if i < n {
        i
    } else if n > 0 {
        n - 1
    } else {
        0
    }
}

/// `idx` is the first position of `item` in `list`, or 0 where `list` does
/// not hold it.
pub open spec fn is_position_of(list: Seq<Seq<char>>, item: Seq<char>, idx: int) -> bool {
    if exists|i: int| 0 <= i < list.len() && list[i] == item {
        0 <= idx < list.len() && list[idx] == item && forall|j: int|
            0 <= j < idx ==> list[j] != item
    } else {
        idx == 0
    }
}

/// `post` is `pre` with the overlay `mode` and the input `input`.
pub open spec fn overlay_set(
    pre: AppState,
    post: AppState,
    mode: OverlayMode,
    input: Seq<char>,
) -> bool {
    &&& post.overlay == mode
    &&& post.overlay_input@ == input
    &&& post.same_lists(&pre)
    &&& post.same_selection(&pre)
    &&& post.same_panels(&pre)
    &&& post.same_status(&pre)
}

/// `post` is `pre` after a step to the next note.
pub open spec fn went_next(
    pre: AppState,
    post: AppState,
    files: Seq<(Seq<char>, Seq<char>)>,
) -> bool {
    if pre.active().len() == 0 {
        post == pre
    } else {
        post.selects(&pre, next_index(pre.selected_idx as int, pre.active().len() as int), files)
    }
}

/// `post` is `pre` after a step to the note before.
pub open spec fn went_back(
    pre: AppState,
    post: AppState,
    files: Seq<(Seq<char>, Seq<char>)>,
) -> bool {
    if pre.active().len() == 0 {
        post == pre
    } else {
        post.selects(&pre, prev_index(pre.selected_idx as int, pre.active().len() as int), files)
    }
}

/// What a key does while no overlay is open.
pub open spec fn browse_effect(
    pre: AppState,
    key: KeyPress,
    files: Seq<(Seq<char>, Seq<char>)>,
    post: AppState,
    action: Action,
) -> bool {
    match key.code {
        KeyCode::Char(c) => if c == 'q' && key.plain {
            post == pre && action is Quit
        } else if c == 'j' {
            went_next(pre, post, files) && action is Continue
        } else if c == 'k' {
            went_back(pre, post, files) && action is Continue
        } else if c == 'n' {
            overlay_set(pre, post, OverlayMode::NoteCreation, Seq::empty()) && action is Continue
        } else if c == 'e' {
            post == pre && match pre.selected() {
                Some(slug) => action matches Action::EditNote(s) && s@ == slug,
                None => action is Continue,
            }
        } else if c == ':' {
            overlay_set(pre, post, OverlayMode::CommandPalette, Seq::empty())
                && action is Continue
        } else if c == 'h' {
            overlay_set(pre, post, OverlayMode::Help, Seq::empty()) && action is Continue
        } else if c == '/' {
            overlay_set(pre, post, OverlayMode::Search, Seq::empty()) && action is Continue
        } else if c == 't' {
            &&& action is Continue
            &&& post.show_tags == !pre.show_tags
            &&& post.status_message.deep_view() == Some(tags_text(post.show_tags))
            &&& post.active_tab == pre.active_tab
            &&& post.last_ai_output == pre.last_ai_output
            &&& post.same_lists(&pre)
            &&& post.same_selection(&pre)
            &&& post.same_overlay(&pre)
        } else if c == 'r' {
            post == pre && action is Rescan
        } else {
            post == pre && action is Continue
        },
        KeyCode::Down => went_next(pre, post, files) && action is Continue,
        KeyCode::Up => went_back(pre, post, files) && action is Continue,
        KeyCode::Tab => post == (AppState { active_tab: next_tab(pre.active_tab), ..pre })
            && action is Continue,
        _ => post == pre && action is Continue,
    }
}

/// What a key does in the command palette.
pub open spec fn palette_effect(pre: AppState, key: KeyPress, post: AppState, action: Action) -> bool {
    match key.code {
        KeyCode::Esc => overlay_set(pre, post, OverlayMode::Closed, Seq::empty())
            && action is Continue,
        KeyCode::Enter => {
            let name = command_name(pre.overlay_input@);
            &&& post.overlay == OverlayMode::Closed
            &&& post.overlay_input@ == Seq::<char>::empty()
            &&& post.same_lists(&pre)
            &&& post.same_selection(&pre)
            &&& post.same_panels(&pre)
            &&& match command_op(name) {
                Some(op) => {
                    &&& post.same_status(&pre)
                    &&& match pre.selected() {
                        Some(slug) => action matches Action::RunAi(job) && job.op == op
                            && job.slug@ == slug,
                        None => action is Continue,
                    }
                },
                None => {
                    &&& action is Continue
                    &&& post.status_message.deep_view() == Some(unknown_text(name))
                },
            }
        },
        KeyCode::Backspace => overlay_set(pre, post, pre.overlay, without_last(pre.overlay_input@))
            && action is Continue,
        KeyCode::Char(c) => if c == '\t' {
            overlay_set(pre, post, pre.overlay, completed(pre.overlay_input@))
                && action is Continue
        } else {
            overlay_set(pre, post, pre.overlay, pre.overlay_input@.push(c)) && action is Continue
        },
        _ => post == pre && action is Continue,
    }
}

/// What a key does in the overlay that takes the title of a new note.
pub open spec fn creation_effect(pre: AppState, key: KeyPress, post: AppState, action: Action) -> bool {
    match key.code {
        KeyCode::Esc => overlay_set(pre, post, OverlayMode::Closed, Seq::empty())
            && action is Continue,
        KeyCode::Enter => {
            let title = trimmed(pre.overlay_input@);
            &&& overlay_set(pre, post, OverlayMode::Closed, Seq::empty())
            &&& if title.len() > 0 {
                action matches Action::CreateNote(t) && t@ == title
            } else {
                action is Continue
            }
        },
        KeyCode::Backspace => overlay_set(pre, post, pre.overlay, without_last(pre.overlay_input@))
            && action is Continue,
        KeyCode::Char(c) => overlay_set(pre, post, pre.overlay, pre.overlay_input@.push(c))
            && action is Continue,
        _ => post == pre && action is Continue,
    }
}

/// What the Enter key does in the search overlay: an input that is empty
/// but for white space clears the search, and all notes are shown; any
/// other input becomes the query, and the notes that match it are shown. The
/// first note of the list is selected and previewed, and the overlay closes.
pub open spec fn search_submitted(
    pre: AppState,
    files: Seq<(Seq<char>, Seq<char>)>,
    post: AppState,
) -> bool {
    let query = trimmed(pre.overlay_input@);
    &&& post.notes == pre.notes
    &&& post.overlay == OverlayMode::Closed
    &&& post.overlay_input@ == Seq::<char>::empty()
    &&& post.same_panels(&pre)
    &&& post.same_status(&pre)
    &&& post.selected_idx == 0
    &&& post.preview.deep_view() == preview_for(files, post.selected())
    &&& if query.len() == 0 {
        post.search_query is None && post.filtered_notes.deep_view() == pre.notes.deep_view()
    } else {
        post.search_query.deep_view() == Some(query) && post.filtered_notes.deep_view()
            == search_hits(pre.notes.deep_view(), lowercase_of(query), files)
    }
}

/// What a key does in the search overlay.
pub open spec fn search_effect(
    pre: AppState,
    key: KeyPress,
    files: Seq<(Seq<char>, Seq<char>)>,
    post: AppState,
    action: Action,
) -> bool {
    match key.code {
        KeyCode::Esc => overlay_set(pre, post, OverlayMode::Closed, Seq::empty())
            && action is Continue,
        KeyCode::Enter => search_submitted(pre, files, post) && action is Continue,
        KeyCode::Backspace => overlay_set(pre, post, pre.overlay, without_last(pre.overlay_input@))
            && action is Continue,
        KeyCode::Char(c) => overlay_set(pre, post, pre.overlay, pre.overlay_input@.push(c))
            && action is Continue,
        _ => post == pre && action is Continue,
    }
}

/// What a key does while the help is shown.
pub open spec fn help_effect(pre: AppState, key: KeyPress, post: AppState, action: Action) -> bool {
    &&& action is Continue
    &&& if key.code == KeyCode::Esc || key.code == KeyCode::Char('h') {
        overlay_set(pre, post, OverlayMode::Closed, Seq::empty())
    } else {
        post == pre
    }
}

/// What a key does: the overlay that is open takes it, the browser where
/// none is.
pub open spec fn key_effect(
    pre: AppState,
    key: KeyPress,
    files: Seq<(Seq<char>, Seq<char>)>,
    post: AppState,
    action: Action,
) -> bool {
    match pre.overlay {
        OverlayMode::Closed => browse_effect(pre, key, files, post, action),
        OverlayMode::CommandPalette => palette_effect(pre, key, post, action),
        OverlayMode::NoteCreation => creation_effect(pre, key, post, action),
        OverlayMode::Search => search_effect(pre, key, files, post, action),
        OverlayMode::Help => help_effect(pre, key, post, action),
    }
}

/// The session ends on the key `q` alone, and only while no overlay is
/// open: in an overlay `q` is text like any other character.
pub proof fn lemma_quit_only_in_browser(
    pre: AppState,
    key: KeyPress,
    files: Seq<(Seq<char>, Seq<char>)>,
    post: AppState,
    action: Action,
)
    requires
        key_effect(pre, key, files, post, action),
    ensures
        action is Quit <==> pre.overlay == OverlayMode::Closed && key.code == KeyCode::Char('q')
            && key.plain,
{
}

/// Enter on an empty search input clears the search: all notes are shown
/// again, and the first of them is selected.
pub proof fn lemma_cleared_search_shows_all(
    pre: AppState,
    key: KeyPress,
    files: Seq<(Seq<char>, Seq<char>)>,
    post: AppState,
    action: Action,
)
    requires
        key_effect(pre, key, files, post, action),
        pre.overlay == OverlayMode::Search,
        key.code == KeyCode::Enter,
        trimmed(pre.overlay_input@).len() == 0,
    ensures
        post.search_query is None,
        post.filtered_notes.deep_view() == post.notes.deep_view(),
        post.active() == post.notes.deep_view(),
        post.selected_idx == 0,
{
}

/// What the return from the editor does, where the editor ran: the status
/// message names the note, and the preview is taken anew.
pub open spec fn edited(
    pre: AppState,
    slug: Seq<char>,
    files: Seq<(Seq<char>, Seq<char>)>,
    post: AppState,
) -> bool {
    &&& post.status_message.deep_view() == Some("Edited note: "@ + slug)
    &&& post.selected_idx == pre.selected_idx
    &&& post.preview.deep_view() == preview_for(files, post.selected())
    &&& post.same_lists(&pre)
    &&& post.same_overlay(&pre)
    &&& post.same_panels(&pre)
}

/// `post` is `pre` with the status message `message`.
pub open spec fn status_set(pre: AppState, post: AppState, message: Seq<char>) -> bool {
    &&& post.status_message.deep_view() == Some(message)
    &&& post.same_lists(&pre)
    &&& post.same_selection(&pre)
    &&& post.same_overlay(&pre)
    &&& post.same_panels(&pre)
}

/// What a scan of the directory does that gave the notes `notes`: an
/// active search is applied to them, and its first hit selected; without
/// one all are shown, and the selected position stays where the list still
/// has it. The preview is taken anew.
pub open spec fn rescanned(
    pre: AppState,
    notes: Seq<Seq<char>>,
    files: Seq<(Seq<char>, Seq<char>)>,
    post: AppState,
) -> bool {
    &&& post.notes.deep_view() == notes
    &&& post.search_query == pre.search_query
    &&& match pre.search_query {
        Some(query) => {
            &&& post.filtered_notes.deep_view() == search_hits(notes, lowercase_of(query@), files)
            &&& post.selected_idx == 0
        },
        None => {
            &&& post.filtered_notes.deep_view() == notes
            &&& post.selected_idx == clamped(pre.selected_idx as int, notes.len() as int)
        },
    }
    &&& post.preview.deep_view() == preview_for(files, post.selected())
    &&& post.status_message.deep_view() == Some("Notes refreshed"@)
    &&& post.same_overlay(&pre)
    &&& post.same_panels(&pre)
}

/// The status message behind the creation of the note `title`.
pub open spec fn created_text(title: Seq<char>, existed: bool) -> Seq<char> {
    if existed {
        "Note already exists: "@ + title
    } else {
        "Note created: "@ + title
    }
}

/// What the creation of the note `title` does, after which the directory
/// holds the notes `notes`: all of them are shown, no search is active, and
/// the note is selected where the list holds its slug.
pub open spec fn created(
    pre: AppState,
    title: Seq<char>,
    existed: bool,
    notes: Seq<Seq<char>>,
    files: Seq<(Seq<char>, Seq<char>)>,
    post: AppState,
) -> bool {
    &&& post.notes.deep_view() == notes
    &&& post.filtered_notes.deep_view() == notes
    &&& post.search_query is None
    &&& is_position_of(notes, slug_of(title), post.selected_idx as int)
    &&& post.preview.deep_view() == preview_for(files, post.selected())
    &&& post.status_message.deep_view() == Some(created_text(title, existed))
    &&& post.same_overlay(&pre)
    &&& post.same_panels(&pre)
}

/// The editor to run: what the environment names as `EDITOR`, else what
/// it names as `VISUAL`, else `vi`.
pub open spec fn editor_of(editor: Option<Seq<char>>, visual: Option<Seq<char>>) -> Seq<char> {
    match editor {
        Some(e) => e,
        None => match visual {
            Some(v) => v,
            None => "vi"@,
        },
    }
}

/// The editor to run, where the environment holds `editor` under
/// `EDITOR` and `visual` under `VISUAL`.
pub fn editor_command(editor: Option<String>, visual: Option<String>) -> (r: String)
    ensures
        r@ == editor_of(editor.deep_view(), visual.deep_view()),
{
    match editor {
        Some(e) => e,
        None => match visual {
            Some(v) => v,
            None => owned("vi"),
        },
    }
}

/// The first position of `item` in `list`, or 0 where `list` does not hold it.
pub fn position_of(list: &Vec<String>, item: &String) -> (r: usize)
    ensures
        is_position_of(list.deep_view(), item@, r as int),
{
    let mut i: usize = 0;
    while i < list.len()
        invariant
            i <= list.len(),
            forall|j: int| 0 <= j < i ==> list.deep_view()[j] != item@,
        decreases list.len() - i,
    {
        if list[i] == *item {
            assert(list.deep_view()[i as int] == item@);
            return i;
        }
        i += 1;
    }
    0
}

impl AppState {
    /// Takes a key. The state changes as `key_effect` says, and the
    /// result says what is left for the caller to do.
    pub fn handle_key(&mut self, key: KeyPress, files: &NoteFiles) -> (action: Action)
        requires
            old(self).wf(),
        ensures
            final(self).wf(),
            key_effect(*old(self), key, files@, *final(self), action),
    {
        match self.overlay {
            OverlayMode::Closed => self.browse_key(key, files),
            OverlayMode::CommandPalette => self.palette_key(key),
            OverlayMode::NoteCreation => self.creation_key(key),
            OverlayMode::Search => self.search_key(key, files),
            OverlayMode::Help => self.help_key(key),
        }
    }

    /// Opens the overlay `mode` with an empty input.
    fn open_overlay(&mut self, mode: OverlayMode)
        requires
            old(self).wf(),
        ensures
            final(self).wf(),
            overlay_set(*old(self), *final(self), mode, Seq::empty()),
    {
        self.overlay = mode;
        self.overlay_input = String::new();
    }

    /// Takes a character into the input of the open overlay.
    fn type_char(&mut self, c: char)
        requires
            old(self).wf(),
            old(self).overlay != OverlayMode::Closed,
            old(self).overlay != OverlayMode::Help,
        ensures
            final(self).wf(),
            overlay_set(
                *old(self),
                *final(self),
                old(self).overlay,
                old(self).overlay_input@.push(c),
            ),
    {
        self.overlay_input.push(c);
    }

    /// Takes the last character off the input of the open overlay.
    fn erase_char(&mut self)
        requires
            old(self).wf(),
            old(self).overlay != OverlayMode::Closed,
            old(self).overlay != OverlayMode::Help,
        ensures
            final(self).wf(),
            overlay_set(
                *old(self),
                *final(self),
                old(self).overlay,
                without_last(old(self).overlay_input@),
            ),
    {
        self.overlay_input.pop();
    }

    /// Takes a key while no overlay is open.
    fn browse_key(&mut self, key: KeyPress, files: &NoteFiles) -> (action: Action)
        requires
            old(self).wf(),
            old(self).overlay == OverlayMode::Closed,
        ensures
            final(self).wf(),
            browse_effect(*old(self), key, files@, *final(self), action),
    {
        match key.code {
            KeyCode::Char(c) => {
                if c == 'q' && key.plain {
                    Action::Quit
                } else if c == 'j' {
                    self.next_note(files);
                    Action::Continue
                } else if c == 'k' {
                    self.prev_note(files);
                    Action::Continue
                } else if c == 'n' {
                    self.open_overlay(OverlayMode::NoteCreation);
                    Action::Continue
                } else if c == 'e' {
                    match self.selected_note() {
                        Some(slug) => Action::EditNote(slug.clone()),
                        None => Action::Continue,
                    }
                } else if c == ':' {
                    self.open_overlay(OverlayMode::CommandPalette);
                    Action::Continue
                } else if c == 'h' {
                    self.open_overlay(OverlayMode::Help);
                    Action::Continue
                } else if c == '/' {
                    self.open_overlay(OverlayMode::Search);
                    Action::Continue
                } else if c == 't' {
                    self.show_tags = !self.show_tags;
                    self.status_message = Some(
                        if self.show_tags {
                            owned("Tags display: on")
                        } else {
                            owned("Tags display: off")
                        },
                    );
                    Action::Continue
                } else if c == 'r' {
                    Action::Rescan
                } else {
                    Action::Continue
                }
            },
            KeyCode::Down => {
                self.next_note(files);
                Action::Continue
            },
            KeyCode::Up => {
                self.prev_note(files);
                Action::Continue
            },
            KeyCode::Tab => {
                self.toggle_tab();
                Action::Continue
            },
            _ => Action::Continue,
        }
    }

    /// Takes a key in the command palette.
    fn palette_key(&mut self, key: KeyPress) -> (action: Action)
        requires
            old(self).wf(),
            old(self).overlay == OverlayMode::CommandPalette,
        ensures
            final(self).wf(),
            palette_effect(*old(self), key, *final(self), action),
    {
        match key.code {
            KeyCode::Esc => {
                self.open_overlay(OverlayMode::Closed);
                Action::Continue
            },
            KeyCode::Enter => {
                let cmd = self.overlay_input.clone();
                let job = handle_cmd(cmd, self);
                self.open_overlay(OverlayMode::Closed);
                match job {
                    Some(job) => Action::RunAi(job),
                    None => Action::Continue,
                }
            },
            KeyCode::Backspace => {
                self.erase_char();
                Action::Continue
            },
            KeyCode::Char(c) => {
                if c == '\t' {
                    let partial = strip_leading_char(&chars_of(self.overlay_input.as_str()), ':');
                    let summarize = starts_with(&chars_of("summarize"), &partial);
                    let keywords = starts_with(&chars_of("keywords"), &partial);
                    if summarize && !keywords {
                        self.overlay_input = owned(":summarize");
                    } else if keywords && !summarize {
                        self.overlay_input = owned(":keywords");
                    }
                } else {
                    self.type_char(c);
                }
                Action::Continue
            },
            _ => Action::Continue,
        }
    }

    /// Takes a key in the overlay that takes the title of a new note.
    fn creation_key(&mut self, key: KeyPress) -> (action: Action)
        requires
            old(self).wf(),
            old(self).overlay == OverlayMode::NoteCreation,
        ensures
            final(self).wf(),
            creation_effect(*old(self), key, *final(self), action),
    {
        match key.code {
            KeyCode::Esc => {
                self.open_overlay(OverlayMode::Closed);
                Action::Continue
            },
            KeyCode::Enter => {
                let title = trim(&chars_of(self.overlay_input.as_str()));
                self.open_overlay(OverlayMode::Closed);
                if title.len() > 0 {
                    Action::CreateNote(string_of(&title))
                } else {
                    Action::Continue
                }
            },
            KeyCode::Backspace => {
                self.erase_char();
                Action::Continue
            },
            KeyCode::Char(c) => {
                self.type_char(c);
                Action::Continue
            },
            _ => Action::Continue,
        }
    }

    /// Takes a key in the search overlay.
    fn search_key(&mut self, key: KeyPress, files: &NoteFiles) -> (action: Action)
        requires
            old(self).wf(),
            old(self).overlay == OverlayMode::Search,
        ensures
            final(self).wf(),
            search_effect(*old(self), key, files@, *final(self), action),
    {
        match key.code {
            KeyCode::Esc => {
                self.open_overlay(OverlayMode::Closed);
                Action::Continue
            },
            KeyCode::Enter => {
                let query = trim(&chars_of(self.overlay_input.as_str()));
                if query.len() == 0 {
                    self.search_query = None;
                } else {
                    self.search_query = Some(string_of(&query));
                }
                self.apply_search(files);
                self.selected_idx = 0;
                self.overlay = OverlayMode::Closed;
                self.overlay_input = String::new();
                self.update_preview(files);
                Action::Continue
            },
            KeyCode::Backspace => {
                self.erase_char();
                Action::Continue
            },
            KeyCode::Char(c) => {
                self.type_char(c);
                Action::Continue
            },
            _ => Action::Continue,
        }
    }

    /// Takes a key while the help is shown.
    fn help_key(&mut self, key: KeyPress) -> (action: Action)
        requires
            old(self).wf(),
            old(self).overlay == OverlayMode::Help,
        ensures
            final(self).wf(),
            help_effect(*old(self), key, *final(self), action),
    {
        match key.code {
            KeyCode::Esc => {
                self.open_overlay(OverlayMode::Closed);
            },
            KeyCode::Char(c) => {
                if c == 'h' {
                    self.open_overlay(OverlayMode::Closed);
                }
            },
            _ => {},
        }
        Action::Continue
    }
}

impl AppState {
    /// Takes the return from the editor that was opened on the note
    /// `slug`: `Ok` where it ran, else what went wrong.
    pub fn editor_closed(&mut self, slug: &str, outcome: Result<(), String>, files: &NoteFiles)
        requires
            old(self).wf(),
        ensures
            final(self).wf(),
            match outcome {
                Ok(_) => edited(*old(self), slug@, files@, *final(self)),
                Err(why) => status_set(*old(self), *final(self), "Editor error: "@ + why@),
            },
    {
        match outcome {
            Ok(_) => {
                let mut message = chars_of("Edited note: ");
                push_all(&mut message, &chars_of(slug));
                self.status_message = Some(string_of(&message));
                self.update_preview(files);
            },
            Err(why) => {
                let mut message = chars_of("Editor error: ");
                push_all(&mut message, &chars_of(why.as_str()));
                self.status_message = Some(string_of(&message));
            },
        }
    }

    /// Takes the notes that a scan of the directory gave.
    pub fn notes_rescanned(&mut self, notes: Vec<String>, files: &NoteFiles)
        requires
            old(self).wf(),
        ensures
            final(self).wf(),
            rescanned(*old(self), notes.deep_view(), files@, *final(self)),
    {
        self.notes = notes;
        self.apply_search(files);
        if self.search_query.is_none() {
            let len = self.notes.len();
            if self.selected_idx >= len {
                self.selected_idx = if len > 0 {
                    len - 1
                } else {
                    0
                };
            }
        }
        self.update_preview(files);
        self.status_message = Some(owned("Notes refreshed"));
    }

    /// Takes the creation of the note `title`, after which a scan of the
    /// directory gave `notes`; `existed` where the note was there before
    /// and its file was left as it was.
    pub fn note_created(&mut self, title: &str, existed: bool, notes: Vec<String>, files: &NoteFiles)
        requires
            old(self).wf(),
        ensures
            final(self).wf(),
            created(*old(self), title@, existed, notes.deep_view(), files@, *final(self)),
    {
        let slug = note_slug(title);
        let at = position_of(&notes, &slug);
        let mut message = if existed {
            chars_of("Note already exists: ")
        } else {
            chars_of("Note created: ")
        };
        push_all(&mut message, &chars_of(title));
        self.notes = notes;
        self.search_query = None;
        self.apply_search(files);
        self.selected_idx = at;
        self.update_preview(files);
        self.status_message = Some(string_of(&message));
    }

    /// Takes the failure of the creation of a note: it becomes the status
    /// message, and nothing else changes.
    pub fn note_creation_failed(&mut self, why: &str)
        requires
            old(self).wf(),
        ensures
            final(self).wf(),
            status_set(*old(self), *final(self), "Error: "@ + why@),
    {
        let mut message = chars_of("Error: ");
        push_all(&mut message, &chars_of(why));
        self.status_message = Some(string_of(&message));
    }
}

} // verus!
