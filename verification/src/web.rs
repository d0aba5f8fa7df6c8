//! What the web server answers: the data of a note, the list of notes, the
//! graph of links and tags, and the pages. Serving them is left to the caller.

use crate::front_matter::{
    block_bounds, block_close_of, block_open_of, is_delimiter, lines_window, window, DELIMITER,
};
use crate::notes::NoteFile;
use crate::pattern::{all_captured, all_captures, captured, first_capture, is_match};
use crate::screen::listed_name;
use crate::text::{
    chars_of, contains, contains_text, each_trimmed, ends_with, join, joined, lines_of,
    lowercase_of, occurs_at, owned, pieces_of, push_all, replace_char, replace_text, split_lines,
    split_on, string_of, strings_of, texts, trim, trim_each, trimmed, with_char_replaced,
    with_text_replaced,
};
use vstd::prelude::*;
use vstd::seq_lib::to_multiset_insert;

verus! {

/// The pattern of a line that gives the title.
pub const TITLE: &'static str = "^\\s*title:\\s*(.+)$";

/// The pattern of a line that gives the tags.
pub const TAGS: &'static str = "^\\s*tags:\\s*\\[([^\\]]*)\\]";

/// The pattern of a link to another note.
pub const LINK: &'static str = "\\[\\[(.+?)\\]\\]";

/// A node of the graph: a note, or a tag.
#[derive(Debug)]
pub struct NoteNode {
    pub id: String,
    pub is_tag: bool,
}

/// An edge of the graph: from a note to a note that it links to, or to one
/// of its tags.
#[derive(Debug)]
pub struct NoteLink {
    pub source: String,
    pub target: String,
}

/// The data of one note.
#[derive(Debug)]
pub struct NoteData {
    pub title: String,
    pub slug: String,
    pub preview: String,
    pub tags: Vec<String>,
    /// When the file was last modified, in seconds since the Unix epoch.
    pub last_modified: u64,
}

/// What the patterns find in one line.
pub struct LineScan {
    /// The line is a delimiter line.
    pub delimiter: bool,
    /// The title that the line gives, where it gives one.
    pub title: Option<String>,
    /// The text between the brackets, where the line gives tags.
    pub tags: Option<String>,
}

/// What the patterns find in one line, as texts.
pub struct Scan {
    pub delimiter: bool,
    pub title: Option<Seq<char>>,
    pub tags: Option<Seq<char>>,
}

impl View for LineScan {
    type V = Scan;

    open spec fn view(&self) -> Scan {
        Scan {
            delimiter: self.delimiter,
            title: self.title.deep_view(),
            tags: self.tags.deep_view(),
        }
    }
}

/// What the patterns find in `line`.
pub open spec fn scan_of(line: Seq<char>) -> Scan {
    Scan {
        delimiter: is_delimiter(line),
        title: captured(TITLE@, line, 1),
        tags: captured(TAGS@, line, 1),
    }
}

/// What the patterns find in each of `lines`.
pub open spec fn scans_of(lines: Seq<Seq<char>>) -> Seq<Scan> {
    Seq::new(lines.len(), |i: int| scan_of(lines[i]))
}

/// The scans in `found`, as texts.
pub open spec fn scan_views(found: Seq<LineScan>) -> Seq<Scan> {
    Seq::new(found.len(), |i: int| found[i]@)
}

/// For each scanned line, whether it is a delimiter line.
pub open spec fn scan_marks(found: Seq<Scan>) -> Seq<bool> {
    Seq::new(found.len(), |i: int| found[i].delimiter)
}

/// The texts of `parts` that are not empty, in order.
pub open spec fn not_empty(parts: Seq<Seq<char>>) -> Seq<Seq<char>>
    decreases parts.len(),
{
    if parts.len() == 0 {
        Seq::empty()
    } else if parts.last().len() > 0 {
        not_empty(parts.drop_last()).push(parts.last())
    } else {
        not_empty(parts.drop_last())
    }
}

/// The tags in the text between the brackets of a tags line: the pieces
/// between its commas, without the white space around them, but for the
/// empty ones.
pub open spec fn tag_list(inside: Seq<char>) -> Seq<Seq<char>> {
    not_empty(each_trimmed(pieces_of(inside, ',')))
}

/// The title that the scanned lines `block` give: that of the last line
/// that gives one, without the white space around it, or `otherwise`.
pub open spec fn block_title(block: Seq<Scan>, otherwise: Seq<char>) -> Seq<char>
    decreases block.len(),
{
    if block.len() == 0 {
        otherwise
    } else {
        match block.last().title {
            Some(t) => trimmed(t),
            None => block_title(block.drop_last(), otherwise),
        }
    }
}

/// The tags that the scanned lines `block` give: those of the last line
/// that gives tags, or none.
pub open spec fn block_tags(block: Seq<Scan>) -> Seq<Seq<char>>
    decreases block.len(),
{
    if block.len() == 0 {
        Seq::empty()
    } else {
        match block.last().tags {
            Some(t) => tag_list(t),
            None => block_tags(block.drop_last()),
        }
    }
}

/// The scanned lines between the delimiter that opens the block and the
/// one that closes it, or the end.
pub open spec fn block_of(found: Seq<Scan>) -> Seq<Scan> {
    let open = block_open_of(scan_marks(found));
    let close = block_close_of(scan_marks(found));
    if open < found.len() {
        found.subrange(open + 1, close)
    } else {
        Seq::empty()
    }
}

/// The excerpt of a note: its first three lines behind the block, one
/// below the other, or a notice where there are none.
pub open spec fn excerpt_of(lines: Seq<Seq<char>>, marks: Seq<bool>) -> Seq<char> {
    let shown = window(lines, block_close_of(marks) + 1, 3);
    if shown.len() == 0 {
        "No content"@
    } else {
        joined(shown, seq!['\n'])
    }
}

/// `data` is the data of the note `slug` whose file has the lines `lines`,
/// scanned as `found`, and was last modified at `last_modified`: the title
/// and the tags that the block gives, the listed name for a title that it
/// does not give, and the excerpt.
pub open spec fn describes(
    data: NoteData,
    slug: Seq<char>,
    lines: Seq<Seq<char>>,
    found: Seq<Scan>,
    last_modified: u64,
) -> bool {
    &&& data.slug@ == slug
    &&& data.title@ == block_title(block_of(found), listed_name(slug))
    &&& data.tags.deep_view() == block_tags(block_of(found))
    &&& data.preview@ == excerpt_of(lines, scan_marks(found))
    &&& data.last_modified == last_modified
}

/// What the patterns find in `line`.
pub fn scan_line(line: &Vec<char>) -> (r: LineScan)
    ensures
        r@ == scan_of(line@),
{
    let text = string_of(line);
    LineScan {
        delimiter: is_match(DELIMITER, text.as_str()),
        title: first_capture(TITLE, text.as_str(), 1),
        tags: first_capture(TAGS, text.as_str(), 1),
    }
}

/// What the patterns find in each of `lines`.
pub fn scan_lines(lines: &Vec<Vec<char>>) -> (r: Vec<LineScan>)
    ensures
        scan_views(r@) == scans_of(texts(lines@)),
        r.len() == lines.len(),
{
    let mut out: Vec<LineScan> = Vec::new();
    let mut i: usize = 0;
    while i < lines.len()
        invariant
            i <= lines.len(),
            out.len() == i,
            scan_views(out@) == scans_of(texts(lines@)).take(i as int),
        decreases lines.len() - i,
    {
        let ghost before = scan_views(out@);
        let scan = scan_line(&lines[i]);
        out.push(scan);
        assert(scan_views(out@) =~= before.push(scan@));
        assert(scan_views(out@) =~= scans_of(texts(lines@)).take(i + 1));
        i += 1;
    }
    assert(scan_views(out@) =~= scans_of(texts(lines@)));
    out
}

/// The texts of `parts` that are not empty, in order.
pub fn drop_empty(parts: Vec<Vec<char>>) -> (r: Vec<Vec<char>>)
    ensures
        texts(r@) == not_empty(texts(parts@)),
{
    let mut out: Vec<Vec<char>> = Vec::new();
    let ghost all = texts(parts@);
    let mut i: usize = 0;
    assert(all.take(0) =~= Seq::<Seq<char>>::empty());
    assert(texts(out@) =~= Seq::<Seq<char>>::empty());
    while i < parts.len()
        invariant
            i <= parts.len(),
            all == texts(parts@),
            texts(out@) == not_empty(all.take(i as int)),
        decreases parts.len() - i,
    {
        let ghost before = texts(out@);
        proof {
            let next = all.take(i + 1);
            assert(next.drop_last() =~= all.take(i as int));
            assert(next.last() == parts@[i as int]@);
        }
        if parts[i].len() > 0 {
            let part = crate::text::slice_of(&parts[i], 0, parts[i].len());
            assert(part@ =~= parts@[i as int]@);
            out.push(part);
            assert(texts(out@) =~= before.push(parts@[i as int]@));
        }
        i += 1;
    }
    assert(all.take(parts.len() as int) =~= all);
    out
}

/// The tags in the text between the brackets of a tags line.
pub fn split_tags(inside: &str) -> (r: Vec<Vec<char>>)
    ensures
        texts(r@) == tag_list(inside@),
{
    drop_empty(trim_each(&split_on(&chars_of(inside), ',')))
}

/// For each scanned line, whether it is a delimiter line.
pub fn marks_in(found: &Vec<LineScan>) -> (r: Vec<bool>)
    ensures
        r@ == scan_marks(scan_views(found@)),
{
    let mut out: Vec<bool> = Vec::new();
    let mut i: usize = 0;
    while i < found.len()
        invariant
            i <= found.len(),
            out@ == scan_marks(scan_views(found@)).take(i as int),
        decreases found.len() - i,
    {
        out.push(found[i].delimiter);
        assert(out@ =~= scan_marks(scan_views(found@)).take(i + 1));
        i += 1;
    }
    assert(out@ =~= scan_marks(scan_views(found@)));
    out
}

/// The data of the note `slug` whose file has the lines `lines`, scanned as
/// `found`, and was last modified at `last_modified`.
pub fn note_data(
    slug: &str,
    lines: &Vec<Vec<char>>,
    found: &Vec<LineScan>,
    last_modified: u64,
) -> (r: NoteData)
    requires
        found.len() == lines.len(),
    ensures
        describes(r, slug@, texts(lines@), scan_views(found@), last_modified),
{
    let marks = marks_in(found);
    let (open, close) = block_bounds(&marks);
    let ghost block = block_of(scan_views(found@));
    let mut title = replace_char(&chars_of(slug), '_', ' ');
    let mut tags: Vec<Vec<char>> = Vec::new();
    assert(texts(tags@) =~= Seq::<Seq<char>>::empty());
    if open < found.len() {
        let mut i: usize = open + 1;
        assert(block.take(0) =~= Seq::<Scan>::empty());
        while i < close
            invariant
                open + 1 <= i <= close <= found.len(),
                block == scan_views(found@).subrange(open + 1, close as int),
                title@ == block_title(block.take(i - open - 1), listed_name(slug@)),
                texts(tags@) == block_tags(block.take(i - open - 1)),
            decreases close - i,
        {
            proof {
                let next = block.take(i - open);
                assert(next.drop_last() =~= block.take(i - open - 1));
                assert(next.last() == found@[i as int]@);
            }
            match &found[i].title {
                Some(t) => {
                    title = trim(&chars_of(t.as_str()));
                },
                None => {},
            }
            match &found[i].tags {
                Some(t) => {
                    tags = split_tags(t.as_str());
                },
                None => {},
            }
            i += 1;
        }
        assert(block.take(close - open - 1) =~= block);
    }
    let shown = if close < lines.len() {
        lines_window(lines, close + 1, 3)
    } else {
        let none: Vec<Vec<char>> = Vec::new();
        assert(texts(none@) =~= Seq::<Seq<char>>::empty());
        none
    };
    let preview = if shown.len() == 0 {
        owned("No content")
    } else {
        let mut sep: Vec<char> = Vec::new();
        sep.push('\n');
        assert(sep@ =~= seq!['\n']);
        string_of(&join(&shown, &sep))
    };
    NoteData {
        title: string_of(&title),
        slug: owned(slug),
        preview,
        tags: strings_of(&tags),
        last_modified,
    }
}

/// `data` is the data of the note `slug` whose file holds `content` and
/// was last modified at `last_modified`.
pub open spec fn is_data_of(
    data: NoteData,
    slug: Seq<char>,
    content: Seq<char>,
    last_modified: u64,
) -> bool {
    describes(data, slug, lines_of(content), scans_of(lines_of(content)), last_modified)
}

/// The data of the note `slug` whose file holds `content` and was last
/// modified at `last_modified`.
pub fn extract_note_data(slug: &str, content: &str, last_modified: u64) -> (r: NoteData)
    ensures
        is_data_of(r, slug@, content@, last_modified),
{
    let lines = split_lines(&chars_of(content));
    let found = scan_lines(&lines);
    note_data(slug, &lines, &found, last_modified)
}

/// A note file as it was read: its slug, what it holds, and when it was
/// last modified.
pub struct NoteSource {
    pub slug: String,
    pub content: String,
    pub last_modified: u64,
}

/// How many items at the front of `items` were modified later than `time`.
pub open spec fn newer_count(items: Seq<NoteData>, time: u64) -> int
    decreases items.len(),
{
    if items.len() == 0 || items[0].last_modified <= time {
        0
    } else {
        1 + newer_count(items.drop_first(), time)
    }
}

/// `items` with `item` put behind the items at the front that were
/// modified later than it.
pub open spec fn placed(items: Seq<NoteData>, item: NoteData) -> Seq<NoteData> {
    items.insert(newer_count(items, item.last_modified), item)
}

/// `items` in the order of their last modification, the latest first;
/// items of the same time in the order in which they stand in `items`.
pub open spec fn newest_first(items: Seq<NoteData>) -> Seq<NoteData>
    decreases items.len(),
{
    if items.len() == 0 {
        Seq::empty()
    } else {
        placed(newest_first(items.drop_first()), items[0])
    }
}

/// No item of `items` stands before one that was modified later.
pub open spec fn descending(items: Seq<NoteData>) -> bool {
    forall|i: int, j: int|
        0 <= i < j < items.len() ==> items[i].last_modified >= items[j].last_modified
}

/// The items that `newer_count` counts were modified later than `time`,
/// and the item behind them, where there is one, was not.
pub proof fn lemma_newer_count(items: Seq<NoteData>, time: u64)
    ensures
        0 <= newer_count(items, time) <= items.len(),
        forall|j: int|
            0 <= j < newer_count(items, time) ==> (#[trigger] items[j]).last_modified > time,
        newer_count(items, time) < items.len() ==> items[newer_count(
            items,
            time,
        )].last_modified <= time,
    decreases items.len(),
{
    if items.len() > 0 && items[0].last_modified > time {
        let rest = items.drop_first();
        lemma_newer_count(rest, time);
        assert forall|j: int| 0 <= j < newer_count(items, time) implies (
        #[trigger] items[j]).last_modified > time by {
            if j > 0 {
                assert(items[j] == rest[j - 1]);
            }
        }
    }
}

/// The order `newest_first` is descending, and keeps every item as often
/// as it stands in the list.
pub proof fn lemma_newest_first(items: Seq<NoteData>)
    ensures
        descending(newest_first(items)),
        newest_first(items).to_multiset() == items.to_multiset(),
        newest_first(items).len() == items.len(),
    decreases items.len(),
{
    if items.len() == 0 {
        assert(newest_first(items) =~= items);
    } else {
        let rest = items.drop_first();
        let sorted = newest_first(rest);
        let item = items[0];
        let at = newer_count(sorted, item.last_modified);
        lemma_newest_first(rest);
        lemma_newer_count(sorted, item.last_modified);
        let out = sorted.insert(at, item);
        assert forall|i: int, j: int| 0 <= i < j < out.len() implies out[i].last_modified
            >= out[j].last_modified by {
            if i < at && j > at {
                assert(out[i] == sorted[i]);
                assert(out[j] == sorted[j - 1]);
                if j - 1 > at {
                    assert(sorted[at].last_modified >= sorted[j - 1].last_modified);
                }
            } else if i == at {
                assert(out[j] == sorted[j - 1]);
                if j - 1 > at {
                    assert(sorted[at].last_modified >= sorted[j - 1].last_modified);
                }
            } else if j == at {
                assert(out[i] == sorted[i]);
            } else if j < at {
                assert(out[i] == sorted[i] && out[j] == sorted[j]);
            } else {
                assert(out[i] == sorted[i - 1] && out[j] == sorted[j - 1]);
            }
        }
        to_multiset_insert(sorted, at, item);
        to_multiset_insert(rest, 0, item);
        assert(rest.insert(0, item) =~= items);
    }
}

/// `notes` in the order of their last modification, the latest first.
pub fn sort_newest_first(notes: Vec<NoteData>) -> (r: Vec<NoteData>)
    ensures
        r@ == newest_first(notes@),
        descending(r@),
        r@.to_multiset() == notes@.to_multiset(),
{
    let ghost all = notes@;
    let mut rest = notes;
    let mut out: Vec<NoteData> = Vec::new();
    assert(all.skip(all.len() as int) =~= Seq::<NoteData>::empty());
    while rest.len() > 0
        invariant
            rest@ == all.take(rest.len() as int),
            rest.len() <= all.len(),
            out@ == newest_first(all.skip(rest.len() as int)),
        decreases rest.len(),
    {
        let ghost k = rest.len() as int;
        let item = rest.pop().unwrap();
        proof {
            assert(item == all[k - 1]);
            assert(all.skip(k - 1).drop_first() =~= all.skip(k));
            assert(rest@ =~= all.take(k - 1));
            assert(out@.skip(0) =~= out@);
        }
        let mut at: usize = 0;
        while at < out.len() && out[at].last_modified > item.last_modified
            invariant
                at <= out.len(),
                newer_count(out@, item.last_modified) == at + newer_count(
                    out@.skip(at as int),
                    item.last_modified,
                ),
            decreases out.len() - at,
        {
            proof {
                assert(out@.skip(at as int).drop_first() =~= out@.skip(at + 1));
            }
            at += 1;
        }
        out.insert(at, item);
    }
    proof {
        assert(all.skip(0) =~= all);
        lemma_newest_first(all);
    }
    out
}

/// `data` holds, for each of `sources` in order, the data of that note.
pub open spec fn extracted(data: Seq<NoteData>, sources: Seq<NoteSource>) -> bool {
    &&& data.len() == sources.len()
    &&& forall|i: int|
        0 <= i < data.len() ==> is_data_of(
            #[trigger] data[i],
            sources[i].slug@,
            sources[i].content@,
            sources[i].last_modified,
        )
}

/// The data of each of the notes `sources`, in their order.
pub fn extract_all(sources: &Vec<NoteSource>) -> (r: Vec<NoteData>)
    ensures
        extracted(r@, sources@),
{
    let mut out: Vec<NoteData> = Vec::new();
    let mut i: usize = 0;
    while i < sources.len()
        invariant
            i <= sources.len(),
            extracted(out@, sources@.take(i as int)),
        decreases sources.len() - i,
    {
        let source = &sources[i];
        out.push(
            extract_note_data(source.slug.as_str(), source.content.as_str(), source.last_modified),
        );
        i += 1;
    }
    assert(sources@.take(sources.len() as int) =~= sources@);
    out
}

/// The data of the notes `sources`, the one that was modified last first.
pub fn collect_notes_data(sources: &Vec<NoteSource>) -> (r: Vec<NoteData>)
    ensures
        exists|data: Seq<NoteData>| extracted(data, sources@) && r@ == newest_first(data),
        descending(r@),
        r.len() == sources.len(),
{
    let data = extract_all(sources);
    proof {
        lemma_newest_first(data@);
    }
    sort_newest_first(data)
}

/// What one note adds to the graph: its stem, the notes that it links
/// to, and its tags.
pub struct GraphEntry {
    pub stem: String,
    pub links: Vec<String>,
    pub tags: Vec<String>,
}

/// What one note adds to the graph, as texts.
pub struct Entry {
    pub stem: Seq<char>,
    pub links: Seq<Seq<char>>,
    pub tags: Seq<Seq<char>>,
}

impl View for GraphEntry {
    type V = Entry;

    open spec fn view(&self) -> Entry {
        Entry { stem: self.stem@, links: self.links.deep_view(), tags: self.tags.deep_view() }
    }
}

/// The entries in `entries`, as texts.
pub open spec fn entry_views(entries: Seq<GraphEntry>) -> Seq<Entry> {
    Seq::new(entries.len(), |i: int| entries[i]@)
}

/// The name under which a link target or a tag stands in the graph: the
/// text in lower case, with `_` for each space.
pub open spec fn graph_name(text: Seq<char>) -> Seq<char> {
    with_char_replaced(lowercase_of(text), ' ', '_')
}

/// The graph names of `items`.
pub open spec fn graph_names(items: Seq<Seq<char>>) -> Seq<Seq<char>> {
    Seq::new(items.len(), |i: int| graph_name(items[i]))
}

/// The tags that the scanned lines `block` give to the graph: those of
/// every line that gives tags, in order.
pub open spec fn all_tags(block: Seq<Scan>) -> Seq<Seq<char>>
    decreases block.len(),
{
    if block.len() == 0 {
        Seq::empty()
    } else {
        match block.last().tags {
            Some(t) => all_tags(block.drop_last()) + graph_names(tag_list(t)),
            None => all_tags(block.drop_last()),
        }
    }
}

/// The links that `content` holds, by the graph names of their targets.
pub open spec fn links_in(content: Seq<char>) -> Seq<Seq<char>> {
    graph_names(all_captured(LINK@, content, 1))
}

/// What the note `stem` with the lines scanned as `found` and the link
/// targets `targets` adds to the graph.
pub open spec fn entry_from(stem: Seq<char>, found: Seq<Scan>, targets: Seq<Seq<char>>) -> Entry {
    Entry { stem, links: graph_names(targets), tags: all_tags(block_of(found)) }
}

/// What the note `stem` whose file holds `content` adds to the graph.
pub open spec fn entry_of(stem: Seq<char>, content: Seq<char>) -> Entry {
    entry_from(stem, scans_of(lines_of(content)), all_captured(LINK@, content, 1))
}

/// The names of the notes in the graph, as the entries give them: each
/// stem, followed by the targets of its links.
pub open spec fn note_names(entries: Seq<Entry>) -> Seq<Seq<char>>
    decreases entries.len(),
{
    if entries.len() == 0 {
        Seq::empty()
    } else {
        note_names(entries.drop_last()).push(entries.last().stem) + entries.last().links
    }
}

/// The tags in the graph, as the entries give them.
pub open spec fn tag_names(entries: Seq<Entry>) -> Seq<Seq<char>>
    decreases entries.len(),
{
    if entries.len() == 0 {
        Seq::empty()
    } else {
        tag_names(entries.drop_last()) + entries.last().tags
    }
}

/// The edges from `source` to each of `targets`.
pub open spec fn edges_from(source: Seq<char>, targets: Seq<Seq<char>>) -> Seq<
    (Seq<char>, Seq<char>),
> {
    Seq::new(targets.len(), |i: int| (source, targets[i]))
}

/// The edges from each note to the notes that it links to.
pub open spec fn link_edges(entries: Seq<Entry>) -> Seq<(Seq<char>, Seq<char>)>
    decreases entries.len(),
{
    if entries.len() == 0 {
        Seq::empty()
    } else {
        link_edges(entries.drop_last()) + edges_from(entries.last().stem, entries.last().links)
    }
}

/// The edges from each note to its tags.
pub open spec fn tag_edges(entries: Seq<Entry>) -> Seq<(Seq<char>, Seq<char>)>
    decreases entries.len(),
{
    if entries.len() == 0 {
        Seq::empty()
    } else {
        tag_edges(entries.drop_last()) + edges_from(entries.last().stem, entries.last().tags)
    }
}

/// The texts of `items` without repetitions: each where it first stands.
pub open spec fn distinct(items: Seq<Seq<char>>) -> Seq<Seq<char>>
    decreases items.len(),
{
    if items.len() == 0 {
        Seq::empty()
    } else if distinct(items.drop_last()).contains(items.last()) {
        distinct(items.drop_last())
    } else {
        distinct(items.drop_last()).push(items.last())
    }
}

/// The nodes for `names`: tags where `is_tag`, else notes.
pub open spec fn nodes_for(names: Seq<Seq<char>>, is_tag: bool) -> Seq<(Seq<char>, bool)> {
    Seq::new(names.len(), |i: int| (names[i], is_tag))
}

/// The nodes in `nodes`, as texts.
pub open spec fn node_views(nodes: Seq<NoteNode>) -> Seq<(Seq<char>, bool)> {
    Seq::new(nodes.len(), |i: int| (nodes[i].id@, nodes[i].is_tag))
}

/// The edges in `links`, as texts.
pub open spec fn link_views(links: Seq<NoteLink>) -> Seq<(Seq<char>, Seq<char>)> {
    Seq::new(links.len(), |i: int| (links[i].source@, links[i].target@))
}

/// The nodes of the graph of `entries`: one for each note that is there or
/// is linked to, then one for each tag.
pub open spec fn graph_nodes(entries: Seq<Entry>) -> Seq<(Seq<char>, bool)> {
    nodes_for(distinct(note_names(entries)), false) + nodes_for(
        distinct(tag_names(entries)),
        true,
    )
}

/// The edges of the graph of `entries`: the links, then the tags.
pub open spec fn graph_edges(entries: Seq<Entry>) -> Seq<(Seq<char>, Seq<char>)> {
    link_edges(entries) + tag_edges(entries)
}

/// In a list without repetitions no text stands twice, and it holds the
/// texts of the list that it was made from, and no others.
pub proof fn lemma_distinct(items: Seq<Seq<char>>)
    ensures
        forall|i: int, j: int|
            0 <= i < j < distinct(items).len() ==> distinct(items)[i] != distinct(items)[j],
        forall|x: Seq<char>| distinct(items).contains(x) <==> items.contains(x),
    decreases items.len(),
{
    if items.len() > 0 {
        let rest = items.drop_last();
        let last = items.last();
        lemma_distinct(rest);
        let d = distinct(rest);
        let out = distinct(items);
        assert forall|x: Seq<char>| out.contains(x) <==> items.contains(x) by {
            assert(d.contains(x) <==> rest.contains(x));
            assert(items.contains(x) <==> rest.contains(x) || x == last) by {
                if items.contains(x) {
                    let k = choose|k: int| 0 <= k < items.len() && items[k] == x;
                    if k < rest.len() {
                        assert(rest[k] == x);
                    }
                }
                if rest.contains(x) {
                    let k = choose|k: int| 0 <= k < rest.len() && rest[k] == x;
                    assert(items[k] == x);
                }
                if x == last {
                    assert(items[items.len() - 1] == x);
                }
            }
            assert(out.contains(x) <==> d.contains(x) || x == last) by {
                if out.contains(x) {
                    let m = choose|m: int| 0 <= m < out.len() && out[m] == x;
                    if m < d.len() {
                        assert(d[m] == x);
                    }
                }
                if d.contains(x) {
                    let m = choose|m: int| 0 <= m < d.len() && d[m] == x;
                    assert(out[m] == x);
                }
                if x == last && !d.contains(last) {
                    assert(out[d.len() as int] == x);
                }
            }
        }
        assert forall|i: int, j: int| 0 <= i < j < out.len() implies out[i] != out[j] by {
            if j < d.len() {
                assert(out[i] == d[i] && out[j] == d[j]);
            } else {
                assert(d.contains(d[i]));
            }
        }
    }
}

/// The graph name of `text`.
pub fn name_for_graph(text: &str) -> (r: String)
    ensures
        r@ == graph_name(text@),
{
    string_of(&replace_char(&chars_of(text.to_lowercase().as_str()), ' ', '_'))
}

/// The graph names of `items`.
pub fn names_for_graph(items: &Vec<String>) -> (r: Vec<String>)
    ensures
        r.deep_view() == graph_names(items.deep_view()),
{
    let mut out: Vec<String> = Vec::new();
    let mut i: usize = 0;
    while i < items.len()
        invariant
            i <= items.len(),
            out.deep_view() == graph_names(items.deep_view()).take(i as int),
        decreases items.len() - i,
    {
        let ghost before = out.deep_view();
        let name = name_for_graph(items[i].as_str());
        out.push(name);
        assert(out.deep_view() =~= before.push(name@));
        assert(out.deep_view() =~= graph_names(items.deep_view()).take(i + 1));
        i += 1;
    }
    assert(out.deep_view() =~= graph_names(items.deep_view()));
    out
}

/// Appends the strings of `src` to `dst`.
pub fn push_names(dst: &mut Vec<String>, src: &Vec<String>)
    ensures
        final(dst).deep_view() == old(dst).deep_view() + src.deep_view(),
{
    let mut i: usize = 0;
    assert(dst.deep_view() =~= old(dst).deep_view() + src.deep_view().take(0));
    while i < src.len()
        invariant
            i <= src.len(),
            dst.deep_view() == old(dst).deep_view() + src.deep_view().take(i as int),
        decreases src.len() - i,
    {
        let ghost before = dst.deep_view();
        dst.push(src[i].clone());
        assert(dst.deep_view() =~= before.push(src@[i as int]@));
        assert(dst.deep_view() =~= old(dst).deep_view() + src.deep_view().take(i + 1));
        i += 1;
    }
    assert(src.deep_view().take(src.len() as int) =~= src.deep_view());
}

/// What the note `stem` adds to the graph, where the lines of its file
/// were scanned as `found` and its links have the targets `targets`.
pub fn entry_for(stem: &str, found: &Vec<LineScan>, targets: &Vec<String>) -> (r: GraphEntry)
    ensures
        r@ == entry_from(stem@, scan_views(found@), targets.deep_view()),
{
    let marks = marks_in(found);
    let (open, close) = block_bounds(&marks);
    let ghost block = block_of(scan_views(found@));
    let mut tags: Vec<String> = Vec::new();
    assert(tags.deep_view() =~= Seq::<Seq<char>>::empty());
    if open < found.len() {
        let mut i: usize = open + 1;
        assert(block.take(0) =~= Seq::<Scan>::empty());
        while i < close
            invariant
                open + 1 <= i <= close <= found.len(),
                block == scan_views(found@).subrange(open + 1, close as int),
                tags.deep_view() == all_tags(block.take(i - open - 1)),
            decreases close - i,
        {
            proof {
                let next = block.take(i - open);
                assert(next.drop_last() =~= block.take(i - open - 1));
                assert(next.last() == found@[i as int]@);
            }
            match &found[i].tags {
                Some(t) => {
                    let named = names_for_graph(&strings_of(&split_tags(t.as_str())));
                    push_names(&mut tags, &named);
                },
                None => {},
            }
            i += 1;
        }
        assert(block.take(close - open - 1) =~= block);
    }
    let r = GraphEntry { stem: owned(stem), links: names_for_graph(targets), tags };
    assert(r@.links =~= entry_from(stem@, scan_views(found@), targets.deep_view()).links);
    r
}

/// What the note `stem` whose file holds `content` adds to the graph.
pub fn graph_entry(stem: &str, content: &str) -> (r: GraphEntry)
    ensures
        r@ == entry_of(stem@, content@),
{
    let lines = split_lines(&chars_of(content));
    let found = scan_lines(&lines);
    let targets = all_captures(LINK, content, 1);
    entry_for(stem, &found, &targets)
}

/// Whether `list` holds `item`.
pub fn holds_name(list: &Vec<String>, item: &String) -> (r: bool)
    ensures
        r == list.deep_view().contains(item@),
{
    let mut i: usize = 0;
    while i < list.len()
        invariant
            i <= list.len(),
            forall|j: int| 0 <= j < i ==> list.deep_view()[j] != item@,
        decreases list.len() - i,
    {
        if list[i] == *item {
            assert(list.deep_view()[i as int] == item@);
            return true;
        }
        i += 1;
    }
    false
}

/// Appends to `seen` the strings of `items` that it does not hold yet.
fn push_distinct(seen: &mut Vec<String>, items: &Vec<String>, Ghost(before): Ghost<Seq<Seq<char>>>)
    requires
        old(seen).deep_view() == distinct(before),
    ensures
        final(seen).deep_view() == distinct(before + items.deep_view()),
{
    let mut j: usize = 0;
    assert(before + items.deep_view().take(0) =~= before);
    while j < items.len()
        invariant
            j <= items.len(),
            seen.deep_view() == distinct(before + items.deep_view().take(j as int)),
        decreases items.len() - j,
    {
        let ghost had = seen.deep_view();
        proof {
            let next = before + items.deep_view().take(j + 1);
            assert(next.drop_last() =~= before + items.deep_view().take(j as int));
            assert(next.last() == items@[j as int]@);
        }
        if !holds_name(seen, &items[j]) {
            seen.push(items[j].clone());
            assert(seen.deep_view() =~= had.push(items@[j as int]@));
        }
        j += 1;
    }
    assert(items.deep_view().take(items.len() as int) =~= items.deep_view());
}

/// Appends to `edges` the edges from `source` to each of `targets`.
fn push_edges(edges: &mut Vec<NoteLink>, source: &String, targets: &Vec<String>)
    ensures
        link_views(final(edges)@) == link_views(old(edges)@) + edges_from(
            source@,
            targets.deep_view(),
        ),
{
    let mut j: usize = 0;
    assert(link_views(edges@) =~= link_views(old(edges)@) + edges_from(
        source@,
        targets.deep_view(),
    ).take(0));
    while j < targets.len()
        invariant
            j <= targets.len(),
            link_views(edges@) == link_views(old(edges)@) + edges_from(
                source@,
                targets.deep_view(),
            ).take(j as int),
        decreases targets.len() - j,
    {
        let ghost had = link_views(edges@);
        edges.push(NoteLink { source: source.clone(), target: targets[j].clone() });
        assert(link_views(edges@) =~= had.push((source@, targets@[j as int]@)));
        assert(link_views(edges@) =~= link_views(old(edges)@) + edges_from(
            source@,
            targets.deep_view(),
        ).take(j + 1));
        j += 1;
    }
    assert(edges_from(source@, targets.deep_view()).take(targets.len() as int) =~= edges_from(
        source@,
        targets.deep_view(),
    ));
}

/// Appends to `nodes` a node for each of `names`.
fn push_nodes(nodes: &mut Vec<NoteNode>, names: &Vec<String>, is_tag: bool)
    ensures
        node_views(final(nodes)@) == node_views(old(nodes)@) + nodes_for(
            names.deep_view(),
            is_tag,
        ),
{
    let mut j: usize = 0;
    assert(node_views(nodes@) =~= node_views(old(nodes)@) + nodes_for(
        names.deep_view(),
        is_tag,
    ).take(0));
    while j < names.len()
        invariant
            j <= names.len(),
            node_views(nodes@) == node_views(old(nodes)@) + nodes_for(
                names.deep_view(),
                is_tag,
            ).take(j as int),
        decreases names.len() - j,
    {
        let ghost had = node_views(nodes@);
        nodes.push(NoteNode { id: names[j].clone(), is_tag });
        assert(node_views(nodes@) =~= had.push((names@[j as int]@, is_tag)));
        assert(node_views(nodes@) =~= node_views(old(nodes)@) + nodes_for(
            names.deep_view(),
            is_tag,
        ).take(j + 1));
        j += 1;
    }
    assert(nodes_for(names.deep_view(), is_tag).take(names.len() as int) =~= nodes_for(
        names.deep_view(),
        is_tag,
    ));
}

/// The graph of `entries`: its nodes and its edges.
pub fn graph_of(entries: &Vec<GraphEntry>) -> (r: (Vec<NoteNode>, Vec<NoteLink>))
    ensures
        node_views(r.0@) == graph_nodes(entry_views(entries@)),
        link_views(r.1@) == graph_edges(entry_views(entries@)),
{
    let ghost all = entry_views(entries@);
    let mut names: Vec<String> = Vec::new();
    let mut tags: Vec<String> = Vec::new();
    let mut links: Vec<NoteLink> = Vec::new();
    let mut tag_links: Vec<NoteLink> = Vec::new();
    let mut i: usize = 0;
    assert(all.take(0) =~= Seq::<Entry>::empty());
    assert(names.deep_view() =~= Seq::<Seq<char>>::empty());
    assert(tags.deep_view() =~= Seq::<Seq<char>>::empty());
    assert(link_views(links@) =~= Seq::<(Seq<char>, Seq<char>)>::empty());
    assert(link_views(tag_links@) =~= Seq::<(Seq<char>, Seq<char>)>::empty());
    while i < entries.len()
        invariant
            i <= entries.len(),
            all == entry_views(entries@),
            names.deep_view() == distinct(note_names(all.take(i as int))),
            tags.deep_view() == distinct(tag_names(all.take(i as int))),
            link_views(links@) == link_edges(all.take(i as int)),
            link_views(tag_links@) == tag_edges(all.take(i as int)),
        decreases entries.len() - i,
    {
        let entry = &entries[i];
        let ghost done = all.take(i as int);
        proof {
            let next = all.take(i + 1);
            assert(next.drop_last() =~= done);
            assert(next.last() == entry@);
        }
        let ghost had = names.deep_view();
        if !holds_name(&names, &entry.stem) {
            names.push(entry.stem.clone());
            assert(names.deep_view() =~= had.push(entry.stem@));
        }
        proof {
            assert(note_names(done).push(entry.stem@).drop_last() =~= note_names(done));
        }
        push_distinct(&mut names, &entry.links, Ghost(note_names(done).push(entry.stem@)));
        push_distinct(&mut tags, &entry.tags, Ghost(tag_names(done)));
        push_edges(&mut links, &entry.stem, &entry.links);
        push_edges(&mut tag_links, &entry.stem, &entry.tags);
        i += 1;
    }
    assert(all.take(entries.len() as int) =~= all);
    let mut nodes: Vec<NoteNode> = Vec::new();
    assert(node_views(nodes@) =~= Seq::<(Seq<char>, bool)>::empty());
    push_nodes(&mut nodes, &names, false);
    push_nodes(&mut nodes, &tags, true);
    let ghost edges = link_views(links@);
    let ghost tag_edges = link_views(tag_links@);
    links.append(&mut tag_links);
    assert(link_views(links@) =~= edges + tag_edges);
    assert(node_views(nodes@) =~= graph_nodes(all));
    (nodes, links)
}

/// The entries of the notes `notes`, in their order.
pub open spec fn entries_of(notes: Seq<NoteFile>) -> Seq<Entry> {
    Seq::new(notes.len(), |i: int| entry_of(notes[i].slug@, notes[i].content@))
}

/// The graph of the notes `notes`, each with the content of its file, or
/// with an empty one where the file could not be read.
pub fn build_graph(notes: &Vec<NoteFile>) -> (r: (Vec<NoteNode>, Vec<NoteLink>))
    ensures
        node_views(r.0@) == graph_nodes(entries_of(notes@)),
        link_views(r.1@) == graph_edges(entries_of(notes@)),
{
    let mut entries: Vec<GraphEntry> = Vec::new();
    let mut i: usize = 0;
    while i < notes.len()
        invariant
            i <= notes.len(),
            entry_views(entries@) == entries_of(notes@).take(i as int),
        decreases notes.len() - i,
    {
        let ghost before = entry_views(entries@);
        let entry = graph_entry(notes[i].slug.as_str(), notes[i].content.as_str());
        entries.push(entry);
        assert(entry_views(entries@) =~= before.push(entry@));
        assert(entry_views(entries@) =~= entries_of(notes@).take(i + 1));
        i += 1;
    }
    assert(entry_views(entries@) =~= entries_of(notes@));
    graph_of(&entries)
}

/// The text by which a page shows that it has the loader already.
pub const LOADER_MARK: &'static str = "window.require = window.require";

/// The opening of a page's head.
pub const HEAD: &'static str = "<head>";

/// The opening of a page's head, followed by the loader.
pub const HEAD_WITH_LOADER: &'static str =
    "<head>\n  <script>window.require = window.require || function(id) { console.log('[REQUIRE POLYFILL]', id); return {}; };</script>";

/// The page that is served where no index file is found.
pub const NO_INDEX: &'static str =
    "<html><body><h1>UltraThink Notes</h1><p>Index file not found. Please run 'bun run build' in web-ui directory.</p></body></html>";

/// The page of a note, up to its title.
pub const NOTE_PAGE_HEAD: &'static str =
    "<!DOCTYPE html>\n<html lang=\"en\">\n<head>\n  <meta charset=\"UTF-8\" />\n  <meta name=\"viewport\" content=\"width=device-width, initial-scale=1.0\" />\n  <title>";

/// The page of a note, between its title and its heading.
pub const NOTE_PAGE_STYLE: &'static str =
    "</title>\n  <style>\n    :root {\n      --bg-gradient: linear-gradient(135deg, #e0d7f7, #ffffff);\n      --text-color: #333;\n      --accent-color: #8a70d6;\n      --card-bg: #fff;\n      --border-color: #d0d4d8;\n    }\n    body {\n      margin: 0;\n      padding: 20px;\n      background: var(--bg-gradient);\n      color: var(--text-color);\n      font-family: \"Helvetica Neue\", Helvetica, Arial, sans-serif;\n      line-height: 1.6;\n    }\n    .note-container {\n      max-width: 800px;\n      margin: 0 auto;\n      background: white;\n      padding: 20px;\n      border-radius: 8px;\n      box-shadow: 0 2px 4px rgba(0,0,0,0.1);\n    }\n    h1, h2, h3 {\n      color: var(--accent-color);\n    }\n    a {\n      color: var(--accent-color);\n      text-decoration: none;\n    }\n    a:hover {\n      text-decoration: underline;\n    }\n    .header {\n      display: flex;\n      justify-content: space-between;\n      align-items: center;\n      margin-bottom: 20px;\n      padding-bottom: 10px;\n      border-bottom: 1px solid var(--border-color);\n    }\n  </style>\n</head>\n<body>\n  <div class=\"note-container\">\n    <div class=\"header\">\n      <h1>";

/// The page of a note, between its heading and its text.
pub const NOTE_PAGE_BODY: &'static str =
    "</h1>\n      <a href=\"/\">Back to Index</a>\n    </div>\n    <div class=\"content\">\n      ";

/// The page of a note, behind its text.
pub const NOTE_PAGE_FOOT: &'static str =
    "\n    </div>\n  </div>\n</body>\n</html>";

/// What the server answers.
pub enum Reply {
    /// A page.
    Html(String),
    /// A file of the given type.
    Asset { content_type: String, bytes: Vec<u8> },
    /// The data of a note.
    Note(NoteData),
    /// The request is refused.
    BadRequest(String),
    /// Nothing is there.
    NotFound(String),
    /// The server could not do it.
    ServerError(String),
    /// The answer is elsewhere, for now.
    Redirect { location: String, body: String },
}

/// What reading a note file gave.
pub enum NoteRead {
    /// There is no such file.
    Missing,
    /// The file is there and could not be read.
    Unreadable,
    /// The file holds `content` and was last modified at `last_modified`.
    Found { content: String, last_modified: u64 },
}

/// A built page as it is served: without the `crossorigin` attributes, and
/// with the loader at the start of its head unless it has it already.
pub open spec fn served_page(content: Seq<char>) -> Seq<char> {
    let plain = with_text_replaced(content, " crossorigin"@, Seq::empty());
    if contains_text(plain, LOADER_MARK@) {
        plain
    } else {
        with_text_replaced(plain, HEAD@, HEAD_WITH_LOADER@)
    }
}

/// The text of a note as a page shows it: with a break for each line feed,
/// and with two fixed spaces for each two spaces.
pub open spec fn shown_text(content: Seq<char>) -> Seq<char> {
    with_text_replaced(with_text_replaced(content, seq!['\n'], "<br>"@), "  "@, "&nbsp;&nbsp;"@)
}

/// The page of the note `stem` whose file holds `content`.
pub open spec fn note_page_of(stem: Seq<char>, content: Seq<char>) -> Seq<char> {
    NOTE_PAGE_HEAD@ + listed_name(stem) + NOTE_PAGE_STYLE@ + listed_name(stem) + NOTE_PAGE_BODY@
        + shown_text(content) + NOTE_PAGE_FOOT@
}

/// The type of an asset, by the end of its file name.
pub open spec fn content_type_of(name: Seq<char>) -> Seq<char> {
    if has_ending(name, ".js"@) {
        "application/javascript"@
    } else if has_ending(name, ".css"@) {
        "text/css"@
    } else if has_ending(name, ".png"@) {
        "image/png"@
    } else if has_ending(name, ".jpg"@) || has_ending(name, ".jpeg"@) {
        "image/jpeg"@
    } else if has_ending(name, ".svg"@) {
        "image/svg+xml"@
    } else if has_ending(name, ".woff2"@) {
        "font/woff2"@
    } else if has_ending(name, ".woff"@) {
        "font/woff"@
    } else {
        "application/octet-stream"@
    }
}

/// `name` ends with `ending`.
pub open spec fn has_ending(name: Seq<char>, ending: Seq<char>) -> bool {
    ending.len() <= name.len() && occurs_at(name, ending, name.len() - ending.len())
}

/// The file of the asset `name`; none for a name that holds `..`, which
/// could lead out of the directory of the assets.
pub open spec fn asset_file_of(name: Seq<char>) -> Option<Seq<char>> {
    if contains_text(name, ".."@) {
        None
    } else {
        Some("static/web/assets/"@ + name)
    }
}

/// A built page as it is served.
pub fn prepare_page(content: &str) -> (r: String)
    ensures
        r@ == served_page(content@),
{
    let none: Vec<char> = Vec::new();
    let plain = replace_text(&chars_of(content), &chars_of(" crossorigin"), &none);
    if contains(&plain, &chars_of(LOADER_MARK)) {
        string_of(&plain)
    } else {
        string_of(&replace_text(&plain, &chars_of(HEAD), &chars_of(HEAD_WITH_LOADER)))
    }
}

/// The answer to a request for the index: the built page as it is served;
/// without one the page of the development tree as it is; without that the
/// notice that no index was found.
pub fn index_page(built: Option<String>, development: Option<String>) -> (r: Reply)
    ensures
        r matches Reply::Html(page) && page@ == (match built {
            Some(content) => served_page(content@),
            None => match development {
                Some(content) => content@,
                None => NO_INDEX@,
            },
        }),
{
    match built {
        Some(content) => Reply::Html(prepare_page(content.as_str())),
        None => match development {
            Some(content) => Reply::Html(content),
            None => Reply::Html(owned(NO_INDEX)),
        },
    }
}

/// The answer to a request for the graph viewer: the built page as it
/// is served; without one the older viewer as it is; without that the way
/// to the index.
pub fn graph_page(built: Option<String>, legacy: Option<String>) -> (r: Reply)
    ensures
        match built {
            Some(content) => r matches Reply::Html(page) && page@ == served_page(content@),
            None => match legacy {
                Some(content) => r matches Reply::Html(page) && page@ == content@,
                None => r matches Reply::Redirect { location, body } && location@ == "/"@
                    && body@ == "Redirecting to home page"@,
            },
        },
{
    match built {
        Some(content) => Reply::Html(prepare_page(content.as_str())),
        None => match legacy {
            Some(content) => Reply::Html(content),
            None => Reply::Redirect {
                location: owned("/"),
                body: owned("Redirecting to home page"),
            },
        },
    }
}

/// The page of the note `stem` whose file holds `content`.
pub fn note_page(stem: &str, content: &str) -> (r: String)
    ensures
        r@ == note_page_of(stem@, content@),
{
    let name = replace_char(&chars_of(stem), '_', ' ');
    let mut feed: Vec<char> = Vec::new();
    feed.push('\n');
    assert(feed@ =~= seq!['\n']);
    let broken = replace_text(&chars_of(content), &feed, &chars_of("<br>"));
    let shown = replace_text(&broken, &chars_of("  "), &chars_of("&nbsp;&nbsp;"));
    let mut out = chars_of(NOTE_PAGE_HEAD);
    push_all(&mut out, &name);
    push_all(&mut out, &chars_of(NOTE_PAGE_STYLE));
    push_all(&mut out, &name);
    push_all(&mut out, &chars_of(NOTE_PAGE_BODY));
    push_all(&mut out, &shown);
    push_all(&mut out, &chars_of(NOTE_PAGE_FOOT));
    string_of(&out)
}

/// The answer to a request for the page of the note `stem`, where reading
/// its file gave `file`.
pub fn serve_note(stem: &str, file: NoteRead) -> (r: Reply)
    ensures
        match file {
            NoteRead::Missing => r matches Reply::NotFound(why) && why@ == "Note not found"@,
            NoteRead::Unreadable => r matches Reply::ServerError(why) && why@
                == "Failed to read note content"@,
            NoteRead::Found { content, last_modified } => r matches Reply::Html(page) && page@
                == note_page_of(stem@, content@),
        },
{
    match file {
        NoteRead::Missing => Reply::NotFound(owned("Note not found")),
        NoteRead::Unreadable => Reply::ServerError(owned("Failed to read note content")),
        NoteRead::Found { content, last_modified } => Reply::Html(
            note_page(stem, content.as_str()),
        ),
    }
}

/// The answer to a request for the data of the note `stem`, where
/// reading its file gave `file`.
pub fn note_detail_api(stem: &str, file: NoteRead) -> (r: Reply)
    ensures
        match file {
            NoteRead::Missing => r matches Reply::NotFound(why) && why@ == "Note not found"@,
            NoteRead::Unreadable => r matches Reply::ServerError(why) && why@
                == "Failed to extract note data"@,
            NoteRead::Found { content, last_modified } => r matches Reply::Note(data)
                && is_data_of(data, stem@, content@, last_modified),
        },
{
    match file {
        NoteRead::Missing => Reply::NotFound(owned("Note not found")),
        NoteRead::Unreadable => Reply::ServerError(owned("Failed to extract note data")),
        NoteRead::Found { content, last_modified } => Reply::Note(
            extract_note_data(stem, content.as_str(), last_modified),
        ),
    }
}

/// The type of the asset `name`.
pub fn asset_content_type(name: &str) -> (r: String)
    ensures
        r@ == content_type_of(name@),
{
    let n = chars_of(name);
    if ends_with(&n, &chars_of(".js")) {
        owned("application/javascript")
    } else if ends_with(&n, &chars_of(".css")) {
        owned("text/css")
    } else if ends_with(&n, &chars_of(".png")) {
        owned("image/png")
    } else if ends_with(&n, &chars_of(".jpg")) || ends_with(&n, &chars_of(".jpeg")) {
        owned("image/jpeg")
    } else if ends_with(&n, &chars_of(".svg")) {
        owned("image/svg+xml")
    } else if ends_with(&n, &chars_of(".woff2")) {
        owned("font/woff2")
    } else if ends_with(&n, &chars_of(".woff")) {
        owned("font/woff")
    } else {
        owned("application/octet-stream")
    }
}

/// The file to read for the asset `name`, where the name is accepted.
pub fn asset_file(name: &str) -> (r: Option<String>)
    ensures
        r.deep_view() == asset_file_of(name@),
{
    let n = chars_of(name);
    if contains(&n, &chars_of("..")) {
        None
    } else {
        let mut path = chars_of("static/web/assets/");
        push_all(&mut path, &n);
        Some(string_of(&path))
    }
}

/// The answer to a request for the asset `name`, where `file` is what
/// its file holds, or none where it could not be read. A name that holds
/// `..` is refused whatever was read.
pub fn serve_assets(name: &str, file: Option<Vec<u8>>) -> (r: Reply)
    ensures
        match (asset_file_of(name@), file) {
            (None, _) => r matches Reply::BadRequest(why) && why@ == "Invalid path"@,
            (Some(_), Some(held)) => r matches Reply::Asset { content_type, bytes }
                && content_type@ == content_type_of(name@) && bytes == held,
            (Some(_), None) => r matches Reply::NotFound(why) && why@ == "Asset not found: "@
                + name@,
        },
{
    match asset_file(name) {
        None => Reply::BadRequest(owned("Invalid path")),
        Some(_) => match file {
            Some(bytes) => Reply::Asset { content_type: asset_content_type(name), bytes },
            None => {
                let mut why = chars_of("Asset not found: ");
                push_all(&mut why, &chars_of(name));
                Reply::NotFound(string_of(&why))
            },
        },
    }
}

} // verus!
