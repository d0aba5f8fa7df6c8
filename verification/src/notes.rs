//! The note directory as the library sees it: names, paths, the text of a
//! new note, and the contents of the files as plain values.

use crate::text::{chars_of, lowercase_of, occurs, occurs_at, push_all, slice_of, string_of};
use vstd::prelude::*;

verus! {

/// The notes directory below the home directory `home`.
pub open spec fn dir_in(home: Seq<char>) -> Seq<char> {
    home + "/notes"@
}

/// The path of the note `stem` in the directory `dir`.
pub open spec fn path_of(dir: Seq<char>, stem: Seq<char>) -> Seq<char> {
    dir.push('/') + stem + ".md"@
}

/// `text` with `_` for each space, slash and backslash.
pub open spec fn underscored(text: Seq<char>) -> Seq<char> {
    Seq::new(
        text.len(),
        |i: int|
            if text[i] == ' ' || text[i] == '/' || text[i] == '\\' {
                '_'
            } else {
                text[i]
            },
    )
}

/// The slug of a title: the title in lower case, with `_` for each space,
/// slash and backslash.
pub open spec fn slug_of(title: Seq<char>) -> Seq<char> {
    underscored(lowercase_of(title))
}

/// The text that a new note with the title `title` starts with.
pub open spec fn template_of(title: Seq<char>) -> Seq<char> {
    "---\ntitle: "@ + title + "\ntags: []\n---\n# "@ + title + "\n\nWrite your note here.\n"@
}

/// The notes directory below the home directory `home`.
pub fn notes_dir(home: &str) -> (r: String)
    ensures
        r@ == dir_in(home@),
{
    let mut out = chars_of(home);
    push_all(&mut out, &chars_of("/notes"));
    string_of(&out)
}

/// The path of the note `stem` in the directory `dir`.
pub fn note_path(dir: &str, stem: &str) -> (r: String)
    ensures
        r@ == path_of(dir@, stem@),
{
    let mut out = chars_of(dir);
    out.push('/');
    push_all(&mut out, &chars_of(stem));
    push_all(&mut out, &chars_of(".md"));
    string_of(&out)
}

/// `text` with `_` for each space, slash and backslash.
pub fn underscore(text: &Vec<char>) -> (r: Vec<char>)
    ensures
        r@ == underscored(text@),
{
    let mut out: Vec<char> = Vec::new();
    let mut i: usize = 0;
    while i < text.len()
        invariant
            i <= text.len(),
            out@ == underscored(text@).take(i as int),
        decreases text.len() - i,
    {
        let c = text[i];
        out.push(if c == ' ' || c == '/' || c == '\\' { '_' } else { c });
        assert(out@ =~= underscored(text@).take(i + 1));
        i += 1;
    }
    assert(out@ =~= underscored(text@));
    out
}

/// The slug of the title `title`.
pub fn note_slug(title: &str) -> (r: String)
    ensures
        r@ == slug_of(title@),
{
    string_of(&underscore(&chars_of(title.to_lowercase().as_str())))
}

/// The text that a new note with the title `title` starts with.
pub fn note_template(title: &str) -> (r: String)
    ensures
        r@ == template_of(title@),
{
    let t = chars_of(title);
    let mut out = chars_of("---\ntitle: ");
    push_all(&mut out, &t);
    push_all(&mut out, &chars_of("\ntags: []\n---\n# "));
    push_all(&mut out, &t);
    push_all(&mut out, &chars_of("\n\nWrite your note here.\n"));
    string_of(&out)
}

/// What creating a note comes to: a file to write, or nothing, because a
/// file of that slug is there already and is left as it is.
pub enum NoteCreation {
    /// The note exists at `path`; nothing is written.
    Exists { path: String },
    /// `content` is to be written to the new file `path`.
    Write { path: String, content: String },
}

/// Decides the creation of a note titled `title` in `dir`, where `exists`
/// says whether the file at `note_path(dir, note_slug(title))` is there.
pub fn create_new_note(dir: &str, title: &str, exists: bool) -> (r: NoteCreation)
    ensures
        match r {
            NoteCreation::Exists { path } => exists && path@ == path_of(dir@, slug_of(title@)),
            NoteCreation::Write { path, content } => !exists && path@ == path_of(
                dir@,
                slug_of(title@),
            ) && content@ == template_of(title@),
        },
{
    let slug = note_slug(title);
    let path = note_path(dir, slug.as_str());
    if exists {
        NoteCreation::Exists { path }
    } else {
        NoteCreation::Write { path, content: note_template(title) }
    }
}

/// The stem of a file name whose extension is `md`: the name ends in `.md`
/// and something stands before the dot.
pub open spec fn md_stem(name: Seq<char>) -> Option<Seq<char>> {
    if name.len() > 3 && occurs_at(name, ".md"@, name.len() - 3) {
        Some(name.take(name.len() - 3))
    } else {
        None
    }
}

/// The stems of the names in `names` that have one, in order.
pub open spec fn md_stems(names: Seq<Seq<char>>) -> Seq<Seq<char>>
    decreases names.len(),
{
    if names.len() == 0 {
        Seq::empty()
    } else {
        match md_stem(names.last()) {
            Some(stem) => md_stems(names.drop_last()).push(stem),
            None => md_stems(names.drop_last()),
        }
    }
}

/// `a` comes before `b`, or is `b`, in the order of strings: by the first
/// character in which they differ, and a text before its extensions.
pub open spec fn text_le(a: Seq<char>, b: Seq<char>) -> bool
    decreases a.len(),
{
    if a.len() == 0 {
        true
    } else if b.len() == 0 {
        false
    } else if a[0] != b[0] {
        (a[0] as u32) < (b[0] as u32)
    } else {
        text_le(a.drop_first(), b.drop_first())
    }
}

/// No text of `names` stands before one that it follows in the order of strings.
pub open spec fn ascending(names: Seq<Seq<char>>) -> bool {
    forall|i: int, j: int| 0 <= i < j < names.len() ==> text_le(names[i], names[j])
}

/// The sort of slices of std, on strings: it keeps the items and puts them
/// in the ascending order of strings, which is the order of their characters.
#[verifier::external_body]
fn sort_names(names: &mut Vec<String>)
    ensures
        final(names).deep_view().to_multiset() == old(names).deep_view().to_multiset(),
        ascending(final(names).deep_view()),
{
    names.sort();
}

/// The stem of the file name `name`, where its extension is `md`.
pub fn note_stem(name: &str) -> (r: Option<String>)
    ensures
        r.deep_view() == md_stem(name@),
{
    let cs = chars_of(name);
    proof {
        reveal_strlit(".md");
    }
    if cs.len() > 3 && occurs(&cs, &chars_of(".md"), cs.len() - 3) {
        Some(string_of(&slice_of(&cs, 0, cs.len() - 3)))
    } else {
        None
    }
}

/// The list of notes in a directory whose regular files are named
/// `file_names`: the stems of the names with the extension `md`, in
/// ascending order.
pub fn load_notes_list(file_names: &Vec<String>) -> (r: Vec<String>)
    ensures
        r.deep_view().to_multiset() == md_stems(file_names.deep_view()).to_multiset(),
        ascending(r.deep_view()),
{
    let mut out: Vec<String> = Vec::new();
    let ghost all = file_names.deep_view();
    let mut i: usize = 0;
    assert(all.take(0) =~= Seq::<Seq<char>>::empty());
    assert(out.deep_view() =~= Seq::<Seq<char>>::empty());
    while i < file_names.len()
        invariant
            i <= file_names.len(),
            all == file_names.deep_view(),
            out.deep_view() == md_stems(all.take(i as int)),
        decreases file_names.len() - i,
    {
        let ghost before = out.deep_view();
        proof {
            let next = all.take(i + 1);
            assert(next.drop_last() =~= all.take(i as int));
            assert(next.last() == file_names@[i as int]@);
        }
        match note_stem(file_names[i].as_str()) {
            Some(stem) => {
                out.push(stem);
                assert(out.deep_view() =~= before.push(stem@));
            },
            None => {},
        }
        i += 1;
    }
    assert(all.take(file_names.len() as int) =~= all);
    sort_names(&mut out);
    out
}

/// One note file: its slug and what the file holds.
pub struct NoteFile {
    pub slug: String,
    pub content: String,
}

/// The contents of the note files that could be read, as they were when the
/// directory was last looked at. A slug that is not here has no readable file.
pub struct NoteFiles {
    pub entries: Vec<NoteFile>,
}

/// What `files` holds for `slug`: the content of the first entry of that slug.
pub open spec fn content_in(files: Seq<(Seq<char>, Seq<char>)>, slug: Seq<char>) -> Option<
    Seq<char>,
>
    decreases files.len(),
{
    if files.len() == 0 {
        None
    } else if files[0].0 == slug {
        Some(files[0].1)
    } else {
        content_in(files.drop_first(), slug)
    }
}

impl View for NoteFiles {
    type V = Seq<(Seq<char>, Seq<char>)>;

    open spec fn view(&self) -> Seq<(Seq<char>, Seq<char>)> {
        Seq::new(self.entries@.len(), |i: int| (self.entries@[i].slug@, self.entries@[i].content@))
    }
}

impl NoteFiles {
    /// No file at all.
    pub fn new() -> (r: NoteFiles)
        ensures
            r@ == Seq::<(Seq<char>, Seq<char>)>::empty(),
    {
        let r = NoteFiles { entries: Vec::new() };
        assert(r@ =~= Seq::<(Seq<char>, Seq<char>)>::empty());
        r
    }

    /// Adds the file of `slug` with its `content`, behind the entries that
    /// are there.
    pub fn add(&mut self, slug: String, content: String)
        ensures
            final(self)@ == old(self)@.push((slug@, content@)),
    {
        self.entries.push(NoteFile { slug, content });
        assert(self@ =~= old(self)@.push((slug@, content@)));
    }

    /// The content of the file of `slug`, where one could be read.
    pub fn content(&self, slug: &String) -> (r: Option<&String>)
        ensures
            r.deep_view() == content_in(self@, slug@),
    {
        let mut i: usize = 0;
        assert(self@.skip(0) =~= self@);
        while i < self.entries.len()
            invariant
                i <= self.entries.len(),
                content_in(self@, slug@) == content_in(self@.skip(i as int), slug@),
            decreases self.entries.len() - i,
        {
            if self.entries[i].slug == *slug {
                return Some(&self.entries[i].content);
            }
            assert(self@.skip(i as int).drop_first() =~= self@.skip(i + 1));
            i += 1;
        }
        None
    }
}

} // verus!
