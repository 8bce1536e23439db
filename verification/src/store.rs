//! How notes lie on disk: the names of their files, the document that a note is
//! written as, and the steps by which staged content is written, promoted or
//! thrown away.
//!
//! Nothing here touches a disk. The functions say which steps are to be taken;
//! `DiskModel` says what each step does to a directory of notes, so that what a
//! sequence of steps leads to can be stated and proved.

use vstd::prelude::*;
use vstd::string::*;
use crate::model::{Note, NoteView, SyncError};
use crate::search::{first_index_of, lemma_first_index_of};
use crate::text::{
    decimal, decimal_string, ends_with, find_first, has_prefix, has_suffix, starts_with,
    substring,
};

verus! {

/// The name of the file that holds the committed note `id`.
pub open spec fn note_file_name(id: Seq<char>) -> Seq<char> {
    id + ".md"@
}

/// The name of the file that holds the note `id` while it waits for a decision.
/// It does not end in `.md`, so a listing of committed notes never shows it.
pub open spec fn staged_file_name(id: Seq<char>) -> Seq<char> {
    id + ".md.sync"@
}

/// The document that a note is stored as: its title as a heading, an empty
/// line, then its content.
pub open spec fn note_document(title: Seq<char>, content: Seq<char>) -> Seq<char> {
    "# "@ + title + "\n\n"@ + content
}

/// The first line of `doc`, without its line ending.
pub open spec fn first_line(doc: Seq<char>) -> Seq<char> {
    let k = first_index_of(doc, '\n');
    if k < 0 {
        doc
    } else if k > 0 && doc[k - 1] == '\r' {
        doc.subrange(0, k - 1)
    } else {
        doc.subrange(0, k)
    }
}

/// The title that a stored document shows: what follows `# ` on its first line,
/// or `Untitled` where the first line is no such heading.
pub open spec fn title_of(doc: Seq<char>) -> Seq<char> {
    let line = first_line(doc);
    if starts_with(line, "# "@) {
        line.subrange(2, line.len() as int)
    } else {
        "Untitled"@
    }
}

pub fn make_note_file_name(id: &str) -> (r: String)
    ensures
        r@ == note_file_name(id@),
{
    let mut r: String = String::from_str(id);
    r.append(".md");
    r
}

pub fn make_staged_file_name(id: &str) -> (r: String)
    ensures
        r@ == staged_file_name(id@),
{
    let mut r: String = String::from_str(id);
    r.append(".md.sync");
    r
}

pub fn make_note_document(title: &str, content: &str) -> (r: String)
    ensures
        r@ == note_document(title@, content@),
{
    let mut r: String = String::from_str("# ");
    r.append(title);
    r.append("\n\n");
    r.append(content);
    r
}

/// The id of the committed note that a file of the given name holds, if it
/// holds one: the name without `.md` at its end, where something is left.
pub open spec fn committed_note_id(file_name: Seq<char>) -> Option<Seq<char>> {
    if ends_with(file_name, ".md"@) && file_name.len() > 3 {
        Some(file_name.subrange(0, file_name.len() - 3))
    } else {
        None
    }
}

/// Tells whether a file holds a committed note, and which.
pub fn parse_note_file_name(file_name: &str) -> (r: Option<String>)
    ensures
        match r {
            Some(id) => committed_note_id(file_name@) == Some(id@),
            None => committed_note_id(file_name@) is None,
        },
{
    let total: usize = file_name.unicode_len();
    if has_suffix(file_name, ".md") && total > 3 {
        Some(substring(file_name, 0, total - 3))
    } else {
        None
    }
}

/// Reads the title off a stored document.
pub fn parse_title(doc: &str) -> (r: String)
    ensures
        r@ == title_of(doc@),
{
    let total: usize = doc.unicode_len();
    proof {
        lemma_first_index_of(doc@, '\n');
        reveal_strlit("# ");
    }
    let line: String = match find_first(doc, '\n') {
        None => {
            assert(doc@.subrange(0, total as int) == doc@);
            substring(doc, 0, total)
        },
        Some(k) => {
            if k > 0 && doc.get_char(k - 1) == '\r' {
                substring(doc, 0, k - 1)
            } else {
                substring(doc, 0, k)
            }
        },
    };
    if has_prefix(line.as_str(), "# ") {
        let n: usize = line.as_str().unicode_len();
        substring(line.as_str(), 2, n)
    } else {
        String::from_str("Untitled")
    }
}

/// The note that a stored document stands for. Its content is the whole
/// document, heading included.
pub fn note_from_file(
    id: String,
    document: String,
    datetime: String,
    attachments: Vec<String>,
) -> (r: Note)
    ensures
        r@ == (NoteView {
            id: id@,
            title: title_of(document@),
            content: document@,
            datetime: datetime@,
            attachments: crate::model::names_view(attachments@),
        }),
{
    let title: String = parse_title(document.as_str());
    Note { id, title, content: document, datetime, attachments }
}

/// One change to the directory of notes.
#[derive(Debug)]
pub enum DiskStep {
    /// Write `document` to the file `name`, replacing what is there.
    WriteFile { name: String, document: String },
    /// Write `data` as the attachment `name` of the note `note_id`.
    WriteAttachment { note_id: String, name: String, data: Vec<u8> },
    /// Rename the file `from` to `to`, replacing what is there. Nothing happens
    /// where `from` does not exist.
    MoveFile { from: String, to: String },
    /// Copy the content of the file `from` to `to`, then remove `from`. Nothing
    /// is removed where `from` cannot be read.
    CopyThenRemove { from: String, to: String },
    /// Remove the file `name`, if it exists.
    RemoveFile { name: String },
    /// Remove every attachment of the note `note_id`.
    RemoveAttachments { note_id: String },
}

pub enum DiskStepView {
    WriteFile { name: Seq<char>, document: Seq<char> },
    WriteAttachment { note_id: Seq<char>, name: Seq<char>, data: Seq<u8> },
    MoveFile { from: Seq<char>, to: Seq<char> },
    CopyThenRemove { from: Seq<char>, to: Seq<char> },
    RemoveFile { name: Seq<char> },
    RemoveAttachments { note_id: Seq<char> },
}

impl View for DiskStep {
    type V = DiskStepView;

    open spec fn view(&self) -> DiskStepView {
        match *self {
            DiskStep::WriteFile { name, document } => DiskStepView::WriteFile {
                name: name@,
                document: document@,
            },
            DiskStep::WriteAttachment { note_id, name, data } => DiskStepView::WriteAttachment {
                note_id: note_id@,
                name: name@,
                data: data@,
            },
            DiskStep::MoveFile { from, to } => DiskStepView::MoveFile { from: from@, to: to@ },
            DiskStep::CopyThenRemove { from, to } => DiskStepView::CopyThenRemove {
                from: from@,
                to: to@,
            },
            DiskStep::RemoveFile { name } => DiskStepView::RemoveFile { name: name@ },
            DiskStep::RemoveAttachments { note_id } => DiskStepView::RemoveAttachments {
                note_id: note_id@,
            },
        }
    }
}

/// Views of a list of steps.
pub open spec fn steps_view(steps: Seq<DiskStep>) -> Seq<DiskStepView> {
    steps.map_values(|s: DiskStep| s@)
}

/// A directory of notes: the documents by file name, and the attachments by
/// note id and attachment name.
pub struct DiskModel {
    pub files: Map<Seq<char>, Seq<char>>,
    pub attachments: Map<(Seq<char>, Seq<char>), Seq<u8>>,
}

impl DiskModel {
    /// The directory after one step that succeeded.
    pub open spec fn step(self, s: DiskStepView) -> DiskModel {
        match s {
            DiskStepView::WriteFile { name, document } => DiskModel {
                files: self.files.insert(name, document),
                ..self
            },
            DiskStepView::WriteAttachment { note_id, name, data } => DiskModel {
                attachments: self.attachments.insert((note_id, name), data),
                ..self
            },
            DiskStepView::MoveFile { from, to } => if self.files.contains_key(from) {
                DiskModel { files: self.files.remove(from).insert(to, self.files[from]), ..self }
            } else {
                self
            },
            DiskStepView::CopyThenRemove { from, to } => if self.files.contains_key(from) {
                DiskModel { files: self.files.insert(to, self.files[from]).remove(from), ..self }
            } else {
                self
            },
            DiskStepView::RemoveFile { name } => DiskModel {
                files: self.files.remove(name),
                ..self
            },
            DiskStepView::RemoveAttachments { note_id } => DiskModel {
                attachments: Map::new(
                    |k: (Seq<char>, Seq<char>)| self.attachments.contains_key(k) && k.0 != note_id,
                    |k: (Seq<char>, Seq<char>)| self.attachments[k],
                ),
                ..self
            },
        }
    }

    /// The directory after a sequence of steps, each of which succeeded.
    pub open spec fn run(self, steps: Seq<DiskStepView>) -> DiskModel
        decreases steps.len(),
    {
        if steps.len() == 0 {
            self
        } else {
            self.run(steps.drop_last()).step(steps.last())
        }
    }

    /// The note `id` is among the committed notes: a file holds it. No note
    /// has the empty id.
    pub open spec fn is_committed(self, id: Seq<char>) -> bool {
        id.len() > 0 && self.files.contains_key(note_file_name(id))
    }

    /// The note `id` waits for a decision.
    pub open spec fn is_staged(self, id: Seq<char>) -> bool {
        self.files.contains_key(staged_file_name(id))
    }

    /// The note `id` has an attachment `name`.
    pub open spec fn has_attachment(self, id: Seq<char>, name: Seq<char>) -> bool {
        self.attachments.contains_key((id, name))
    }

    /// The note `id` has no attachment at all.
    pub open spec fn has_no_attachment(self, id: Seq<char>) -> bool {
        forall|name: Seq<char>| !self.attachments.contains_key((id, name))
    }
}

/// A staged file is never taken for a committed note, whatever the two ids are.
pub proof fn lemma_staged_name_is_not_committed(staged_id: Seq<char>, committed_id: Seq<char>)
    ensures
        staged_file_name(staged_id) != note_file_name(committed_id),
{
    reveal_strlit(".md");
    reveal_strlit(".md.sync");
    let a = staged_file_name(staged_id);
    let b = note_file_name(committed_id);
    assert(a.last() == 'c');
    assert(b.last() == 'd');
}

/// Reading the title off the document of a note gives the note's title back,
/// where the title is a single line that does not end in a carriage return.
pub proof fn lemma_title_round_trip(title: Seq<char>, content: Seq<char>)
    requires
        forall|i: int| 0 <= i < title.len() ==> title[i] != '\n',
        title.len() > 0 ==> title.last() != '\r',
    ensures
        title_of(note_document(title, content)) == title,
{
    reveal_strlit("# ");
    reveal_strlit("\n\n");
    let doc = note_document(title, content);
    let k = 2 + title.len() as int;
    assert(doc[k] == '\n');
    assert forall|j: int| 0 <= j < k implies doc[j] != '\n' by {
        if j >= 2 {
            assert(doc[j] == title[j - 2]);
        }
    }
    lemma_first_index_of(doc, '\n');
    let f = first_index_of(doc, '\n');
    assert(f == k) by {
        if f < 0 {
            assert(doc[k] != '\n');
        } else if f > k {
            assert(doc[k] != '\n');
        } else if f < k {
            assert(doc[f] != '\n');
        }
    }
    assert(doc[k - 1] != '\r') by {
        if title.len() > 0 {
            assert(doc[k - 1] == title[title.len() - 1]);
        }
    }
    let line = first_line(doc);
    assert(line =~= "# "@ + title);
    assert(line.subrange(0, 2) =~= "# "@);
    assert(line.subrange(2, line.len() as int) =~= title);
}

/// The name under which an image is attached at the given time, in seconds
/// since the start of 1970.
pub open spec fn image_file_name(timestamp: nat) -> Seq<char> {
    decimal(timestamp) + "_image.png"@
}

/// Where the bytes of a new attachment come from.
#[derive(Debug)]
pub enum ImageSource {
    /// They are given.
    Bytes(Vec<u8>),
    /// They are copied from the file at this path.
    File(String),
}

pub enum ImageSourceView {
    Bytes(Seq<u8>),
    File(Seq<char>),
}

impl View for ImageSource {
    type V = ImageSourceView;

    open spec fn view(&self) -> ImageSourceView {
        match *self {
            ImageSource::Bytes(data) => ImageSourceView::Bytes(data@),
            ImageSource::File(path) => ImageSourceView::File(path@),
        }
    }
}

/// An attachment that is about to be saved.
#[derive(Debug)]
pub struct NewAttachment {
    pub file_name: String,
    pub source: ImageSource,
}

/// Decides how an image is attached: under a name made of the time, from the
/// bytes where they are given, else from the file. With neither there is
/// nothing to attach.
pub fn plan_attachment(
    timestamp: u64,
    source_path: Option<String>,
    image_data: Option<Vec<u8>>,
) -> (r: Result<NewAttachment, SyncError>)
    ensures
        match r {
            Ok(a) => a.file_name@ == image_file_name(timestamp as nat) && match image_data {
                Some(data) => a.source@ == ImageSourceView::Bytes(data@),
                None => source_path matches Some(path) && a.source@ == ImageSourceView::File(path@),
            },
            Err(e) => image_data is None && source_path is None && e == SyncError::NoImageSource,
        },
{
    let mut file_name: String = decimal_string(timestamp);
    file_name.append("_image.png");
    match image_data {
        Some(data) => Ok(NewAttachment { file_name, source: ImageSource::Bytes(data) }),
        None => match source_path {
            Some(path) => Ok(NewAttachment { file_name, source: ImageSource::File(path) }),
            None => Err(SyncError::NoImageSource),
        },
    }
}

/// What is tried in place of a step that failed. A file that cannot be renamed,
/// as happens between two file systems, is copied and its source removed.
/// For any other step there is nothing to try: the failure is logged and the
/// next step is taken.
pub open spec fn recovery(step: DiskStepView) -> Option<DiskStepView> {
    match step {
        DiskStepView::MoveFile { from, to } => Some(DiskStepView::CopyThenRemove { from, to }),
        _ => None,
    }
}

/// Says what to try in place of a step that failed.
pub fn recovery_for(step: &DiskStep) -> (r: Option<DiskStep>)
    ensures
        match r {
            Some(s) => recovery(step@) == Some(s@),
            None => recovery(step@) is None,
        },
{
    match step {
        DiskStep::MoveFile { from, to } => Some(
            DiskStep::CopyThenRemove { from: from.clone(), to: to.clone() },
        ),
        _ => None,
    }
}

/// What is tried in place of a failed step leads to what the step was meant to
/// lead to, where the step moves a file to another name.
pub proof fn lemma_recovery_reaches_the_same(disk: DiskModel, step: DiskStepView)
    requires
        step matches DiskStepView::MoveFile { from, to } && from != to,
    ensures
        recovery(step) is Some,
        disk.step(recovery(step)->0) == disk.step(step),
{
    match step {
        DiskStepView::MoveFile { from, to } => {
            if disk.files.contains_key(from) {
                assert(disk.files.insert(to, disk.files[from]).remove(from) =~= disk.files.remove(
                    from,
                ).insert(to, disk.files[from]));
            }
        },
        _ => {},
    }
}

/// A listing of the directory shows exactly the committed notes: a note is
/// committed where some file is taken to hold it.
pub proof fn lemma_listing_shows_committed(disk: DiskModel, id: Seq<char>)
    ensures
        disk.is_committed(id) <==> exists|name: Seq<char>|
            disk.files.contains_key(name) && #[trigger] committed_note_id(name) == Some(id),
{
    reveal_strlit(".md");
    if disk.is_committed(id) {
        lemma_committed_note_id(id);
        assert(committed_note_id(note_file_name(id)) == Some(id));
    }
    if exists|name: Seq<char>|
        disk.files.contains_key(name) && #[trigger] committed_note_id(name) == Some(id) {
        let name = choose|name: Seq<char>|
            disk.files.contains_key(name) && #[trigger] committed_note_id(name) == Some(id);
        assert(name =~= note_file_name(id));
    }
}

/// A committed note is found under its id, and a staged note is never taken
/// for a committed one.
pub proof fn lemma_committed_note_id(id: Seq<char>)
    ensures
        id.len() > 0 ==> committed_note_id(note_file_name(id)) == Some(id),
        committed_note_id(staged_file_name(id)) is None,
{
    reveal_strlit(".md");
    reveal_strlit(".md.sync");
    let name = note_file_name(id);
    assert(name.subrange(name.len() - 3, name.len() as int) =~= ".md"@);
    assert(name.subrange(0, name.len() - 3) =~= id);
    let staged = staged_file_name(id);
    if ends_with(staged, ".md"@) {
        assert(staged.subrange(staged.len() - 3, staged.len() as int).last() == staged.last());
        assert(staged.last() == 'c');
        assert(".md"@.last() == 'd');
    }
}

} // verus!
