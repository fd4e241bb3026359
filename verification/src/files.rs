//! Serving the agent's file requests from the editor's buffers.

use crate::editor::Editor;
use crate::editor::EditorView;
use crate::editor::law_the_first_document_at_a_path_is_found;
use crate::editor::law_the_first_view_of_a_document_is_found;
use crate::editor::open_document;
use crate::editor::view_showing;
use crate::lines::slice_lines;
use crate::lines::window;
use crate::proposal::FilePath;
use crate::proposal::Transaction;
use crate::proposal::TransactionView;
use vstd::prelude::*;
use vstd::string::*;

verus! {

/// Why a file request fails.
pub enum FileError {
    /// There is no such file. This is its path.
    NotFound(String),
    /// The file could not be written.
    Internal,
}

/// A request for a window of a file.
pub struct ReadRequest {
    pub path: FilePath,
    pub line: Option<u32>,
    pub limit: Option<u32>,
}

/// Where a file is read.
#[derive(Clone, Copy, Debug, PartialEq, Eq, Structural)]
pub enum ReadSource {
    /// From the buffer of this document.
    Buffer(u64),
    /// From disk: no buffer holds the file.
    Disk,
}

/// Where the file at `path` is read.
pub open spec fn source_of(editor: EditorView, path: Seq<u8>) -> ReadSource {
    match editor.document_at(path) {
        Some(doc) => ReadSource::Buffer(doc),
        None => ReadSource::Disk,
    }
}

/// Where to read a file: from the open buffer when there is one.
///
/// An agent that reads the file itself sees what is on disk, which is stale the moment the
/// user has unsaved edits, or the moment a proposal is applied that is still under review.
pub fn read_source(editor: &Editor, request: &ReadRequest) -> (result: ReadSource)
    ensures
        result == source_of(editor@, request.path.key@),
{
    match open_document(editor, &request.path.key) {
        Some(doc) => ReadSource::Buffer(doc),
        None => ReadSource::Disk,
    }
}

/// Answer a read, given what the source holds: `None` if it could not be read.
pub fn read_text_file(request: &ReadRequest, contents: Option<String>) -> (result: Result<
    String,
    FileError,
>)
    ensures
        match contents {
            Some(text) => result matches Ok(shown) && shown@ == window(
                text@,
                request.line,
                request.limit,
            ),
            None => result matches Err(FileError::NotFound(path)) && path@
                == request.path.display@,
        },
{
    match contents {
        Some(text) => Ok(slice_lines(text.as_str(), request.line, request.limit)),
        None => Err(FileError::NotFound(request.path.display.clone())),
    }
}

/// A request to give a file new contents.
pub struct WriteRequest {
    pub path: FilePath,
    pub content: String,
}

/// How to write a file.
pub enum WritePlan {
    /// Apply the transaction to this document, through this view, and leave it unsaved.
    Buffer { doc: u64, view: u64, transaction: Transaction },
    /// Write the contents to disk, and create the directory of the file before if need be.
    Disk { content: String, create_parent: bool },
}

/// What a [`WritePlan`] does.
pub enum WritePlanView {
    Buffer { doc: u64, view: u64, transaction: TransactionView },
    Disk { content: Seq<char>, create_parent: bool },
}

impl View for WritePlan {
    type V = WritePlanView;

    open spec fn view(&self) -> WritePlanView {
        match *self {
            WritePlan::Buffer { doc, view, transaction } => WritePlanView::Buffer {
                doc,
                view,
                transaction: transaction@,
            },
            WritePlan::Disk { content, create_parent } => WritePlanView::Disk {
                content: content@,
                create_parent,
            },
        }
    }
}

/// How `content` is written to the file at `path`.
pub open spec fn write_plan(
    editor: EditorView,
    path: Seq<u8>,
    content: Seq<char>,
    has_parent: bool,
) -> WritePlanView {
    match editor.document_at(path) {
        Some(doc) => WritePlanView::Buffer {
            doc,
            view: match editor.view_of(doc) {
                Some(view) => view,
                None => editor.focus,
            },
            transaction: TransactionView::Compare(content),
        },
        None => WritePlanView::Disk { content, create_parent: has_parent },
    }
}

/// Plan a write. `has_parent` tells whether the path names a directory that the file is in.
///
/// An open buffer is edited in place and left unsaved, so the change is visible, and
/// undoable, before it ever reaches disk. Files that are not open are written through,
/// creating them if needed as the protocol requires.
pub fn write_text_file(editor: &Editor, request: &WriteRequest, has_parent: bool) -> (plan:
    WritePlan)
    ensures
        plan@ == write_plan(editor@, request.path.key@, request.content@, has_parent),
{
    match open_document(editor, &request.path.key) {
        Some(doc) => {
            let view: u64 = match view_showing(editor, doc) {
                Some(view) => view,
                None => editor.focus,
            };
            WritePlan::Buffer {
                doc,
                view,
                transaction: Transaction::Compare(request.content.clone()),
            }
        },
        None => WritePlan::Disk {
            content: request.content.clone(),
            create_parent: has_parent,
        },
    }
}

/// Answer a write, given whether the host carried its plan out.
pub fn write_result(done: bool) -> (result: Result<(), FileError>)
    ensures
        done ==> result is Ok,
        !done ==> result matches Err(FileError::Internal),
{
    if done {
        Ok(())
    } else {
        Err(FileError::Internal)
    }
}

/// A file is read from the buffer of the first document that is open at its path, and from disk
/// exactly where none is.
pub proof fn law_a_file_is_read_where_it_is_open(editor: EditorView, path: Seq<u8>, i: int)
    ensures
        0 <= i < editor.documents.len() && editor.documents[i].path == Some(path) && (forall|j: int|
            0 <= j < i ==> (#[trigger] editor.documents[j]).path != Some(path)) ==> source_of(
            editor,
            path,
        ) == ReadSource::Buffer(editor.documents[i].id),
        source_of(editor, path) == ReadSource::Disk <==> forall|j: int|
            0 <= j < editor.documents.len() ==> (#[trigger] editor.documents[j]).path != Some(path),
{
    law_the_first_document_at_a_path_is_found(editor, path, i);
}

/// A file is written where it is read: to the document that is open at its path, through the first
/// view that shows it or else the one with the focus, and to disk where none is open. What is
/// written is the content, all of it.
pub proof fn law_a_file_is_written_where_it_is_read(
    editor: EditorView,
    path: Seq<u8>,
    content: Seq<char>,
    has_parent: bool,
    i: int,
)
    ensures
        ({
            let plan = write_plan(editor, path, content, has_parent);
            match source_of(editor, path) {
                ReadSource::Disk => plan == (WritePlanView::Disk {
                    content,
                    create_parent: has_parent,
                }),
                ReadSource::Buffer(doc) => {
                    &&& plan matches WritePlanView::Buffer { doc: written, view, transaction }
                    &&& written == doc
                    &&& transaction == TransactionView::Compare(content)
                    &&& 0 <= i < editor.views.len() && editor.views[i].doc == doc && (forall|j: int|
                        0 <= j < i ==> (#[trigger] editor.views[j]).doc != doc) ==> view
                        == editor.views[i].id
                    &&& (forall|j: int|
                        0 <= j < editor.views.len() ==> (#[trigger] editor.views[j]).doc != doc)
                        ==> view == editor.focus
                },
            }
        }),
{
    if let ReadSource::Buffer(doc) = source_of(editor, path) {
        law_the_first_view_of_a_document_is_found(editor, doc, i);
    }
}

/// A write plan reads as what it does.
pub proof fn law_a_write_plan_reads_as_it_is(plan: WritePlan)
    ensures
        plan matches WritePlan::Buffer { doc, view, transaction } ==> plan@ == (
        WritePlanView::Buffer { doc, view, transaction: transaction@ }),
        plan matches WritePlan::Disk { content, create_parent } ==> plan@ == (WritePlanView::Disk {
            content: content@,
            create_parent,
        }),
{
}

} // verus!
