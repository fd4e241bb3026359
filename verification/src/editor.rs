//! What the panel reads of the editor: which documents and views there are.

use crate::session::AppliedEdit;
use vstd::prelude::*;

verus! {

/// A document that the editor holds.
pub struct Document {
    pub id: u64,
    /// The bytes of its normalized path. A scratch buffer has none.
    pub path: Option<Vec<u8>>,
}

/// What a [`Document`] is.
pub struct DocumentView {
    pub id: u64,
    pub path: Option<Seq<u8>>,
}

impl View for Document {
    type V = DocumentView;

    open spec fn view(&self) -> DocumentView {
        DocumentView {
            id: self.id,
            path: match self.path {
                Some(path) => Some(path@),
                None => None,
            },
        }
    }
}

/// A view and the document it shows.
#[derive(Clone, Copy, Debug, PartialEq, Eq, Structural)]
pub struct OpenView {
    pub id: u64,
    pub doc: u64,
}

/// The documents and views of the editor at one moment, each in the editor's own order.
pub struct Editor {
    pub documents: Vec<Document>,
    pub views: Vec<OpenView>,
    /// The view that has the focus.
    pub focus: u64,
}

/// What an [`Editor`] holds.
pub struct EditorView {
    pub documents: Seq<DocumentView>,
    pub views: Seq<OpenView>,
    pub focus: u64,
}

impl View for Editor {
    type V = EditorView;

    open spec fn view(&self) -> EditorView {
        EditorView {
            documents: self.documents@.map_values(|document: Document| document@),
            views: self.views@,
            focus: self.focus,
        }
    }
}

impl EditorView {
    pub open spec fn has_view(self, id: u64) -> bool {
        exists|i: int| 0 <= i < self.views.len() && (#[trigger] self.views[i]).id == id
    }

    pub open spec fn has_document(self, id: u64) -> bool {
        exists|i: int| 0 <= i < self.documents.len() && (#[trigger] self.documents[i]).id == id
    }

    /// Whether the view and the document of an edit are both still there.
    pub open spec fn is_live(self, edit: AppliedEdit) -> bool {
        self.has_view(edit.view) && self.has_document(edit.doc)
    }

    /// Whether document `i` is the first one that is open at `path`.
    pub open spec fn opens_first(self, path: Seq<u8>, i: int) -> bool {
        &&& 0 <= i < self.documents.len()
        &&& self.documents[i].path == Some(path)
        &&& forall|j: int| 0 <= j < i ==> (#[trigger] self.documents[j]).path != Some(path)
    }

    /// Whether no document is open at `path`.
    pub open spec fn opens_nowhere(self, path: Seq<u8>) -> bool {
        forall|j: int|
            0 <= j < self.documents.len() ==> (#[trigger] self.documents[j]).path != Some(path)
    }

    /// The document that is open at `path`, if one is.
    pub open spec fn document_at(self, path: Seq<u8>) -> Option<u64> {
        if self.opens_nowhere(path) {
            None
        } else {
            Some(self.documents[choose|i: int| self.opens_first(path, i)].id)
        }
    }

    /// Whether view `i` is the first one that shows `doc`.
    pub open spec fn shows_first(self, doc: u64, i: int) -> bool {
        &&& 0 <= i < self.views.len()
        &&& self.views[i].doc == doc
        &&& forall|j: int| 0 <= j < i ==> (#[trigger] self.views[j]).doc != doc
    }

    /// Whether no view shows `doc`.
    pub open spec fn shows_nowhere(self, doc: u64) -> bool {
        forall|j: int| 0 <= j < self.views.len() ==> (#[trigger] self.views[j]).doc != doc
    }

    /// The view that shows `doc`, if one does.
    pub open spec fn view_of(self, doc: u64) -> Option<u64> {
        if self.shows_nowhere(doc) {
            None
        } else {
            Some(self.views[choose|i: int| self.shows_first(doc, i)].id)
        }
    }
}

fn same_bytes(a: &Vec<u8>, b: &Vec<u8>) -> (result: bool)
    ensures
        result == (a@ == b@),
{
    if a.len() != b.len() {
        return false;
    }
    let mut i: usize = 0;
    while i < a.len()
        invariant
            i <= a@.len() == b@.len(),
            forall|j: int| 0 <= j < i ==> a@[j] == b@[j],
        decreases a@.len() - i,
    {
        if a[i] != b[i] {
            return false;
        }
        i += 1;
    }
    assert(a@ == b@);
    true
}

impl Editor {
    /// Whether the view and the document of an edit are both still there.
    pub fn is_live(&self, edit: &AppliedEdit) -> (result: bool)
        ensures
            result == self@.is_live(*edit),
    {
        self.contains_view(edit.view) && self.contains_document(edit.doc)
    }

    fn contains_view(&self, id: u64) -> (result: bool)
        ensures
            result == self@.has_view(id),
    {
        let mut i: usize = 0;
        while i < self.views.len()
            invariant
                i <= self.views@.len(),
                forall|j: int| 0 <= j < i ==> (#[trigger] self.views@[j]).id != id,
            decreases self.views@.len() - i,
        {
            if self.views[i].id == id {
                assert(self@.views[i as int].id == id);
                return true;
            }
            i += 1;
        }
        false
    }

    fn contains_document(&self, id: u64) -> (result: bool)
        ensures
            result == self@.has_document(id),
    {
        let mut i: usize = 0;
        while i < self.documents.len()
            invariant
                i <= self.documents@.len(),
                forall|j: int| 0 <= j < i ==> (#[trigger] self.documents@[j]).id != id,
            decreases self.documents@.len() - i,
        {
            if self.documents[i].id == id {
                assert(self@.documents[i as int].id == id);
                return true;
            }
            i += 1;
        }
        assert forall|j: int| 0 <= j < self@.documents.len() implies (
        #[trigger] self@.documents[j]).id != id by {
            assert(self@.documents[j] == self.documents@[j]@);
        }
        false
    }
}

/// The open document for `path`, if the editor has one.
pub fn open_document(editor: &Editor, path: &Vec<u8>) -> (result: Option<u64>)
    ensures
        result == editor@.document_at(path@),
{
    let mut i: usize = 0;
    while i < editor.documents.len()
        invariant
            i <= editor.documents@.len(),
            forall|j: int| 0 <= j < i ==> (#[trigger] editor@.documents[j]).path != Some(path@),
        decreases editor.documents@.len() - i,
    {
        assert(editor@.documents[i as int] == editor.documents@[i as int]@);
        let here = match &editor.documents[i].path {
            Some(open) => same_bytes(open, path),
            None => false,
        };
        if here {
            proof {
                assert(editor@.opens_first(path@, i as int));
                let first = choose|k: int| editor@.opens_first(path@, k);
                assert(first == i);
            }
            return Some(editor.documents[i].id);
        }
        i += 1;
    }
    None
}

/// A view that shows `doc`, if one does.
pub fn view_showing(editor: &Editor, doc: u64) -> (result: Option<u64>)
    ensures
        result == editor@.view_of(doc),
{
    let mut i: usize = 0;
    while i < editor.views.len()
        invariant
            i <= editor.views@.len(),
            forall|j: int| 0 <= j < i ==> (#[trigger] editor@.views[j]).doc != doc,
        decreases editor.views@.len() - i,
    {
        if editor.views[i].doc == doc {
            proof {
                assert(editor@.shows_first(doc, i as int));
                let first = choose|k: int| editor@.shows_first(doc, k);
                assert(first == i);
            }
            return Some(editor.views[i].id);
        }
        i += 1;
    }
    None
}

/// The document at a path is the first one that is open there; there is none exactly where no
/// document is.
pub proof fn law_the_first_document_at_a_path_is_found(editor: EditorView, path: Seq<u8>, i: int)
    ensures
        0 <= i < editor.documents.len() && editor.documents[i].path == Some(path) && (forall|j: int|
            0 <= j < i ==> (#[trigger] editor.documents[j]).path != Some(path))
            ==> editor.document_at(path) == Some(editor.documents[i].id),
        editor.document_at(path) is None <==> forall|j: int|
            0 <= j < editor.documents.len() ==> (#[trigger] editor.documents[j]).path != Some(path),
{
    if editor.opens_first(path, i) {
        let first = choose|k: int| editor.opens_first(path, k);
        assert(first == i);
    }
}

/// The view of a document is the first one that shows it; there is none exactly where no view
/// does.
pub proof fn law_the_first_view_of_a_document_is_found(editor: EditorView, doc: u64, i: int)
    ensures
        0 <= i < editor.views.len() && editor.views[i].doc == doc && (forall|j: int|
            0 <= j < i ==> (#[trigger] editor.views[j]).doc != doc) ==> editor.view_of(doc) == Some(
            editor.views[i].id,
        ),
        editor.view_of(doc) is None <==> forall|j: int|
            0 <= j < editor.views.len() ==> (#[trigger] editor.views[j]).doc != doc,
{
    if editor.shows_first(doc, i) {
        let first = choose|k: int| editor.shows_first(doc, k);
        assert(first == i);
    }
}

/// An edit is live exactly while its view and its document are both there, whatever else is.
pub proof fn law_an_edit_lives_with_its_view_and_document(editor: EditorView, edit: AppliedEdit)
    ensures
        editor.is_live(edit) <==> {
            &&& exists|i: int|
                0 <= i < editor.views.len() && (#[trigger] editor.views[i]).id == edit.view
            &&& exists|i: int|
                0 <= i < editor.documents.len() && (#[trigger] editor.documents[i]).id == edit.doc
        },
{
}

/// A document and an editor read as what they are.
pub proof fn law_an_editor_reads_as_it_is(editor: Editor, document: Document)
    ensures
        document@.id == document.id,
        document.path is None <==> document@.path is None,
        document.path matches Some(path) ==> document@.path == Some(path@),
        editor@.documents.len() == editor.documents@.len(),
        forall|i: int|
            0 <= i < editor.documents@.len() ==> #[trigger] editor@.documents[i]
                == editor.documents@[i]@,
        editor@.views == editor.views@,
        editor@.focus == editor.focus,
{
}

} // verus!
