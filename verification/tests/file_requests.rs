use assist::editor::{open_document, view_showing, Document, Editor, OpenView};
use assist::files::{
    read_source, read_text_file, write_result, write_text_file, FileError, ReadRequest,
    ReadSource, WritePlan, WriteRequest,
};
use assist::proposal::FilePath;

fn path(path: &str) -> FilePath {
    FilePath { key: path.as_bytes().to_vec(), display: path.to_string() }
}

fn editor() -> Editor {
    Editor {
        documents: vec![
            Document { id: 1, path: None },
            Document { id: 2, path: Some(b"/a".to_vec()) },
            Document { id: 3, path: Some(b"/b".to_vec()) },
            Document { id: 4, path: Some(b"/b".to_vec()) },
        ],
        views: vec![
            OpenView { id: 10, doc: 1 },
            OpenView { id: 11, doc: 3 },
            OpenView { id: 12, doc: 3 },
        ],
        focus: 10,
    }
}

fn read(at: &str, line: Option<u32>, limit: Option<u32>) -> ReadRequest {
    ReadRequest { path: path(at), line, limit }
}

#[test]
fn documents_and_views_are_found_in_order() {
    let editor = editor();
    assert_eq!(open_document(&editor, &b"/a".to_vec()), Some(2));
    assert_eq!(open_document(&editor, &b"/b".to_vec()), Some(3));
    assert_eq!(open_document(&editor, &b"/c".to_vec()), None);
    assert_eq!(open_document(&editor, &b"/".to_vec()), None);
    assert_eq!(view_showing(&editor, 3), Some(11));
    assert_eq!(view_showing(&editor, 2), None);
}

#[test]
fn an_open_buffer_is_read_rather_than_the_disk() {
    assert_eq!(read_source(&editor(), &read("/a", None, None)), ReadSource::Buffer(2));
    assert_eq!(read_source(&editor(), &read("/c", None, None)), ReadSource::Disk);
}

#[test]
fn a_read_shows_its_window_or_reports_the_path() {
    let text = "one\ntwo\nthree\n".to_string();
    let shown = read_text_file(&read("/a", Some(2), Some(1)), Some(text));
    assert!(matches!(shown, Ok(shown) if shown == "two"));
    let missing = read_text_file(&read("/c", None, None), None);
    assert!(matches!(missing, Err(FileError::NotFound(path)) if path == "/c"));
}

#[test]
fn a_write_goes_to_the_buffer_or_through_to_disk() {
    let request = |at: &str| WriteRequest { path: path(at), content: "new".to_string() };
    match write_text_file(&editor(), &request("/b"), true) {
        WritePlan::Buffer { doc, view, transaction } => {
            assert_eq!((doc, view), (3, 11));
            assert_eq!(transaction.apply("whatever there was"), "new");
        }
        WritePlan::Disk { .. } => panic!("the file is open"),
    }
    match write_text_file(&editor(), &request("/a"), true) {
        WritePlan::Buffer { doc, view, .. } => assert_eq!((doc, view), (2, 10)),
        WritePlan::Disk { .. } => panic!("the file is open"),
    }
    for has_parent in [true, false] {
        match write_text_file(&editor(), &request("/c"), has_parent) {
            WritePlan::Disk { content, create_parent } => {
                assert_eq!((content.as_str(), create_parent), ("new", has_parent));
            }
            WritePlan::Buffer { .. } => panic!("the file is not open"),
        }
    }
}

#[test]
fn a_write_that_was_not_carried_out_is_an_internal_error() {
    assert!(write_result(true).is_ok());
    assert!(matches!(write_result(false), Err(FileError::Internal)));
}

/// A read gives back what a write wrote.
#[test]
fn a_read_gives_back_what_a_write_wrote() {
    let request = WriteRequest { path: path("/a"), content: "x\ny\n".to_string() };
    let text = match write_text_file(&editor(), &request, true) {
        WritePlan::Buffer { transaction, .. } => transaction.apply("before"),
        WritePlan::Disk { content, .. } => content,
    };
    let shown = read_text_file(&read("/a", None, None), Some(text));
    assert!(matches!(shown, Ok(shown) if shown == "x\ny\n"));
}
