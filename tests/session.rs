use hed::buffer::{Direction, EditAction};
use hed::session::{Command, Error, Message, Texteditor};
use std::io::ErrorKind;

#[test]
fn fresh_session_is_untitled_and_empty() {
    let s = Texteditor::new();
    assert_eq!(s.text(), "");
    assert_eq!(s.path(), None);
    assert_eq!(s.error(), None);
    assert!(!s.is_busy());
}

#[test]
fn edit_then_save_through_dialog() {
    let mut s = Texteditor::new();
    assert_eq!(s.update(Message::Edit(EditAction::InsertChar('a'))), Command::Nothing);
    assert_eq!(s.update(Message::Edit(EditAction::InsertChar('b'))), Command::Nothing);
    assert_eq!(s.text(), "ab");
    assert_eq!(s.cursor_position(), (0, 2));
    assert_eq!(s.update(Message::Save), Command::PickFileToSave);
    assert!(s.is_busy());
    let c = s.update(Message::SavePathPicked(Ok(String::from("/tmp/x.txt"))));
    assert_eq!(c, Command::WriteFile(String::from("/tmp/x.txt"), String::from("ab")));
    assert_eq!(s.update(Message::FileSaved(Ok(String::from("/tmp/x.txt")))), Command::Nothing);
    assert_eq!(s.path(), Some(String::from("/tmp/x.txt")));
    assert_eq!(s.error(), None);
    assert!(!s.is_busy());
}

#[test]
fn open_path_loads_text_with_cursor_at_start() {
    let mut s = Texteditor::new();
    let c = s.update(Message::OpenPath(String::from("/tmp/two_lines.txt")));
    assert_eq!(c, Command::ReadFile(String::from("/tmp/two_lines.txt")));
    let c = s.update(Message::FileOpened(Ok((
        String::from("/tmp/two_lines.txt"),
        String::from("line1\nline2"),
    ))));
    assert_eq!(c, Command::Nothing);
    assert_eq!(s.text(), "line1\nline2");
    assert_eq!(s.cursor_position(), (0, 0));
    assert_eq!(s.path(), Some(String::from("/tmp/two_lines.txt")));
}

#[test]
fn open_through_dialog_reads_chosen_file() {
    let mut s = Texteditor::new();
    assert_eq!(s.update(Message::Open), Command::PickFileToOpen);
    let c = s.update(Message::OpenPathPicked(Ok(String::from("/a.txt"))));
    assert_eq!(c, Command::ReadFile(String::from("/a.txt")));
    s.update(Message::FileOpened(Ok((String::from("/a.txt"), String::from("x")))));
    assert_eq!(s.text(), "x");
    assert_eq!(s.path(), Some(String::from("/a.txt")));
}

#[test]
fn failed_open_keeps_document() {
    let mut s = Texteditor::new();
    s.update(Message::Edit(EditAction::InsertChar('q')));
    s.update(Message::OpenPath(String::from("/no/such/file")));
    s.update(Message::FileOpened(Err(Error::Io(ErrorKind::NotFound))));
    assert_eq!(s.text(), "q");
    assert_eq!(s.path(), None);
    assert_eq!(s.error(), Some(Error::Io(ErrorKind::NotFound)));
    assert!(!s.is_busy());
}

#[test]
fn cancelled_open_dialog_keeps_document() {
    let mut s = Texteditor::new();
    s.update(Message::OpenPath(String::from("/f")));
    s.update(Message::FileOpened(Ok((String::from("/f"), String::from("kept")))));
    assert_eq!(s.update(Message::Open), Command::PickFileToOpen);
    assert_eq!(s.update(Message::OpenPathPicked(Err(Error::DialogClosed))), Command::Nothing);
    assert_eq!(s.text(), "kept");
    assert_eq!(s.path(), Some(String::from("/f")));
    assert_eq!(s.error(), Some(Error::DialogClosed));
}

#[test]
fn cancelled_save_dialog_writes_nothing() {
    let mut s = Texteditor::new();
    s.update(Message::Edit(EditAction::InsertChar('z')));
    assert_eq!(s.update(Message::Save), Command::PickFileToSave);
    assert_eq!(s.update(Message::SavePathPicked(Err(Error::DialogClosed))), Command::Nothing);
    assert_eq!(s.path(), None);
    assert_eq!(s.error(), Some(Error::DialogClosed));
    assert_eq!(s.text(), "z");
}

#[test]
fn save_with_known_path_writes_directly() {
    let mut s = Texteditor::new();
    s.update(Message::OpenPath(String::from("/doc")));
    s.update(Message::FileOpened(Ok((String::from("/doc"), String::from("v1")))));
    s.update(Message::Edit(EditAction::MoveCursor(Direction::LineEnd, false)));
    s.update(Message::Edit(EditAction::InsertChar('!')));
    let c = s.update(Message::Save);
    assert_eq!(c, Command::WriteFile(String::from("/doc"), String::from("v1!")));
}

#[test]
fn failed_write_sets_error_and_keeps_path() {
    let mut s = Texteditor::new();
    s.update(Message::OpenPath(String::from("/ro")));
    s.update(Message::FileOpened(Ok((String::from("/ro"), String::new()))));
    s.update(Message::Save);
    s.update(Message::FileSaved(Err(Error::Io(ErrorKind::PermissionDenied))));
    assert_eq!(s.path(), Some(String::from("/ro")));
    assert_eq!(s.error(), Some(Error::Io(ErrorKind::PermissionDenied)));
}

#[test]
fn new_operation_clears_last_error() {
    let mut s = Texteditor::new();
    s.update(Message::Open);
    s.update(Message::OpenPathPicked(Err(Error::DialogClosed)));
    assert_eq!(s.error(), Some(Error::DialogClosed));
    s.update(Message::Edit(EditAction::InsertChar('e')));
    assert_eq!(s.error(), Some(Error::DialogClosed));
    s.update(Message::Save);
    assert_eq!(s.error(), None);
}

#[test]
fn second_operation_is_ignored_while_one_is_pending() {
    let mut s = Texteditor::new();
    assert_eq!(s.update(Message::Save), Command::PickFileToSave);
    assert_eq!(s.update(Message::Open), Command::Nothing);
    assert_eq!(s.update(Message::Save), Command::Nothing);
    assert_eq!(s.update(Message::OpenPath(String::from("/x"))), Command::Nothing);
    assert!(s.is_busy());
}

#[test]
fn outcome_without_pending_operation_is_ignored() {
    let mut s = Texteditor::new();
    s.update(Message::Edit(EditAction::InsertChar('k')));
    let c = s.update(Message::FileOpened(Ok((String::from("/p"), String::from("other")))));
    assert_eq!(c, Command::Nothing);
    assert_eq!(s.text(), "k");
    assert_eq!(s.update(Message::FileSaved(Ok(String::from("/p")))), Command::Nothing);
    assert_eq!(s.path(), None);
}

#[test]
fn new_resets_document() {
    let mut s = Texteditor::new();
    s.update(Message::OpenPath(String::from("/f")));
    s.update(Message::FileOpened(Ok((String::from("/f"), String::from("abc")))));
    s.update(Message::New);
    assert_eq!(s.text(), "");
    assert_eq!(s.path(), None);
    assert_eq!(s.cursor_position(), (0, 0));
}
