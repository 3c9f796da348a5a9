use vstd::prelude::*;

use crate::buffer::{apply, from_text, join_lines, model_wf, BufferModel, EditAction, TextBuffer};

verus! {

/// `std::io::ErrorKind` is carried inside errors as it is; nothing here looks into it.
#[verifier::external_type_specification]
#[verifier::external_body]
pub struct ExErrorKind(std::io::ErrorKind);

/// Why an open or save did not go through.
#[derive(Clone, Copy, Debug, PartialEq, Eq)]
pub enum Error {
    /// The file system refused; the kind says how.
    Io(std::io::ErrorKind),
    /// The user closed the file dialog without choosing.
    DialogClosed,
}

/// The file operation in flight, if any; only one at a time.
#[derive(Clone, Copy, Debug, PartialEq, Eq, Structural)]
pub enum Pending {
    Opening,
    Saving,
}

/// What reaches the session: user intents, and the outcomes of the work it asked for.
#[derive(Debug)]
pub enum Message {
    Edit(EditAction),
    New,
    /// Open a file chosen in a dialog.
    Open,
    /// Open the file at this path, without a dialog.
    OpenPath(String),
    Save,
    OpenPathPicked(Result<String, Error>),
    /// Path and content of the file that was read.
    FileOpened(Result<(String, String), Error>),
    SavePathPicked(Result<String, Error>),
    /// Path of the file that was written.
    FileSaved(Result<String, Error>),
}

/// Work the session asks its host to carry out; its outcome comes back as a `Message`.
#[derive(Clone, Debug, PartialEq, Eq)]
pub enum Command {
    Nothing,
    /// Show a dialog to choose a file to open; answer with `OpenPathPicked`.
    PickFileToOpen,
    /// Read the file at this path; answer with `FileOpened`.
    ReadFile(String),
    /// Show a dialog to choose where to save; answer with `SavePathPicked`.
    PickFileToSave,
    /// Write the text (second) to the path (first); answer with `FileSaved`.
    WriteFile(String, String),
}

pub enum CommandModel {
    Nothing,
    PickFileToOpen,
    ReadFile(Seq<char>),
    PickFileToSave,
    WriteFile(Seq<char>, Seq<char>),
}

impl View for Command {
    type V = CommandModel;

    open spec fn view(&self) -> CommandModel {
        match self {
            Command::Nothing => CommandModel::Nothing,
            Command::PickFileToOpen => CommandModel::PickFileToOpen,
            Command::ReadFile(p) => CommandModel::ReadFile(p@),
            Command::PickFileToSave => CommandModel::PickFileToSave,
            Command::WriteFile(p, t) => CommandModel::WriteFile(p@, t@),
        }
    }
}

/// Mathematical picture of a session.
pub struct SessionModel {
    pub buffer: BufferModel,
    pub path: Option<Seq<char>>,
    pub error: Option<Error>,
    pub pending: Option<Pending>,
}

pub open spec fn session_wf(s: SessionModel) -> bool {
    model_wf(s.buffer)
}

/// A fresh session: empty buffer, no file, no error, nothing in flight.
pub open spec fn fresh() -> SessionModel {
    SessionModel {
        buffer: from_text(Seq::<char>::empty()),
        path: None,
        error: None,
        pending: None,
    }
}

/// The session after a failed operation: the error is kept, the document is untouched.
pub open spec fn failed(s: SessionModel, e: Error) -> SessionModel {
    SessionModel { buffer: s.buffer, path: s.path, error: Some(e), pending: None }
}

/// The session with an operation started: the last error is cleared.
pub open spec fn started(s: SessionModel, op: Pending) -> SessionModel {
    SessionModel { buffer: s.buffer, path: s.path, error: None, pending: Some(op) }
}

pub open spec fn current_text(s: SessionModel) -> Seq<char> {
    join_lines(s.buffer.lines)
}

/// How the session answers one message: its next state and the work it asks for.
/// A new open or save is ignored while another is in flight, and an outcome
/// that belongs to no operation in flight is ignored too.
pub open spec fn step(s: SessionModel, m: Message) -> (SessionModel, CommandModel) {
    match m {
        Message::Edit(a) => (
            SessionModel { buffer: apply(s.buffer, a), path: s.path, error: s.error, pending: s.pending },
            CommandModel::Nothing,
        ),
        Message::New => (
            SessionModel { buffer: from_text(Seq::<char>::empty()), path: None, error: None, pending: s.pending },
            CommandModel::Nothing,
        ),
        Message::Open => if s.pending is Some {
            (s, CommandModel::Nothing)
        } else {
            (started(s, Pending::Opening), CommandModel::PickFileToOpen)
        },
        Message::OpenPath(p) => if s.pending is Some {
            (s, CommandModel::Nothing)
        } else {
            (started(s, Pending::Opening), CommandModel::ReadFile(p@))
        },
        Message::OpenPathPicked(r) => if s.pending != Some(Pending::Opening) {
            (s, CommandModel::Nothing)
        } else {
            match r {
                Ok(p) => (s, CommandModel::ReadFile(p@)),
                Err(e) => (failed(s, e), CommandModel::Nothing),
            }
        },
        Message::FileOpened(r) => if s.pending != Some(Pending::Opening) {
            (s, CommandModel::Nothing)
        } else {
            match r {
                Ok((p, t)) => (
                    SessionModel { buffer: from_text(t@), path: Some(p@), error: None, pending: None },
                    CommandModel::Nothing,
                ),
                Err(e) => (failed(s, e), CommandModel::Nothing),
            }
        },
        Message::Save => if s.pending is Some {
            (s, CommandModel::Nothing)
        } else {
            match s.path {
                Some(p) => (started(s, Pending::Saving), CommandModel::WriteFile(p, current_text(s))),
                None => (started(s, Pending::Saving), CommandModel::PickFileToSave),
            }
        },
        Message::SavePathPicked(r) => if s.pending != Some(Pending::Saving) {
            (s, CommandModel::Nothing)
        } else {
            match r {
                Ok(p) => (s, CommandModel::WriteFile(p@, current_text(s))),
                Err(e) => (failed(s, e), CommandModel::Nothing),
            }
        },
        Message::FileSaved(r) => if s.pending != Some(Pending::Saving) {
            (s, CommandModel::Nothing)
        } else {
            match r {
                Ok(p) => (
                    SessionModel { buffer: s.buffer, path: Some(p@), error: None, pending: None },
                    CommandModel::Nothing,
                ),
                Err(e) => (failed(s, e), CommandModel::Nothing),
            }
        },
    }
}

/// One editing session: a buffer, the file that backs it (if any), the last
/// error, and the file operation in flight.
pub struct Texteditor {
    buffer: TextBuffer,
    path: Option<String>,
    error: Option<Error>,
    pending: Option<Pending>,
}

pub open spec fn opt_string_view(o: Option<String>) -> Option<Seq<char>> {
    match o {
        Some(s) => Some(s@),
        None => None,
    }
}

impl View for Texteditor {
    type V = SessionModel;

    closed spec fn view(&self) -> SessionModel {
        SessionModel {
            buffer: self.buffer@,
            path: opt_string_view(self.path),
            error: self.error,
            pending: self.pending,
        }
    }
}

impl Texteditor {
    pub closed spec fn wf(&self) -> bool {
        self.buffer.wf()
    }

    /// A fresh session.
    pub fn new() -> (r: Texteditor)
        ensures
            r.wf(),
            r@ == fresh(),
    {
        Texteditor { buffer: TextBuffer::new(), path: None, error: None, pending: None }
    }

    /// Takes one message; returns the work to carry out next.
    pub fn update(&mut self, message: Message) -> (c: Command)
        requires
            old(self).wf(),
        ensures
            final(self).wf(),
            final(self)@ == step(old(self)@, message).0,
            c@ == step(old(self)@, message).1,
    {
        match message {
            Message::Edit(action) => {
                self.buffer.apply(action);
                Command::Nothing
            },
            Message::New => {
                self.buffer = TextBuffer::new();
                self.path = None;
                self.error = None;
                Command::Nothing
            },
            Message::Open => {
                if self.pending.is_some() {
                    Command::Nothing
                } else {
                    self.error = None;
                    self.pending = Some(Pending::Opening);
                    Command::PickFileToOpen
                }
            },
            Message::OpenPath(p) => {
                if self.pending.is_some() {
                    Command::Nothing
                } else {
                    self.error = None;
                    self.pending = Some(Pending::Opening);
                    Command::ReadFile(p)
                }
            },
            Message::OpenPathPicked(r) => {
                if self.pending != Some(Pending::Opening) {
                    Command::Nothing
                } else {
                    match r {
                        Ok(p) => Command::ReadFile(p),
                        Err(e) => {
                            self.fail(e);
                            Command::Nothing
                        },
                    }
                }
            },
            Message::FileOpened(r) => {
                if self.pending != Some(Pending::Opening) {
                    Command::Nothing
                } else {
                    match r {
                        Ok((p, t)) => {
                            self.buffer.set_text(t.as_str());
                            self.path = Some(p);
                            self.error = None;
                            self.pending = None;
                            Command::Nothing
                        },
                        Err(e) => {
                            self.fail(e);
                            Command::Nothing
                        },
                    }
                }
            },
            Message::Save => {
                if self.pending.is_some() {
                    Command::Nothing
                } else {
                    self.error = None;
                    self.pending = Some(Pending::Saving);
                    match &self.path {
                        Some(p) => Command::WriteFile(p.clone(), self.buffer.text()),
                        None => Command::PickFileToSave,
                    }
                }
            },
            Message::SavePathPicked(r) => {
                if self.pending != Some(Pending::Saving) {
                    Command::Nothing
                } else {
                    match r {
                        Ok(p) => Command::WriteFile(p, self.buffer.text()),
                        Err(e) => {
                            self.fail(e);
                            Command::Nothing
                        },
                    }
                }
            },
            Message::FileSaved(r) => {
                if self.pending != Some(Pending::Saving) {
                    Command::Nothing
                } else {
                    match r {
                        Ok(p) => {
                            self.path = Some(p);
                            self.error = None;
                            self.pending = None;
                            Command::Nothing
                        },
                        Err(e) => {
                            self.fail(e);
                            Command::Nothing
                        },
                    }
                }
            },
        }
    }

    /// The whole text of the document.
    pub fn text(&self) -> (r: String)
        requires
            self.wf(),
        ensures
            r@ == current_text(self@),
    {
        self.buffer.text()
    }

    /// The cursor as (line, column), both 0-based.
    pub fn cursor_position(&self) -> (r: (usize, usize))
        ensures
            r.0 as int == self@.buffer.cursor.0,
            r.1 as int == self@.buffer.cursor.1,
    {
        self.buffer.cursor_position()
    }

    /// The file that backs the document; `None` while it was never opened or saved.
    pub fn path(&self) -> (r: Option<String>)
        ensures
            opt_string_view(r) == self@.path,
    {
        match &self.path {
            Some(p) => Some(p.clone()),
            None => None,
        }
    }

    /// The error of the most recent failed operation, unless a later one started or succeeded.
    pub fn error(&self) -> (r: Option<Error>)
        ensures
            r == self@.error,
    {
        self.error
    }

    /// Whether an open or save is in flight.
    pub fn is_busy(&self) -> (r: bool)
        ensures
            r == (self@.pending is Some),
    {
        self.pending.is_some()
    }

    fn fail(&mut self, e: Error)
        ensures
            final(self).buffer == old(self).buffer,
            final(self).path == old(self).path,
            final(self).error == Some(e),
            final(self).pending == None::<Pending>,
    {
        self.error = Some(e);
        self.pending = None;
    }
}

/// A failed open, by either route (a dialog, or a given path whose read
/// fails), leaves the text and the path as they were and keeps the error.
pub proof fn lemma_failed_open_keeps_document(s: SessionModel, p: String, e: Error)
    requires
        s.pending is None,
    ensures
        ({
            let (s1, c1) = step(s, Message::OpenPath(p));
            let (s2, c2) = step(s1, Message::FileOpened(Err(e)));
            &&& c1 == CommandModel::ReadFile(p@)
            &&& c2 == CommandModel::Nothing
            &&& current_text(s2) == current_text(s)
            &&& s2.buffer == s.buffer
            &&& s2.path == s.path
            &&& s2.error == Some(e)
        }),
        ({
            let (s1, c1) = step(s, Message::Open);
            let (s2, c2) = step(s1, Message::OpenPathPicked(Err(e)));
            &&& c1 == CommandModel::PickFileToOpen
            &&& c2 == CommandModel::Nothing
            &&& s2.buffer == s.buffer
            &&& s2.path == s.path
            &&& s2.error == Some(e)
        }),
{
}

/// Saving an untitled document whose save dialog is cancelled asks for no
/// write at any point and leaves the document untitled.
pub proof fn lemma_cancelled_save_writes_nothing(s: SessionModel)
    requires
        s.path is None,
        s.pending is None,
    ensures
        ({
            let (s1, c1) = step(s, Message::Save);
            let (s2, c2) = step(s1, Message::SavePathPicked(Err(Error::DialogClosed)));
            &&& c1 == CommandModel::PickFileToSave
            &&& c2 == CommandModel::Nothing
            &&& s2.path is None
            &&& s2.buffer == s.buffer
            &&& s2.error == Some(Error::DialogClosed)
            &&& s2.pending is None
        }),
{
}

/// An edit touches neither the path nor the last error, and asks for no work.
pub proof fn lemma_edit_touches_only_buffer(s: SessionModel, a: EditAction)
    ensures
        step(s, Message::Edit(a)).0.path == s.path,
        step(s, Message::Edit(a)).0.error == s.error,
        step(s, Message::Edit(a)).0.buffer == apply(s.buffer, a),
        step(s, Message::Edit(a)).1 == CommandModel::Nothing,
{
}

} // verus!
