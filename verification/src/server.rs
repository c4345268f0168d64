//! One connection, from the first line of the request to the answer.
//!
//! The handler never reads or writes. It is a state machine: the caller
//! performs the action it is handed, reports what happened as an event, and
//! is handed the next action, until the action is `Send` or `Close`.

use crate::config::{path_under, HostConfig, HostModel};
use crate::request::{is_whole_line, parse_request, requested_file, Request};
use crate::response::{response_for, wire_bytes, Response, Status};
use vstd::prelude::*;

verus! {

/// Why a connection is given up without an answer.
#[derive(Clone, Copy, Debug, PartialEq, Eq, Structural)]
pub enum ConnectionError {
    /// No whole request line could be read.
    ReadFailed,
    /// The file to serve could not be looked up or read.
    FileReadFailed,
}

/// Where a connection stands.
#[derive(Debug, PartialEq, Eq)]
pub enum Connection {
    /// The first line of the request is awaited.
    ReadingRequestLine,
    /// The line named `candidate`; whether that path exists is awaited.
    Resolving { candidate: String },
    /// The bytes of `file`, to be sent under `status`, are awaited.
    ReadingFile { status: Status, file: String },
    /// The connection was given up; nothing was sent.
    Aborted(ConnectionError),
    /// The answer was handed over to be sent.
    Closed,
}

/// What the caller reports back.
#[derive(Debug, PartialEq, Eq)]
pub enum Event {
    /// What was read up to and including the first line feed, or up to the
    /// end of the stream where that came first.
    Line(String),
    /// Nothing could be read.
    ReadFailed,
    /// Whether the path of the last `Stat` exists.
    Exists(bool),
    /// The bytes of the file of the last `ReadFile`.
    Content(Vec<u8>),
    /// The path of the last `Stat` could not be looked up, or the file of
    /// the last `ReadFile` could not be read.
    FileReadFailed,
}

/// What the caller is to do next.
#[derive(Debug, PartialEq, Eq)]
pub enum Action {
    /// Read from the stream up to and including the first line feed.
    ReadLine,
    /// Find out whether this path exists.
    Stat(String),
    /// Read the file at this path.
    ReadFile(String),
    /// Write these bytes, flush, and close the connection.
    Send(Vec<u8>),
    /// Close the connection without writing anything.
    Close,
}

/// What a `Connection` holds.
pub enum ConnectionModel {
    ReadingRequestLine,
    Resolving { candidate: Seq<char> },
    ReadingFile { status: Status, file: Seq<char> },
    Aborted(ConnectionError),
    Closed,
}

/// What an `Event` holds.
pub enum EventModel {
    Line(Seq<char>),
    ReadFailed,
    Exists(bool),
    Content(Seq<u8>),
    FileReadFailed,
}

/// What an `Action` holds.
pub enum ActionModel {
    ReadLine,
    Stat(Seq<char>),
    ReadFile(Seq<char>),
    Send(Seq<u8>),
    Close,
}

impl View for Connection {
    type V = ConnectionModel;

    open spec fn view(&self) -> ConnectionModel {
        match self {
            Connection::ReadingRequestLine => ConnectionModel::ReadingRequestLine,
            Connection::Resolving { candidate } => ConnectionModel::Resolving {
                candidate: candidate@,
            },
            Connection::ReadingFile { status, file } => ConnectionModel::ReadingFile {
                status: *status,
                file: file@,
            },
            Connection::Aborted(error) => ConnectionModel::Aborted(*error),
            Connection::Closed => ConnectionModel::Closed,
        }
    }
}

impl View for Event {
    type V = EventModel;

    open spec fn view(&self) -> EventModel {
        match self {
            Event::Line(line) => EventModel::Line(line@),
            Event::ReadFailed => EventModel::ReadFailed,
            Event::Exists(found) => EventModel::Exists(*found),
            Event::Content(bytes) => EventModel::Content(bytes@),
            Event::FileReadFailed => EventModel::FileReadFailed,
        }
    }
}

impl View for Action {
    type V = ActionModel;

    open spec fn view(&self) -> ActionModel {
        match self {
            Action::ReadLine => ActionModel::ReadLine,
            Action::Stat(path) => ActionModel::Stat(path@),
            Action::ReadFile(path) => ActionModel::ReadFile(path@),
            Action::Send(bytes) => ActionModel::Send(bytes@),
            Action::Close => ActionModel::Close,
        }
    }
}

impl Clone for Connection {
    fn clone(&self) -> (copy: Self)
        ensures
            copy@ == self@,
    {
        match self {
            Connection::ReadingRequestLine => Connection::ReadingRequestLine,
            Connection::Resolving { candidate } => Connection::Resolving {
                candidate: candidate.clone(),
            },
            Connection::ReadingFile { status, file } => Connection::ReadingFile {
                status: *status,
                file: file.clone(),
            },
            Connection::Aborted(error) => Connection::Aborted(*error),
            Connection::Closed => Connection::Closed,
        }
    }
}

impl Clone for Event {
    fn clone(&self) -> (copy: Self)
        ensures
            copy@ == self@,
    {
        match self {
            Event::Line(line) => Event::Line(line.clone()),
            Event::ReadFailed => Event::ReadFailed,
            Event::Exists(found) => Event::Exists(*found),
            Event::Content(bytes) => Event::Content(bytes.clone()),
            Event::FileReadFailed => Event::FileReadFailed,
        }
    }
}

impl Clone for Action {
    fn clone(&self) -> (copy: Self)
        ensures
            copy@ == self@,
    {
        match self {
            Action::ReadLine => Action::ReadLine,
            Action::Stat(path) => Action::Stat(path.clone()),
            Action::ReadFile(path) => Action::ReadFile(path.clone()),
            Action::Send(bytes) => Action::Send(bytes.clone()),
            Action::Close => Action::Close,
        }
    }
}

/// The path that the request line `line` asks for.
pub open spec fn candidate_path(host: HostModel, line: Seq<char>) -> Seq<char> {
    path_under(host.root, requested_file(parse_request(line).target, host.index))
}

/// The path of the page that is served when the requested file is missing.
pub open spec fn fallback_path(host: HostModel) -> Seq<char> {
    path_under(host.root, "404.html"@)
}

/// The state after giving up with `error`, and the action that goes with it.
pub open spec fn abort(error: ConnectionError) -> (ConnectionModel, ActionModel) {
    (ConnectionModel::Aborted(error), ActionModel::Close)
}

/// One step of a connection: the state and the action that follow when
/// `event` is reported in `state`.
///
/// - A whole request line leads to a `Stat` of the path it asks for. A
///   line that the stream cut short, like any other event while the line
///   is awaited, is a failed read.
/// - The answer to the `Stat` decides between that path, served as found,
///   and the fallback page, served as not found.
/// - The bytes of the chosen file lead to the `Send` of the framed answer.
///   Any other event while a file is looked up or read is a failed file
///   read.
/// - A connection that is over stays as it is.
pub open spec fn step(host: HostModel, state: ConnectionModel, event: EventModel) -> (
    ConnectionModel,
    ActionModel,
) {
    match state {
        ConnectionModel::ReadingRequestLine => match event {
            EventModel::Line(line) if is_whole_line(line) => (
                ConnectionModel::Resolving { candidate: candidate_path(host, line) },
                ActionModel::Stat(candidate_path(host, line)),
            ),
            _ => abort(ConnectionError::ReadFailed),
        },
        ConnectionModel::Resolving { candidate } => match event {
            EventModel::Exists(true) => (
                ConnectionModel::ReadingFile { status: Status::Found, file: candidate },
                ActionModel::ReadFile(candidate),
            ),
            EventModel::Exists(false) => (
                ConnectionModel::ReadingFile {
                    status: Status::NotFound,
                    file: fallback_path(host),
                },
                ActionModel::ReadFile(fallback_path(host)),
            ),
            _ => abort(ConnectionError::FileReadFailed),
        },
        ConnectionModel::ReadingFile { status, file } => match event {
            EventModel::Content(body) => (
                ConnectionModel::Closed,
                ActionModel::Send(wire_bytes(response_for(status, file, body))),
            ),
            _ => abort(ConnectionError::FileReadFailed),
        },
        ConnectionModel::Aborted(error) => abort(error),
        ConnectionModel::Closed => (ConnectionModel::Closed, ActionModel::Close),
    }
}

impl Connection {
    /// A connection that was just accepted, and the first thing to do on it.
    pub fn accept() -> (r: (Connection, Action))
        ensures
            r.0@ == ConnectionModel::ReadingRequestLine,
            r.1@ == ActionModel::ReadLine,
    {
        (Connection::ReadingRequestLine, Action::ReadLine)
    }
}

/// Advances a connection by one event: returns the next state and the
/// action that the caller is to perform.
pub fn handle_connection(host: &HostConfig, state: Connection, event: Event) -> (r: (
    Connection,
    Action,
))
    ensures
        (r.0@, r.1@) == step(host@, state@, event@),
{
    match state {
        Connection::ReadingRequestLine => {
            let request = match event {
                Event::Line(line) => Request::parse_whole_line(line.as_str()),
                _ => None,
            };
            match request {
                Some(request) => {
                    let name = request.file(host.index.as_str());
                    let candidate = host.path_of(name.as_str());
                    let path = candidate.clone();
                    (Connection::Resolving { candidate }, Action::Stat(path))
                },
                None => (Connection::Aborted(ConnectionError::ReadFailed), Action::Close),
            }
        },
        Connection::Resolving { candidate } => match event {
            Event::Exists(true) => {
                let path = candidate.clone();
                (
                    Connection::ReadingFile { status: Status::Found, file: candidate },
                    Action::ReadFile(path),
                )
            },
            Event::Exists(false) => {
                let file = host.path_of("404.html");
                let path = file.clone();
                (
                    Connection::ReadingFile { status: Status::NotFound, file },
                    Action::ReadFile(path),
                )
            },
            _ => (Connection::Aborted(ConnectionError::FileReadFailed), Action::Close),
        },
        Connection::ReadingFile { status, file } => match event {
            Event::Content(body) => {
                let response = Response::new(status, file.as_str(), body);
                (Connection::Closed, Action::Send(response.into_bytes()))
            },
            _ => (Connection::Aborted(ConnectionError::FileReadFailed), Action::Close),
        },
        Connection::Aborted(error) => (Connection::Aborted(error), Action::Close),
        Connection::Closed => (Connection::Closed, Action::Close),
    }
}

// ---------------------------------------------------------------------------
// A whole connection
// ---------------------------------------------------------------------------

/// The files that a connection can see: each path that exists, with its
/// bytes where it can be read.
pub type FileTree = Map<Seq<char>, Option<Seq<u8>>>;

/// The event that reports how `action` went, on a stream from which `line`
/// is read (or nothing) and with the files `files`.
pub open spec fn report(
    line: Option<Seq<char>>,
    files: FileTree,
    action: ActionModel,
) -> EventModel {
    match action {
        ActionModel::ReadLine => match line {
            Some(text) => EventModel::Line(text),
            None => EventModel::ReadFailed,
        },
        ActionModel::Stat(path) => EventModel::Exists(files.contains_key(path)),
        ActionModel::ReadFile(path) => if files.contains_key(path) && files[path] is Some {
            EventModel::Content(files[path]->0)
        } else {
            EventModel::FileReadFailed
        },
        ActionModel::Send(_) => EventModel::ReadFailed,
        ActionModel::Close => EventModel::ReadFailed,
    }
}

/// The state and the action on which a connection ends when each action,
/// from the reading of the request line on, is performed and reported.
pub open spec fn session_end(host: HostModel, line: Option<Seq<char>>, files: FileTree) -> (
    ConnectionModel,
    ActionModel,
) {
    let first = step(
        host,
        ConnectionModel::ReadingRequestLine,
        report(line, files, ActionModel::ReadLine),
    );
    let second = step(host, first.0, report(line, files, first.1));
    step(host, second.0, report(line, files, second.1))
}

/// The action on which a connection ends.
pub open spec fn session(host: HostModel, line: Option<Seq<char>>, files: FileTree) -> ActionModel {
    session_end(host, line, files).1
}

/// The file that is served for the request line `line`, and the status
/// under which it is served: the requested file as found, where it exists,
/// and the fallback page as not found, where it does not.
pub open spec fn served_file(host: HostModel, line: Seq<char>, files: FileTree) -> (
    Status,
    Seq<char>,
) {
    if files.contains_key(candidate_path(host, line)) {
        (Status::Found, candidate_path(host, line))
    } else {
        (Status::NotFound, fallback_path(host))
    }
}

/// What a connection is owed: the framed answer with the bytes of the file
/// that is served, or the reason for which there is none. There is none
/// without a whole request line, and none where the file to serve cannot
/// be read.
pub open spec fn reply(host: HostModel, line: Option<Seq<char>>, files: FileTree) -> Result<
    Seq<u8>,
    ConnectionError,
> {
    match line {
        Some(text) if is_whole_line(text) => {
            let (status, file) = served_file(host, text, files);
            if files.contains_key(file) && files[file] is Some {
                Ok(wire_bytes(response_for(status, file, files[file]->0)))
            } else {
                Err(ConnectionError::FileReadFailed)
            }
        },
        _ => Err(ConnectionError::ReadFailed),
    }
}

/// The bytes that `action` writes to the connection.
pub open spec fn bytes_sent(action: ActionModel) -> Seq<u8> {
    match action {
        ActionModel::Send(bytes) => bytes,
        _ => Seq::empty(),
    }
}

/// A connection is over within three steps: closed after sending the bytes
/// it is owed, or given up without a byte, for the reason for which it is
/// owed none.
pub proof fn lemma_session_sends_reply(host: HostModel, line: Option<Seq<char>>, files: FileTree)
    ensures
        session_end(host, line, files) == match reply(host, line, files) {
            Ok(bytes) => (ConnectionModel::Closed, ActionModel::Send(bytes)),
            Err(error) => abort(error),
        },
{
}

/// The target `/` is answered with the index file: found, with the content
/// type of the index file's name, and with its bytes as the body.
pub proof fn lemma_root_serves_index(
    host: HostModel,
    line: Seq<char>,
    files: FileTree,
    body: Seq<u8>,
)
    requires
        is_whole_line(line),
        parse_request(line).target == seq!['/'],
        files.contains_key(path_under(host.root, host.index)),
        files[path_under(host.root, host.index)] == Some(body),
    ensures
        session(host, Some(line), files) == ActionModel::Send(
            wire_bytes(response_for(Status::Found, path_under(host.root, host.index), body)),
        ),
{
}

/// A request for a path at which nothing exists is answered with the
/// fallback page: not found, and with the bytes of that page as the body.
pub proof fn lemma_missing_file_serves_fallback(
    host: HostModel,
    line: Seq<char>,
    files: FileTree,
    body: Seq<u8>,
)
    requires
        is_whole_line(line),
        !files.contains_key(candidate_path(host, line)),
        files.contains_key(fallback_path(host)),
        files[fallback_path(host)] == Some(body),
    ensures
        session(host, Some(line), files) == ActionModel::Send(
            wire_bytes(response_for(Status::NotFound, fallback_path(host), body)),
        ),
{
}

/// A connection on which no whole request line arrives, because nothing
/// could be read or because the stream ended before the line did, is given
/// up without a byte written, whatever the files are.
pub proof fn lemma_no_line_no_bytes(host: HostModel, line: Option<Seq<char>>, files: FileTree)
    requires
        line matches Some(text) ==> !is_whole_line(text),
    ensures
        session_end(host, line, files) == abort(ConnectionError::ReadFailed),
        bytes_sent(session(host, line, files)) == Seq::<u8>::empty(),
{
}

/// Bytes are written only as the answer to the bytes of a file: in every
/// other state, and on every other event, nothing is sent. An action that
/// sends or closes leaves the connection over.
pub proof fn lemma_send_only_after_content(
    host: HostModel,
    state: ConnectionModel,
    event: EventModel,
)
    ensures
        step(host, state, event).1 is Send ==> state is ReadingFile && event is Content,
        step(host, state, event).1 is Send ==> step(host, state, event).0 is Closed,
        step(host, state, event).1 is Close ==> step(host, state, event).0 is Closed || step(
            host,
            state,
            event,
        ).0 is Aborted,
{
}

/// A connection carries one request: no step asks for another line, and a
/// connection that is over stays as it is, whatever is reported.
pub proof fn lemma_one_request_per_connection(
    host: HostModel,
    state: ConnectionModel,
    event: EventModel,
)
    ensures
        !(step(host, state, event).1 is ReadLine),
        state is Closed || state is Aborted ==> step(host, state, event) == (
            state,
            ActionModel::Close,
        ),
{
}

/// The same request against the same files is answered with the same
/// bytes, however often it is made.
pub proof fn lemma_same_request_same_bytes(
    host: HostModel,
    line: Option<Seq<char>>,
    files: FileTree,
    first: ActionModel,
    second: ActionModel,
)
    requires
        first == session(host, line, files),
        second == session(host, line, files),
    ensures
        first == second,
        bytes_sent(first) == bytes_sent(second),
{
}

} // verus!
