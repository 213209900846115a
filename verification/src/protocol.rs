//! Request/response types shared by the command-line client, the terminal
//! front end and the pane server. On the wire they are JSON lines; the
//! encoding lives with the program around this library.
use vstd::prelude::*;

verus! {

/// A request to the pane server.
pub enum Request {
    Ping,
    Spawn { name: String, command: Vec<String> },
    List,
    Send { name: String, text: String },
    Read { name: String, lines: Option<usize> },
    Kill { name: String },
}

/// Whether a pane's process is still running, and its exit code if not.
#[derive(Clone, Copy, PartialEq, Eq, Structural, Debug)]
pub enum PaneStatus {
    Running,
    Exited { code: u32 },
}

/// One pane as the server lists it.
pub struct PaneInfo {
    pub name: String,
    pub command: Vec<String>,
    pub status: PaneStatus,
}

/// The server's answer to one request.
pub struct Response {
    pub ok: bool,
    pub error: Option<String>,
    pub panes: Vec<PaneInfo>,
    pub output: Option<String>,
    /// The pane's process's current working directory, best-effort (absent if
    /// the lookup fails or the process exited). Only set on `Read` responses,
    /// alongside `output`.
    pub cwd: Option<String>,
}

/// `r` is a bare success.
pub open spec fn is_ok_response(r: Response) -> bool {
    &&& r.ok
    &&& r.error is None
    &&& r.panes@.len() == 0
    &&& r.output is None
    &&& r.cwd is None
}

/// `r` is a failure with the message `message`.
pub open spec fn is_error_response(r: Response, message: Seq<char>) -> bool {
    &&& !r.ok
    &&& r.error matches Some(e) && e@ == message
    &&& r.panes@.len() == 0
    &&& r.output is None
    &&& r.cwd is None
}

impl Response {
    /// A bare success.
    pub fn ok() -> (r: Response)
        ensures
            r.ok,
            r.error is None,
            r.panes@.len() == 0,
            r.output is None,
            r.cwd is None,
    {
        Response { ok: true, error: None, panes: Vec::new(), output: None, cwd: None }
    }

    /// A success carrying a pane list.
    pub fn ok_with_panes(panes: Vec<PaneInfo>) -> (r: Response)
        ensures
            r.ok,
            r.error is None,
            r.panes@ == panes@,
            r.output is None,
            r.cwd is None,
    {
        Response { ok: true, error: None, panes, output: None, cwd: None }
    }

    /// A success carrying a pane's output and, if known, its working directory.
    pub fn ok_with_output(output: String, cwd: Option<String>) -> (r: Response)
        ensures
            r.ok,
            r.error is None,
            r.panes@.len() == 0,
            r.output == Some(output),
            r.cwd == cwd,
    {
        Response { ok: true, error: None, panes: Vec::new(), output: Some(output), cwd }
    }

    /// A failure with a message.
    pub fn err(message: String) -> (r: Response)
        ensures
            !r.ok,
            r.error == Some(message),
            r.panes@.len() == 0,
            r.output is None,
            r.cwd is None,
    {
        Response { ok: false, error: Some(message), panes: Vec::new(), output: None, cwd: None }
    }
}

} // verus!
