//! The agent inside the guest: what it does for a request, and what it answers.
//!
//! A connection carries one request per line and one answer per line; a terminal
//! takes the whole connection over.

use crate::base64::{decode, decoded, encode, encoded};
use crate::numeral::{decimal, to_decimal};
use crate::paths::{parent, parent_dir};
use crate::runtime::DirEntry;
use crate::text::{concat2, concat3, opt_view, str_views, strings, trim, trimmed, views};
use vstd::prelude::*;
use vstd::string::*;

verus! {

/// A request as it was read.
#[derive(Debug)]
pub enum Request {
    Ping,
    Exec {
        cmd: String,
        cwd: Option<String>,
        env: Vec<(String, String)>,
        background: Option<bool>,
    },
    WriteFile { path: String, content_b64: String },
    ReadFile { path: String },
    ListDir { path: String },
    ReadyHttp { url: String, timeout_seconds: u64 },
    /// Turn the connection into a terminal.
    Pty { cols: Option<u16>, rows: Option<u16>, command: Option<String> },
}

/// An answer before it is written out.
#[derive(Debug)]
pub enum Response {
    AgentReady,
    Started { pid: u32 },
    Ran { exit_code: i32, stdout: String, stderr: String },
    Written { path: String },
    Content { content_b64: String },
    Entries(Vec<DirEntry>),
    HttpReady,
    Terminal,
    Error { message: String },
}

/// What has to be done outside for a request.
#[derive(Debug)]
pub enum Work {
    /// Nothing: this is the answer.
    Answer(Response),
    /// Run a program, to its end or in the background.
    Run {
        argv: Vec<String>,
        cwd: Option<String>,
        env: Vec<(String, String)>,
        background: bool,
    },
    /// Make the directory, if there is one to make, and write the file.
    Write { dir: Option<String>, path: String, bytes: Vec<u8> },
    Read { path: String },
    List { path: String },
    /// Run a program again and again until it succeeds or the time is over.
    Poll { argv: Vec<String>, timeout_seconds: u64 },
    /// Open a terminal of this size and run a program in it, in a directory and with
    /// variables of its own.
    Open { argv: Vec<String>, home: String, vars: Vec<(String, String)>, cols: u16, rows: u16 },
}

/// The directory in which a terminal opens.
pub const TERMINAL_DIR: &'static str = "/workspace";

/// The kind of terminal that its programs are told of.
pub const TERMINAL_KIND: &'static str = "xterm-256color";

/// The size of a terminal that names none.
pub const DEFAULT_COLS: u16 = 120;

pub const DEFAULT_ROWS: u16 = 32;

/// Milliseconds between two polls.
pub const POLL_PAUSE_MS: u64 = 200;

/// The work is what the request asks for.
pub open spec fn serves(w: Work, req: Request) -> bool {
    match req {
        Request::Ping => w matches Work::Answer(a) && a is AgentReady,
        Request::Exec { cmd, cwd, env, background } => {
            &&& w matches Work::Run { argv, cwd: dir, env: vars, background: bg }
            &&& views(argv@) == seq!["/bin/sh"@, "-lc"@, cmd@]
            &&& dir == cwd
            &&& vars == env
            &&& bg == (background == Some(true))
        },
        Request::WriteFile { path, content_b64 } => match decoded(content_b64@) {
            Some(b) => {
                &&& w matches Work::Write { dir, path: p, bytes }
                &&& opt_view(dir) == parent(path@)
                &&& p == path
                &&& bytes@ == b
            },
            None => w matches Work::Answer(a) && (a matches Response::Error { message }
                && message@ == "invalid base64"@),
        },
        Request::ReadFile { path } => w == (Work::Read { path }),
        Request::ListDir { path } => w == (Work::List { path }),
        Request::ReadyHttp { url, timeout_seconds } => {
            &&& w matches Work::Poll { argv, timeout_seconds: t }
            &&& views(argv@) == seq![
                "curl"@,
                "-fsS"@,
                "-o"@,
                "/dev/null"@,
                "--max-time"@,
                "2"@,
                url@,
            ]
            &&& t == timeout_seconds
        },
        Request::Pty { cols, rows, command } => {
            &&& w matches Work::Open { argv, home, vars, cols: c, rows: r }
            &&& home@ == TERMINAL_DIR@
            &&& vars@.len() == 1 && vars@[0].0@ == "TERM"@ && vars@[0].1@ == TERMINAL_KIND@
            &&& views(argv@) == (match command {
                Some(line) => seq!["/bin/sh"@, "-lc"@, line@],
                None => seq!["/bin/sh"@, "-l"@],
            })
            &&& c == (match cols {
                Some(n) => n,
                None => DEFAULT_COLS,
            })
            &&& r == (match rows {
                Some(n) => n,
                None => DEFAULT_ROWS,
            })
        },
    }
}

fn shell(line: &str) -> (r: Vec<String>)
    ensures
        views(r@) == seq!["/bin/sh"@, "-lc"@, line@],
{
    let argv: [&str; 3] = ["/bin/sh", "-lc", line];
    let out = strings(&argv);
    assert(str_views(argv@) =~= seq!["/bin/sh"@, "-lc"@, line@]);
    out
}

fn login_shell() -> (r: Vec<String>)
    ensures
        views(r@) == seq!["/bin/sh"@, "-l"@],
{
    let argv: [&str; 2] = ["/bin/sh", "-l"];
    let out = strings(&argv);
    assert(str_views(argv@) =~= seq!["/bin/sh"@, "-l"@]);
    out
}

fn probe(url: &str) -> (r: Vec<String>)
    ensures
        views(r@) == seq!["curl"@, "-fsS"@, "-o"@, "/dev/null"@, "--max-time"@, "2"@, url@],
{
    let argv: [&str; 7] = ["curl", "-fsS", "-o", "/dev/null", "--max-time", "2", url];
    let out = strings(&argv);
    assert(str_views(argv@) =~= seq![
        "curl"@,
        "-fsS"@,
        "-o"@,
        "/dev/null"@,
        "--max-time"@,
        "2"@,
        url@,
    ]);
    out
}

/// What has to be done for a request.
pub fn handle(req: Request) -> (w: Work)
    ensures
        serves(w, req),
{
    match req {
        Request::Ping => Work::Answer(Response::AgentReady),
        Request::Exec { cmd, cwd, env, background } => {
            let bg = match background {
                Some(b) => b,
                None => false,
            };
            Work::Run { argv: shell(cmd.as_str()), cwd, env, background: bg }
        },
        Request::WriteFile { path, content_b64 } => match decode(content_b64.as_str()) {
            Some(bytes) => {
                let dir = parent_dir(path.as_str());
                Work::Write { dir, path, bytes }
            },
            None => Work::Answer(
                Response::Error { message: String::from_str("invalid base64") },
            ),
        },
        Request::ReadFile { path } => Work::Read { path },
        Request::ListDir { path } => Work::List { path },
        Request::ReadyHttp { url, timeout_seconds } => Work::Poll {
            argv: probe(url.as_str()),
            timeout_seconds,
        },
        Request::Pty { cols, rows, command } => {
            let c: u16 = match cols {
                Some(n) => n,
                None => DEFAULT_COLS,
            };
            let r: u16 = match rows {
                Some(n) => n,
                None => DEFAULT_ROWS,
            };
            let argv = match command {
                Some(line) => shell(line.as_str()),
                None => login_shell(),
            };
            let mut vars: Vec<(String, String)> = Vec::new();
            vars.push((String::from_str("TERM"), String::from_str(TERMINAL_KIND)));
            Work::Open { argv, home: String::from_str(TERMINAL_DIR), vars, cols: c, rows: r }
        },
    }
}

/// The answer to a read: the content in base64, so that any bytes survive the line
/// protocol.
pub fn read_answer(bytes: &Vec<u8>) -> (r: Response)
    ensures
        r matches Response::Content { content_b64 } && content_b64@ == encoded(bytes@),
{
    Response::Content { content_b64: encode(bytes.as_slice()) }
}

/// What a poll does next.
#[derive(Debug)]
pub enum PollStep {
    Answer(Response),
    /// Wait and try again.
    Again,
}

/// What a poll does after a try, given whether it succeeded and whether the time is
/// over.
pub fn poll_step(succeeded: bool, time_is_over: bool, timeout_seconds: u64) -> (r: PollStep)
    ensures
        succeeded ==> (r matches PollStep::Answer(a) && a is HttpReady),
        !succeeded && !time_is_over ==> r is Again,
        !succeeded && time_is_over ==> (r matches PollStep::Answer(a)
            && (a matches Response::Error { message } && message@ == "ready check timed out after "@
            + decimal(timeout_seconds as nat) + "s"@)),
{
    if succeeded {
        return PollStep::Answer(Response::HttpReady);
    }
    if !time_is_over {
        return PollStep::Again;
    }
    PollStep::Answer(
        Response::Error {
            message: concat3(
                "ready check timed out after ",
                to_decimal(timeout_seconds).as_str(),
                "s",
            ),
        },
    )
}

/// Is a line to be skipped?
pub fn is_blank(line: &str) -> (r: bool)
    ensures
        r == (trimmed(line@).len() == 0),
{
    trim(line).as_str().is_empty()
}

/// The answer to a line that is no request.
pub fn bad_request(why: &str) -> (r: Response)
    ensures
        r matches Response::Error { message } && message@ == "bad request: "@ + why@,
{
    Response::Error { message: concat2("bad request: ", why) }
}

/// A file that is written comes back as it was: the host's encoding of some bytes
/// asks for exactly those bytes to be written.
pub proof fn law_written_bytes_survive(w: Work, path: String, content_b64: String, b: Seq<u8>)
    requires
        content_b64@ == encoded(b),
        serves(w, Request::WriteFile { path, content_b64 }),
    ensures
        w matches Work::Write { path: p, bytes, .. } && p == path && bytes@ == b,
{
    crate::base64::law_decode_undoes_encode(b);
}

} // verus!
