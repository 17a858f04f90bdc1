//! What the guest agent answers. A reply is one line of JSON: `status` is `error`
//! with a `message`, or the answer stands under `result`.

use crate::base64::{decode, decoded};
use crate::json::{
    bool_under, document, entries_under, int_under, json_bool, json_document, json_entries,
    json_int, json_part, json_text, part_under, text_under,
};
use crate::runtime::wire::agent_failure;
use crate::runtime::{started, DirEntry, ExecResult};
use crate::text::{opt_view, or_text, same, text_or, views};
use vstd::prelude::*;
use vstd::string::*;
use vstd::utf8::*;

verus! {

/// The view of a result of texts.
pub open spec fn result_view(r: Result<String, String>) -> Result<Seq<char>, Seq<char>> {
    match r {
        Ok(t) => Ok(t@),
        Err(e) => Err(e@),
    }
}

// ---------------------------------------------------------------------------
// A reply
// ---------------------------------------------------------------------------

/// What a reply comes to, by its status, its message and its result: a failure, or
/// the answer as JSON text. A reply without a result answers `null`.
pub open spec fn answer(
    status: Option<Seq<char>>,
    message: Option<Seq<char>>,
    result: Option<Seq<char>>,
) -> Result<Seq<char>, Seq<char>> {
    if status == Some("error"@) {
        Err("guest agent error: "@ + text_or(message, "?"@))
    } else {
        Ok(text_or(result, "null"@))
    }
}

/// What a reply comes to whose status, message and result are these.
pub fn answer_of(status: Option<String>, message: Option<String>, result: Option<String>) -> (r:
    Result<String, String>)
    ensures
        result_view(r) == answer(opt_view(status), opt_view(message), opt_view(result)),
{
    let failed = match &status {
        Some(s) => same(s.as_str(), "error"),
        None => false,
    };
    if failed {
        let why = match &message {
            Some(m) => agent_failure(Some(m.as_str())),
            None => agent_failure(None),
        };
        return Err(why);
    }
    Ok(or_text(result, "null"))
}

/// What a line that the guest agent wrote comes to, where `unread` is the failure
/// to read it.
pub open spec fn line_answer(line: Seq<u8>, unread: Seq<char>) -> Result<Seq<char>, Seq<char>> {
    if json_document(line) is Err {
        Err(unread)
    } else {
        answer(
            json_text(line, "status"@),
            json_text(line, "message"@),
            json_part(line, "result"@),
        )
    }
}

fn read_line(line: &[u8], unread: &str) -> (r: Result<String, String>)
    ensures
        result_view(r) == line_answer(line@, unread@),
{
    match document(line) {
        Err(_) => Err(String::from_str(unread)),
        Ok(_) => answer_of(
            text_under(line, "status"),
            text_under(line, "message"),
            part_under(line, "result"),
        ),
    }
}

/// What the guest agent answers with this line: the answer as JSON text, or why
/// there is none.
pub fn agent_reply(line: &[u8]) -> (r: Result<String, String>)
    ensures
        result_view(r) == line_answer(line@, "parse agent response"@),
{
    read_line(line, "parse agent response")
}

/// Has the guest agent opened a terminal? Where this line says so, the rest of the
/// connection is the terminal.
pub fn pty_reply(line: &[u8]) -> (r: Result<(), String>)
    ensures
        match line_answer(line@, "parse pty response"@) {
            Ok(_) => r is Ok,
            Err(why) => r matches Err(e) && e@ == why,
        },
{
    match read_line(line, "parse pty response") {
        Ok(_) => Ok(()),
        Err(e) => Err(e),
    }
}

// ---------------------------------------------------------------------------
// A command
// ---------------------------------------------------------------------------

/// What a command that the guest ran to its end comes to: an answer without an exit
/// code counts as failed. Of the exit code the low 32 bits are kept.
pub fn ran(code: Option<i64>, stdout: Option<String>, stderr: Option<String>) -> (r: ExecResult)
    ensures
        r.exit_code == (match code {
            Some(c) => c as i32,
            None => -1i32,
        }),
        r.stdout@ == text_or(opt_view(stdout), ""@),
        r.stderr@ == text_or(opt_view(stderr), ""@),
{
    let exit_code: i32 = match code {
        Some(c) => #[verifier::truncate] (c as i32),
        None => -1,
    };
    ExecResult { exit_code, stdout: or_text(stdout, ""), stderr: or_text(stderr, "") }
}

/// What a command comes to that the guest agent was asked to run and answered like
/// this. Of a command in the background the answer itself is all there is to tell.
pub fn exec_answer(background: bool, answer: &str) -> (r: ExecResult)
    ensures
        background ==> r.exit_code == 0 && r.stdout@ == answer@ && r.stderr@.len() == 0,
        !background ==> {
            let bytes = encode_utf8(answer@);
            &&& r.exit_code == (match json_int(bytes, "exit_code"@) {
                Some(c) => c as i32,
                None => -1i32,
            })
            &&& r.stdout@ == text_or(json_text(bytes, "stdout"@), ""@)
            &&& r.stderr@ == text_or(json_text(bytes, "stderr"@), ""@)
        },
{
    if background {
        return started(String::from_str(answer));
    }
    let bytes = answer.as_bytes();
    ran(
        int_under(bytes, "exit_code"),
        text_under(bytes, "stdout"),
        text_under(bytes, "stderr"),
    )
}

/// How a command that has to succeed came out: its exit code, and what it said.
#[derive(Debug)]
pub struct Checked {
    pub code: i64,
    pub stderr: String,
}

/// How a command came out whose exit code and errors are these: without an exit code
/// it counts as failed.
pub fn checked(code: Option<i64>, stderr: Option<String>) -> (r: Checked)
    ensures
        r.code == (match code {
            Some(c) => c,
            None => -1i64,
        }),
        r.stderr@ == text_or(opt_view(stderr), ""@),
{
    let code: i64 = match code {
        Some(c) => c,
        None => -1,
    };
    Checked { code, stderr: or_text(stderr, "") }
}

/// How a command came out that has to succeed and that the guest agent answered like
/// this.
pub fn checked_answer(answer: &str) -> (r: Checked)
    ensures
        r.code == (match json_int(encode_utf8(answer@), "exit_code"@) {
            Some(c) => c,
            None => -1i64,
        }),
        r.stderr@ == text_or(json_text(encode_utf8(answer@), "stderr"@), ""@),
{
    let bytes = answer.as_bytes();
    checked(int_under(bytes, "exit_code"), text_under(bytes, "stderr"))
}

// ---------------------------------------------------------------------------
// Files
// ---------------------------------------------------------------------------

/// The bytes of a file whose contents were answered in base64. Without contents the
/// file is empty.
pub fn contents(content_b64: Option<String>) -> (r: Result<Vec<u8>, String>)
    ensures
        match r {
            Ok(bytes) => decoded(text_or(opt_view(content_b64), ""@)) == Some(bytes@),
            Err(e) => decoded(text_or(opt_view(content_b64), ""@)) is None && e@
                == "invalid base64"@,
        },
{
    match decode(or_text(content_b64, "").as_str()) {
        Some(bytes) => Ok(bytes),
        None => Err(String::from_str("invalid base64")),
    }
}

/// The bytes of a file that the guest agent was asked for and answered like this.
pub fn file_answer(answer: &str) -> (r: Result<Vec<u8>, String>)
    ensures
        ({
            let content = text_or(json_text(encode_utf8(answer@), "content_b64"@), ""@);
            match r {
                Ok(bytes) => decoded(content) == Some(bytes@),
                Err(e) => decoded(content) is None && e@ == "invalid base64"@,
            }
        }),
{
    contents(text_under(answer.as_bytes(), "content_b64"))
}

/// An entry of a directory whose name and kind were answered like this. It is a file
/// unless it is said to be a directory.
pub fn entry(name: Option<String>, dir: Option<bool>) -> (r: DirEntry)
    ensures
        r.name@ == text_or(opt_view(name), ""@),
        r.dir == (dir == Some(true)),
{
    let dir = match dir {
        Some(d) => d,
        None => false,
    };
    DirEntry { name: or_text(name, ""), dir }
}

/// Does this entry tell what the JSON text tells?
pub open spec fn tells_entry(e: DirEntry, text: Seq<char>) -> bool {
    &&& e.name@ == text_or(json_text(encode_utf8(text), "name"@), ""@)
    &&& e.dir == (json_bool(encode_utf8(text), "dir"@) == Some(true))
}

/// The entries that were listed, or none where there is no list.
pub open spec fn listed(list: Option<Seq<Seq<char>>>) -> Seq<Seq<char>> {
    match list {
        Some(l) => l,
        None => Seq::empty(),
    }
}

/// The entries of a directory that the guest agent was asked for and answered like
/// this.
pub fn dir_answer(answer: &str) -> (r: Vec<DirEntry>)
    ensures
        r@.len() == listed(json_entries(encode_utf8(answer@), "entries"@)).len(),
        forall|i: int|
            0 <= i < r@.len() ==> tells_entry(
                #[trigger] r@[i],
                listed(json_entries(encode_utf8(answer@), "entries"@))[i],
            ),
{
    let mut out: Vec<DirEntry> = Vec::new();
    let list = match entries_under(answer.as_bytes(), "entries") {
        Some(l) => l,
        None => return out,
    };
    let ghost all = listed(json_entries(encode_utf8(answer@), "entries"@));
    let mut i: usize = 0;
    while i < list.len()
        invariant
            i <= list@.len(),
            all == views(list@),
            out@.len() == i,
            forall|k: int| 0 <= k < i ==> tells_entry(#[trigger] out@[k], all[k]),
        decreases list@.len() - i,
    {
        let bytes = list[i].as_str().as_bytes();
        let e = entry(text_under(bytes, "name"), bool_under(bytes, "dir"));
        assert(tells_entry(e, all[i as int]));
        out.push(e);
        i = i + 1;
    }
    out
}

} // verus!
