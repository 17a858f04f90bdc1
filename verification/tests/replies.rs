//! Replies that arrive as JSON: the guest agent's, Firecracker's and other nodes'.

use sandboxd::config::RuntimeConfig;
use sandboxd::node::{
    is_file_not_found, remote_addr, remote_count, remote_entries, remote_file_answer, RemoteReply,
};
use sandboxd::registry::Registry;
use sandboxd::runtime::answer::{
    agent_reply, answer_of, checked, checked_answer, contents, dir_answer, entry, exec_answer,
    file_answer, pty_reply, ran,
};
use sandboxd::runtime::wire::api_get_document;

fn text(s: &str) -> Option<String> {
    Some(s.to_string())
}

#[test]
fn a_reply_is_an_answer_or_an_error() {
    assert_eq!(
        agent_reply(br#"{"status":"ok","result":{"b":1,"a":[true, null]}}"#).unwrap(),
        r#"{"a":[true,null],"b":1}"#
    );
    assert_eq!(agent_reply(br#"{"result":"x"}"#).unwrap(), "\"x\"");
    assert_eq!(agent_reply(br#"{"status":"ok"}"#).unwrap(), "null");
    assert_eq!(agent_reply(br#"{"status":7,"result":3}"#).unwrap(), "3");
    assert_eq!(agent_reply(b"[]").unwrap(), "null");
    assert_eq!(
        agent_reply(br#"{"status":"error","message":"no such file","result":1}"#).unwrap_err(),
        "guest agent error: no such file"
    );
    assert_eq!(agent_reply(br#"{"status":"error"}"#).unwrap_err(), "guest agent error: ?");
    assert_eq!(
        agent_reply(br#"{"status":"error","message":5}"#).unwrap_err(),
        "guest agent error: ?"
    );
    assert_eq!(agent_reply(b"").unwrap_err(), "parse agent response");
    assert_eq!(agent_reply(br#"{"status":"ok""#).unwrap_err(), "parse agent response");
    assert_eq!(agent_reply(b"{\"a\":\"\xff\"}").unwrap_err(), "parse agent response");
}

#[test]
fn the_status_decides() {
    assert_eq!(answer_of(text("ok"), text("m"), text("1")), Ok("1".to_string()));
    assert_eq!(answer_of(None, None, None), Ok("null".to_string()));
    assert_eq!(
        answer_of(text("error"), text("m"), text("1")),
        Err("guest agent error: m".to_string())
    );
    assert_eq!(answer_of(text("error"), None, None), Err("guest agent error: ?".to_string()));
}

#[test]
fn a_terminal_is_open_unless_the_reply_says_otherwise() {
    assert_eq!(pty_reply(br#"{"status":"ok"}"#), Ok(()));
    assert_eq!(
        pty_reply(br#"{"status":"error","message":"no pty"}"#),
        Err("guest agent error: no pty".to_string())
    );
    assert_eq!(pty_reply(b"sh-5.2$ "), Err("parse pty response".to_string()));
}

#[test]
fn a_command_comes_to_what_the_guest_says_of_it() {
    let r = exec_answer(false, r#"{"exit_code":3,"stdout":"out\n","stderr":"eé"}"#);
    assert_eq!((r.exit_code, r.stdout.as_str(), r.stderr.as_str()), (3, "out\n", "e\u{e9}"));
    let r = exec_answer(false, r#"{"exit_code":-9}"#);
    assert_eq!((r.exit_code, r.stdout.as_str(), r.stderr.as_str()), (-9, "", ""));
    let r = exec_answer(false, r#"{"exit_code":"0","stdout":1}"#);
    assert_eq!((r.exit_code, r.stdout.as_str()), (-1, ""));
    assert_eq!(exec_answer(false, "null").exit_code, -1);
    assert_eq!(exec_answer(false, r#"{"exit_code":4294967297}"#).exit_code, 1);
    let r = exec_answer(true, r#"{"pid":12}"#);
    assert_eq!((r.exit_code, r.stdout.as_str(), r.stderr.as_str()), (0, r#"{"pid":12}"#, ""));
    assert_eq!(exec_answer(true, "null").stdout, "null");
    let r = ran(Some(2), text("a"), None);
    assert_eq!((r.exit_code, r.stdout.as_str(), r.stderr.as_str()), (2, "a", ""));
    assert_eq!(ran(None, None, None).exit_code, -1);
}

#[test]
fn a_checked_command_without_a_code_has_failed() {
    let c = checked_answer(r#"{"exit_code":32,"stderr":"mount: no device"}"#);
    assert_eq!((c.code, c.stderr.as_str()), (32, "mount: no device"));
    assert_eq!(checked_answer(r#"{"exit_code":0}"#).code, 0);
    assert_eq!(checked_answer("null").code, -1);
    assert_eq!(checked_answer(r#"{"exit_code":4294967296}"#).code, 4294967296);
    assert_eq!(checked(None, text("e")).code, -1);
    assert_eq!(checked(Some(1), text("e")).stderr, "e");
}

#[test]
fn a_file_is_answered_in_base64() {
    assert_eq!(file_answer(r#"{"content_b64":"aGVsbG8="}"#).unwrap(), b"hello");
    assert_eq!(file_answer("{}").unwrap(), b"");
    assert_eq!(file_answer(r#"{"content_b64":"!"}"#).unwrap_err(), "invalid base64");
    assert_eq!(contents(text("aGk=")).unwrap(), b"hi");
    assert_eq!(contents(None).unwrap(), b"");
    assert_eq!(contents(text("?")).unwrap_err(), "invalid base64");
}

#[test]
fn a_directory_is_answered_entry_by_entry() {
    let answer = r#"{"entries":[{"name":"src","dir":true},{"name":"a.txt","dir":false},
        {"dir":true},{"name":"b"},"c"]}"#;
    let seen: Vec<(String, bool)> =
        dir_answer(answer).into_iter().map(|e| (e.name, e.dir)).collect();
    let want = [("src", true), ("a.txt", false), ("", true), ("b", false), ("", false)];
    assert_eq!(seen, want.map(|(n, d)| (n.to_string(), d)).to_vec());
    assert!(dir_answer(r#"{"entries":{}}"#).is_empty());
    assert!(dir_answer("null").is_empty());
    let e = entry(text("x"), Some(true));
    assert_eq!((e.name.as_str(), e.dir), ("x", true));
    assert!(!entry(None, None).dir);
}

#[test]
fn a_get_brings_a_document() {
    let ok = b"HTTP/1.1 200 OK\r\nContent-Length: 12\r\n\r\n{ \"a\": [1] }rest";
    assert_eq!(api_get_document("/m", ok), Some(Ok(r#"{"a":[1]}"#.to_string())));
    assert_eq!(api_get_document("/m", &ok[..40]), None);
    assert_eq!(api_get_document("/m", b"HTTP/1.1 200 OK\r\n"), None);
    assert_eq!(
        api_get_document("/m", b"HTTP/1.1 404 Not Found\r\n\r\n"),
        Some(Err("firecracker api GET /m failed: HTTP/1.1 404 Not Found".to_string()))
    );
    assert_eq!(
        api_get_document("/m", b"HTTP/1.1 200 OK\r\n\r\n"),
        Some(Err("EOF while parsing a value at line 1 column 0".to_string()))
    );
}

fn reply(code: u16, body: &str) -> RemoteReply {
    RemoteReply {
        code,
        status: format!("{code} Status"),
        text: body.to_string(),
        body: body.as_bytes().to_vec(),
    }
}

#[test]
fn another_nodes_answer_is_read_by_its_keys() {
    assert_eq!(remote_count(&reply(200, r#"{"resume_ms":41}"#), "resume_ms"), 41);
    assert_eq!(
        remote_count(&reply(200, r#"{"n":18446744073709551615}"#), "n"),
        18446744073709551615
    );
    assert_eq!(remote_count(&reply(200, r#"{"resume_ms":-1}"#), "resume_ms"), 0);
    assert_eq!(remote_count(&reply(200, "oops"), "resume_ms"), 0);
    assert_eq!(
        remote_entries(&reply(200, r#"{"entries": [ {"name":"a"} ]}"#)),
        r#"[{"name":"a"}]"#
    );
    assert_eq!(remote_entries(&reply(200, "{}")), "[]");
    assert_eq!(
        remote_addr(&reply(200, r#"{"addr":"10.0.0.2:80"}"#)),
        Ok("10.0.0.2:80".to_string())
    );
    assert_eq!(remote_addr(&reply(200, "{}")), Err("no addr".to_string()));
}

#[test]
fn another_nodes_file_is_read_from_its_answer() {
    let file = |code: u16, body: &str| remote_file_answer("n1", "/a", &reply(code, body));
    assert_eq!(file(200, r#"{"data_b64":"aGVsbG8="}"#).unwrap(), b"hello");
    assert_eq!(file(200, "no json").unwrap(), b"");
    assert_eq!(file(200, r#"{"data_b64":"!"}"#).unwrap_err().message(), "invalid base64");
    assert!(is_file_not_found(&file(404, "{}").unwrap_err()));
    assert_eq!(
        file(500, "boom").unwrap_err().message(),
        "remote node n1 /internal/read_file -> 500 Status: boom"
    );
}

#[test]
fn a_registry_is_walked_in_the_order_of_its_names() {
    let mut m: Registry<u64> = Registry::new();
    for (i, name) in ["c", "a", "d", "b", "a"].iter().enumerate() {
        m.insert(name, i as u64);
    }
    let seen: Vec<(String, u64)> =
        (0..m.len()).map(|i| (m.at(i).0.to_string(), *m.at(i).1)).collect();
    let want = [("a", 4), ("b", 3), ("c", 0), ("d", 2)];
    assert_eq!(seen, want.map(|(n, v)| (n.to_string(), v)).to_vec());
    assert_eq!(m.remove("b"), Some(3));
    assert_eq!((m.at(0).0, m.at(1).0, m.at(2).0), ("a", "c", "d"));
}

#[test]
fn microvms_are_simulated_off_linux() {
    assert_eq!(RuntimeConfig::of_host(true).kind, "firecracker");
    assert_eq!(RuntimeConfig::of_host(false).kind, "mock");
    assert_eq!(RuntimeConfig::default().kind, "firecracker");
}
