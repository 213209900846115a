use sieg::protocol::{PaneStatus, Request};
use sieg::server::{append_capped, cwd_from_lsof, no_such_pane, Registry, ServerAction, MAX_OUTPUT_BYTES};

fn strings(list: &[&str]) -> Vec<String> {
    list.iter().map(|s| s.to_string()).collect()
}

fn reply_error(action: ServerAction) -> String {
    match action {
        ServerAction::Reply(r) => {
            assert!(!r.ok);
            r.error.expect("an error message")
        }
        _ => panic!("expected a reply"),
    }
}

#[test]
fn output_buffer_keeps_the_newest_bytes() {
    let mut buf = b"abc".to_vec();
    append_capped(&mut buf, b"def");
    assert_eq!(buf, b"abcdef");

    let mut full = vec![b'x'; MAX_OUTPUT_BYTES - 2];
    append_capped(&mut full, b"12345");
    assert_eq!(full.len(), MAX_OUTPUT_BYTES);
    assert_eq!(&full[full.len() - 5..], b"12345");
    assert_eq!(&full[..MAX_OUTPUT_BYTES - 5], &vec![b'x'; MAX_OUTPUT_BYTES - 5][..]);

    let mut small = b"old".to_vec();
    let big = vec![b'y'; MAX_OUTPUT_BYTES + 10];
    append_capped(&mut small, &big);
    assert_eq!(small, vec![b'y'; MAX_OUTPUT_BYTES]);
}

#[test]
fn ping_and_list() {
    let mut reg = Registry::new();
    match reg.handle_request(Request::Ping) {
        ServerAction::Reply(r) => assert!(r.ok && r.error.is_none() && r.panes.is_empty()),
        _ => panic!("expected a reply"),
    }
    reg.insert("web".into(), strings(&["npm", "run", "dev"]), Some(42));
    reg.insert("db".into(), strings(&["pg"]), None);
    reg.set_exit_code(&"db".to_string(), 3);
    match reg.handle_request(Request::List) {
        ServerAction::Reply(r) => {
            assert!(r.ok);
            assert_eq!(r.panes.len(), 2);
            assert_eq!(r.panes[0].name, "web");
            assert_eq!(r.panes[0].command, strings(&["npm", "run", "dev"]));
            assert_eq!(r.panes[0].status, PaneStatus::Running);
            assert_eq!(r.panes[1].name, "db");
            assert_eq!(r.panes[1].status, PaneStatus::Exited { code: 3 });
        }
        _ => panic!("expected a reply"),
    }
}

#[test]
fn spawn_is_checked_before_it_starts() {
    let mut reg = Registry::new();
    let empty = reg.handle_request(Request::Spawn { name: "web".into(), command: Vec::new() });
    assert_eq!(reply_error(empty), "command must not be empty");
    match reg.handle_request(Request::Spawn { name: "web".into(), command: strings(&["sh"]) }) {
        ServerAction::Spawn { name, command } => {
            assert_eq!(name, "web");
            assert_eq!(command, strings(&["sh"]));
            reg.insert(name, command, Some(7));
        }
        _ => panic!("expected a spawn"),
    }
    let again = reg.handle_request(Request::Spawn { name: "web".into(), command: strings(&["sh"]) });
    assert_eq!(
        reply_error(again),
        "pane \"web\" already exists (kill it, then spawn under a new name)"
    );
    assert_eq!(reg.len(), 1);
}

#[test]
fn missing_panes_are_reported() {
    let reg = Registry::new();
    let msg = "no such pane: \"ghost\"";
    assert_eq!(reply_error(reg.handle_request(Request::Send { name: "ghost".into(), text: "x".into() })), msg);
    assert_eq!(reply_error(reg.handle_request(Request::Read { name: "ghost".into(), lines: None })), msg);
    assert_eq!(reply_error(reg.handle_request(Request::Kill { name: "ghost".into() })), msg);
    assert_eq!(no_such_pane(&"ghost".to_string()).error, Some(msg.to_string()));
}

#[test]
fn send_and_kill_go_to_existing_panes() {
    let mut reg = Registry::new();
    reg.insert("web".into(), strings(&["sh"]), None);
    match reg.handle_request(Request::Send { name: "web".into(), text: "ls\n".into() }) {
        ServerAction::Write { name, text } => {
            assert_eq!(name, "web");
            assert_eq!(text, "ls\n");
        }
        _ => panic!("expected a write"),
    }
    match reg.handle_request(Request::Kill { name: "web".into() }) {
        ServerAction::Kill { name } => assert_eq!(name, "web"),
        _ => panic!("expected a kill"),
    }
}

#[test]
fn read_returns_output_and_tail() {
    let mut reg = Registry::new();
    reg.insert("web".into(), strings(&["sh"]), Some(99));
    let name = "web".to_string();
    reg.append_output(&name, b"one\ntwo\n");
    reg.append_output(&name, b"three\n");
    reg.append_output(&"nobody".to_string(), b"lost");
    match reg.handle_request(Request::Read { name: name.clone(), lines: None }) {
        ServerAction::Read { output, pid } => {
            assert_eq!(output, "one\ntwo\nthree\n");
            assert_eq!(pid, Some(99));
        }
        _ => panic!("expected a read"),
    }
    match reg.handle_request(Request::Read { name: name.clone(), lines: Some(2) }) {
        ServerAction::Read { output, .. } => assert_eq!(output, "two\nthree"),
        _ => panic!("expected a read"),
    }
}

#[test]
fn killed_panes_stay_listed_and_respawn_replaces() {
    let mut reg = Registry::new();
    reg.insert("web".into(), strings(&["a"]), None);
    reg.append_output(&"web".to_string(), b"out");
    reg.set_exit_code(&"web".to_string(), 0);
    assert_eq!(reg.list()[0].status, PaneStatus::Exited { code: 0 });
    let again = reg.handle_request(Request::Spawn { name: "web".into(), command: strings(&["b"]) });
    assert_eq!(
        reply_error(again),
        "pane \"web\" already exists (kill it, then spawn under a new name)"
    );
    reg.insert("web".into(), strings(&["b"]), None);
    let listed = reg.list();
    assert_eq!(listed.len(), 1);
    assert_eq!(listed[0].command, strings(&["b"]));
    assert_eq!(listed[0].status, PaneStatus::Running);
    match reg.handle_request(Request::Read { name: "web".into(), lines: None }) {
        ServerAction::Read { output, .. } => assert_eq!(output, ""),
        _ => panic!("expected a read"),
    }
}

#[test]
fn lsof_output_gives_the_directory() {
    assert_eq!(cwd_from_lsof(b"p123\nfcwd\nn/home/me/project\n"), Some("/home/me/project".to_string()));
    assert_eq!(cwd_from_lsof(b"p1\nn\n"), Some(String::new()));
    assert_eq!(cwd_from_lsof(b"p1\nfcwd\n"), None);
    assert_eq!(cwd_from_lsof(b""), None);
}

#[test]
fn missing_pane_names_are_debug_quoted() {
    let r = no_such_pane(&"a\"b\n".to_string());
    assert!(!r.ok);
    assert_eq!(r.error.as_deref(), Some("no such pane: \"a\\\"b\\n\""));
}

#[test]
fn lsof_output_is_decoded_lossily() {
    assert_eq!(cwd_from_lsof(b"p1\nn/tmp/\xffx\n"), Some("/tmp/\u{fffd}x".to_string()));
}

#[test]
fn a_run_of_chunks_keeps_the_newest_bytes() {
    let mut buf: Vec<u8> = Vec::new();
    let mut all: Vec<u8> = Vec::new();
    for k in 0..50u32 {
        let chunk: Vec<u8> = (0..4096u32).map(|j| ((k * 7 + j) % 251) as u8).collect();
        append_capped(&mut buf, &chunk);
        all.extend_from_slice(&chunk);
        assert!(buf.len() <= MAX_OUTPUT_BYTES);
        assert_eq!(&buf[..], &all[all.len() - buf.len()..]);
        if all.len() <= MAX_OUTPUT_BYTES {
            assert_eq!(buf, all);
        } else {
            assert_eq!(buf.len(), MAX_OUTPUT_BYTES);
        }
    }
}

#[test]
fn listed_names_are_distinct() {
    let mut reg = Registry::new();
    reg.insert("a".into(), strings(&["sh"]), None);
    reg.insert("b".into(), strings(&["sh"]), None);
    reg.insert("a".into(), strings(&["zsh"]), None);
    let names: Vec<String> = reg.list().into_iter().map(|p| p.name).collect();
    assert_eq!(names, vec!["a".to_string(), "b".to_string()]);
}
