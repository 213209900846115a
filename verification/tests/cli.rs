use sieg::cli::{failure_message, kill, pane_table, read, send, spawn, status_text};
use sieg::protocol::{PaneInfo, PaneStatus, Request, Response};

fn args(list: &[&str]) -> Vec<String> {
    list.iter().map(|s| s.to_string()).collect()
}

#[test]
fn spawn_takes_the_command_after_dashes() {
    match spawn(&args(&["web", "--", "npm", "run", "dev"])) {
        Ok(Request::Spawn { name, command }) => {
            assert_eq!(name, "web");
            assert_eq!(command, args(&["npm", "run", "dev"]));
        }
        _ => panic!("expected a spawn request"),
    }
    match spawn(&args(&["web", "bash"])) {
        Ok(Request::Spawn { name, command }) => {
            assert_eq!(name, "web");
            assert_eq!(command, args(&["bash"]));
        }
        _ => panic!("expected a spawn request"),
    }
    // Only a leading `--` is dropped.
    match spawn(&args(&["w", "--", "--", "x"])) {
        Ok(Request::Spawn { command, .. }) => assert_eq!(command, args(&["--", "x"])),
        _ => panic!("expected a spawn request"),
    }
}

#[test]
fn spawn_without_name_or_command_is_a_usage_error() {
    let usage = "usage: sieg spawn <name> -- <command...>";
    assert_eq!(spawn(&args(&[])).err(), Some(usage.to_string()));
    assert_eq!(spawn(&args(&["web"])).err(), Some(usage.to_string()));
    assert_eq!(spawn(&args(&["web", "--"])).err(), Some(usage.to_string()));
}

#[test]
fn send_joins_words_and_ends_the_line() {
    match send(&args(&["web", "echo", "hi"])) {
        Ok(Request::Send { name, text }) => {
            assert_eq!(name, "web");
            assert_eq!(text, "echo hi\n");
        }
        _ => panic!("expected a send request"),
    }
    assert_eq!(send(&args(&["web"])).err(), Some("usage: sieg send <name> <text...>".to_string()));
    assert_eq!(send(&args(&[])).err(), Some("usage: sieg send <name> <text...>".to_string()));
}

#[test]
fn read_takes_an_optional_line_count() {
    match read(&args(&["web", "20"])) {
        Ok(Request::Read { name, lines }) => {
            assert_eq!(name, "web");
            assert_eq!(lines, Some(20));
        }
        _ => panic!("expected a read request"),
    }
    match read(&args(&["web", "lots"])) {
        Ok(Request::Read { lines, .. }) => assert_eq!(lines, None),
        _ => panic!("expected a read request"),
    }
    match read(&args(&["web"])) {
        Ok(Request::Read { lines, .. }) => assert_eq!(lines, None),
        _ => panic!("expected a read request"),
    }
    assert_eq!(read(&args(&[])).err(), Some("usage: sieg read <name> [lines]".to_string()));
}

#[test]
fn kill_names_the_pane() {
    match kill(&args(&["web", "extra"])) {
        Ok(Request::Kill { name }) => assert_eq!(name, "web"),
        _ => panic!("expected a kill request"),
    }
    assert_eq!(kill(&args(&[])).err(), Some("usage: sieg kill <name>".to_string()));
}

#[test]
fn status_texts() {
    assert_eq!(status_text(PaneStatus::Running), "running");
    assert_eq!(status_text(PaneStatus::Exited { code: 0 }), "exited(0)");
    assert_eq!(status_text(PaneStatus::Exited { code: 137 }), "exited(137)");
}

#[test]
fn pane_table_formats_columns() {
    assert_eq!(pane_table(&Vec::new()), vec!["no panes"]);
    let panes = vec![
        PaneInfo { name: "web".into(), command: args(&["npm", "run", "dev"]), status: PaneStatus::Running },
        PaneInfo { name: "db".into(), command: args(&["pg"]), status: PaneStatus::Exited { code: 1 } },
    ];
    let lines = pane_table(&panes);
    assert_eq!(lines.len(), 3);
    assert_eq!(lines[0], format!("{:<20} {:<14} {}", "NAME", "STATUS", "COMMAND"));
    assert_eq!(lines[1], format!("{:<20} {:<14} {}", "web", "running", "npm run dev"));
    assert_eq!(lines[2], format!("{:<20} {:<14} {}", "db", "exited(1)", "pg"));
}

#[test]
fn failure_messages() {
    assert_eq!(failure_message(&Response::err("boom".to_string())), "error: boom");
    let mut r = Response::ok();
    r.ok = false;
    assert_eq!(failure_message(&r), "error: unknown error");
}
