use sieg::palette::{Palette, Rgb};
use sieg::protocol::{PaneInfo, PaneStatus, Request, Response};
use sieg::pty_text::KeyCode;
use sieg::ui::{
    centered_modal, status_glyph, visible_start, AppState, Focus, KeyAction, KeyPress, Rect,
    SpawnField,
};

fn pane(name: &str) -> PaneInfo {
    PaneInfo { name: name.into(), command: vec!["sh".into()], status: PaneStatus::Running }
}

fn listed(names: &[&str]) -> Response {
    Response::ok_with_panes(names.iter().map(|n| pane(n)).collect())
}

fn key(code: KeyCode) -> KeyPress {
    KeyPress { code, ctrl: false }
}

fn ready(names: &[&str]) -> AppState {
    let mut app = AppState::new();
    app.show_onboarding = false;
    app.refresh(Ok(listed(names)));
    app
}

#[test]
fn new_state_shows_onboarding() {
    let app = AppState::new();
    assert!(app.show_onboarding);
    assert_eq!(app.focus, Focus::Nav);
    assert!(app.panes.is_empty() && app.selected_name.is_none() && app.spawn_form.is_none());
    assert_eq!(app.palette, Palette::catppuccin());
}

#[test]
fn list_is_sorted_and_first_pane_selected() {
    let app = ready(&["zeta", "alpha", "mid"]);
    let names: Vec<&str> = app.panes.iter().map(|p| p.name.as_str()).collect();
    assert_eq!(names, vec!["alpha", "mid", "zeta"]);
    assert_eq!(app.selected_name.as_deref(), Some("alpha"));
    assert_eq!(app.selected_index(), Some(0));
}

#[test]
fn list_failures_show_in_the_status_line() {
    let mut app = ready(&["a"]);
    app.refresh(Err("connection refused".into()));
    assert_eq!(app.status_message.as_deref(), Some("server unreachable: connection refused"));
    let mut bad = Response::ok();
    bad.ok = false;
    app.refresh(Ok(bad));
    assert_eq!(app.status_message.as_deref(), Some("failed to list panes"));
    app.refresh(Ok(Response::err("nope".into())));
    assert_eq!(app.status_message.as_deref(), Some("nope"));
    assert_eq!(app.panes.len(), 1);
}

#[test]
fn selection_wraps_both_ways() {
    let mut app = ready(&["a", "b", "c"]);
    app.move_selection(-1);
    assert_eq!(app.selected_name.as_deref(), Some("c"));
    app.move_selection(1);
    assert_eq!(app.selected_name.as_deref(), Some("a"));
    app.move_selection(5);
    assert_eq!(app.selected_name.as_deref(), Some("c"));
    app.move_selection(-7);
    assert_eq!(app.selected_name.as_deref(), Some("b"));
    let mut empty = AppState::new();
    empty.move_selection(1);
    assert!(empty.selected_name.is_none());
}

#[test]
fn selection_of_a_vanished_pane_moves_from_the_top() {
    let mut app = ready(&["a", "b"]);
    app.selected_name = Some("gone".into());
    assert_eq!(app.selected_index(), None);
    app.move_selection(1);
    assert_eq!(app.selected_name.as_deref(), Some("b"));
}

#[test]
fn refresh_asks_for_the_selected_output() {
    let mut app = AppState::new();
    match app.refresh(Ok(listed(&["b", "a"]))) {
        Some(Request::Read { name, lines }) => {
            assert_eq!(name, "a");
            assert_eq!(lines, None);
        }
        _ => panic!("expected a read request"),
    }
    let mut empty = AppState::new();
    assert!(empty.refresh(Ok(listed(&[]))).is_none());
    assert!(empty.refresh(Err("down".into())).is_none());
}

#[test]
fn read_output_is_rendered() {
    let mut app = ready(&["a"]);
    match app.read_request() {
        Some(Request::Read { name, lines }) => {
            assert_eq!(name, "a");
            assert_eq!(lines, None);
        }
        _ => panic!("expected a read request"),
    }
    app.apply_read(Some(Response::ok_with_output("x\x1b[0m\ny".into(), None)));
    assert_eq!(app.pane_lines, vec!["x", "y"]);
    app.apply_read(None);
    assert_eq!(app.pane_lines, vec!["x", "y"]);
    app.apply_read(Some(Response::err("gone".into())));
    assert_eq!(app.pane_lines, vec!["x", "y"]);
    let mut none = AppState::new();
    assert!(none.read_request().is_none());
    none.pane_lines = vec!["stale".into()];
    none.apply_read(None);
    assert!(none.pane_lines.is_empty());
}

#[test]
fn onboarding_keys() {
    let mut app = AppState::new();
    assert!(matches!(app.handle_key(key(KeyCode::Char('x'))), KeyAction::Nothing));
    assert!(app.show_onboarding);
    assert!(matches!(app.handle_key(key(KeyCode::Char('q'))), KeyAction::Quit));
    assert!(matches!(app.handle_key(key(KeyCode::Char('o'))), KeyAction::Nothing));
    assert!(!app.show_onboarding);
    app.show_onboarding = true;
    app.handle_key(key(KeyCode::Esc));
    assert!(!app.show_onboarding);
}

#[test]
fn nav_keys() {
    let mut app = ready(&["a", "b"]);
    app.handle_key(key(KeyCode::Down));
    assert_eq!(app.selected_name.as_deref(), Some("b"));
    app.handle_key(key(KeyCode::Char('k')));
    assert_eq!(app.selected_name.as_deref(), Some("a"));
    app.handle_key(key(KeyCode::Char('j')));
    app.handle_key(key(KeyCode::Up));
    assert_eq!(app.selected_name.as_deref(), Some("a"));
    assert!(matches!(app.handle_key(key(KeyCode::Char('n'))), KeyAction::OpenSpawnForm));
    assert!(matches!(app.handle_key(key(KeyCode::Char('x'))), KeyAction::KillSelected));
    app.handle_key(key(KeyCode::Char('o')));
    assert!(app.show_onboarding);
    app.show_onboarding = false;
    app.handle_key(key(KeyCode::Enter));
    assert_eq!(app.focus, Focus::Pane);
    let mut empty = AppState::new();
    empty.show_onboarding = false;
    empty.handle_key(key(KeyCode::Enter));
    assert_eq!(empty.focus, Focus::Nav);
    assert!(matches!(empty.handle_key(key(KeyCode::Char('q'))), KeyAction::Quit));
}

#[test]
fn pane_keys_are_forwarded_and_ctrl_b_detaches() {
    let mut app = ready(&["a"]);
    app.focus = Focus::Pane;
    match app.handle_key(key(KeyCode::Char('q'))) {
        KeyAction::SendBytes(b) => assert_eq!(b, b"q".to_vec()),
        _ => panic!("expected bytes"),
    }
    match app.handle_key(KeyPress { code: KeyCode::Char('c'), ctrl: true }) {
        KeyAction::SendBytes(b) => assert_eq!(b, vec![3]),
        _ => panic!("expected bytes"),
    }
    assert!(matches!(app.handle_key(key(KeyCode::Other)), KeyAction::Nothing));
    assert_eq!(app.focus, Focus::Pane);
    app.handle_key(KeyPress { code: KeyCode::Char('b'), ctrl: true });
    assert_eq!(app.focus, Focus::Nav);
}

#[test]
fn spawn_form_editing_and_submit() {
    let mut app = ready(&[]);
    app.open_spawn_form("/bin/zsh".into());
    for c in "web".chars() {
        app.handle_key(key(KeyCode::Char(c)));
    }
    app.handle_key(key(KeyCode::Backspace));
    app.handle_key(key(KeyCode::Char('b')));
    app.handle_key(key(KeyCode::Tab));
    app.handle_key(key(KeyCode::Char(' ')));
    app.handle_key(key(KeyCode::Char('-')));
    app.handle_key(key(KeyCode::Char('l')));
    {
        let form = app.spawn_form.as_ref().unwrap();
        assert_eq!(form.field, SpawnField::Command);
        assert_eq!(form.name, "web");
        assert_eq!(form.command, "/bin/zsh -l");
    }
    assert!(matches!(app.handle_key(key(KeyCode::Enter)), KeyAction::SubmitSpawn));
    match app.submit_spawn() {
        Some(Request::Spawn { name, command }) => {
            assert_eq!(name, "web");
            assert_eq!(command, vec!["/bin/zsh".to_string(), "-l".to_string()]);
            app.apply_spawn(name, Ok(Response::ok()));
        }
        _ => panic!("expected a spawn request"),
    }
    assert_eq!(app.status_message.as_deref(), Some("spawned \"web\""));
    assert_eq!(app.selected_name.as_deref(), Some("web"));
    assert!(app.spawn_form.is_none());
    assert_eq!(app.focus, Focus::Pane);
}

#[test]
fn spawn_form_escape_and_blank_fields() {
    let mut app = ready(&[]);
    app.open_spawn_form("   ".into());
    app.handle_key(key(KeyCode::Char(' ')));
    assert!(app.submit_spawn().is_none());
    assert_eq!(app.status_message.as_deref(), Some("name and command are both required"));
    assert!(app.spawn_form.is_some());
    app.handle_key(key(KeyCode::Esc));
    assert!(app.spawn_form.is_none());
    assert!(app.submit_spawn().is_none());
}

#[test]
fn spawn_failures() {
    let mut app = ready(&[]);
    app.open_spawn_form("sh".into());
    app.apply_spawn("w".into(), Err("timed out".into()));
    assert_eq!(app.status_message.as_deref(), Some("spawn failed: timed out"));
    app.apply_spawn("w".into(), Ok(Response::err("pane \"w\" already exists".into())));
    assert_eq!(app.status_message.as_deref(), Some("pane \"w\" already exists"));
    assert!(app.spawn_form.is_some());
}

#[test]
fn kill_and_send_outcomes() {
    let mut app = ready(&["a"]);
    match app.kill_selected() {
        Some(Request::Kill { name }) => {
            app.apply_kill(&name, Ok(Response::ok()));
            assert_eq!(app.status_message.as_deref(), Some("killed \"a\""));
            app.apply_kill(&name, Err("broken pipe".into()));
            assert_eq!(app.status_message.as_deref(), Some("kill failed: broken pipe"));
        }
        _ => panic!("expected a kill request"),
    }
    match app.send_bytes(b"ls\r") {
        Some(Request::Send { name, text }) => {
            assert_eq!(name, "a");
            assert_eq!(text, "ls\r");
        }
        _ => panic!("expected a send request"),
    }
    app.status_message = None;
    app.apply_send(Ok(Response::err("ignored".into())));
    assert!(app.status_message.is_none());
    app.apply_send(Err("closed".into()));
    assert_eq!(app.status_message.as_deref(), Some("send failed: closed"));
    assert!(AppState::new().kill_selected().is_none());
    assert!(AppState::new().send_bytes(b"x").is_none());
}

#[test]
fn view_helpers() {
    let mut app = ready(&["web"]);
    assert_eq!(app.main_title(), " web · enter to focus ");
    assert_eq!(app.status_hint(), "↑/↓ select · enter focus · n spawn · x kill · o onboarding · q quit");
    assert_eq!(app.main_border(), app.palette.surface1);
    app.focus = Focus::Pane;
    assert_eq!(app.main_title(), " web · typing — ctrl+b to detach ");
    assert_eq!(app.status_hint(), "typing → pane · ctrl+b detach to nav");
    assert_eq!(app.main_border(), app.palette.accent);
    assert!(app.is_selected(&"web".to_string()));
    assert!(!app.is_selected(&"db".to_string()));
    app.open_spawn_form("sh".into());
    assert_eq!(app.status_hint(), "tab switch field · enter spawn · esc cancel");
    assert_eq!(AppState::new().main_title(), " no pane selected ");
}

#[test]
fn layout_helpers() {
    let area = Rect { x: 0, y: 0, width: 100, height: 40 };
    assert_eq!(centered_modal(area, 56, 9), Rect { x: 22, y: 15, width: 56, height: 9 });
    let small = Rect { x: 2, y: 1, width: 20, height: 6 };
    assert_eq!(centered_modal(small, 56, 9), Rect { x: 4, y: 3, width: 16, height: 2 });
    assert_eq!(visible_start(100, 30), 70);
    assert_eq!(visible_start(10, 30), 0);
    let p = Palette::catppuccin();
    assert_eq!(status_glyph(PaneStatus::Running, &p), ("◐", p.yellow));
    assert_eq!(status_glyph(PaneStatus::Exited { code: 0 }, &p), ("✓", p.green));
    assert_eq!(status_glyph(PaneStatus::Exited { code: 2 }, &p), ("⚠", p.red));
    assert_eq!(p.accent, Rgb { r: 137, g: 180, b: 250 });
    assert_eq!(p.peach, Rgb { r: 250, g: 179, b: 135 });
}

#[test]
fn sent_bytes_are_decoded_lossily() {
    let app = ready(&["a"]);
    match app.send_bytes(b"x\xc3y") {
        Some(Request::Send { name, text }) => {
            assert_eq!(name, "a");
            assert_eq!(text, "x\u{fffd}y");
        }
        _ => panic!("expected a send request"),
    }
}

#[test]
fn backspace_on_an_empty_field_changes_nothing() {
    let mut app = ready(&[]);
    app.open_spawn_form(String::new());
    assert!(matches!(app.handle_key(key(KeyCode::Backspace)), KeyAction::Nothing));
    let form = app.spawn_form.as_ref().unwrap();
    assert_eq!(form.name, "");
    assert_eq!(form.command, "");
}

#[test]
fn sidebar_rows_and_detail() {
    let mut app = AppState::new();
    let mut db = pane("db");
    db.status = PaneStatus::Exited { code: 3 };
    db.command = vec!["psql".into(), "-q".into()];
    app.refresh(Ok(Response::ok_with_panes(vec![pane("web"), db])));
    let p = app.palette;
    let first = app.pane_row(0);
    assert!(first.active);
    assert_eq!(first.background, p.active_row_bg);
    assert_eq!(first.foreground, p.text);
    assert_eq!((first.icon, first.icon_color), ("⚠", p.red));
    let second = app.pane_row(1);
    assert!(!second.active);
    assert_eq!(second.background, p.panel_bg);
    assert_eq!(second.foreground, p.subtext0);
    assert_eq!((second.icon, second.icon_color), ("◐", p.yellow));
    let detail = app.pane_detail().expect("a selected pane");
    assert_eq!((detail.icon, detail.color), ("⚠", p.red));
    assert_eq!(detail.status, "exited(3)");
    assert_eq!(detail.command, " psql -q");
    app.selected_name = Some("gone".into());
    assert!(app.pane_detail().is_none());
    assert!(AppState::new().pane_detail().is_none());
    assert_eq!(app.field_colors(true), (p.text, p.selection_bg));
    assert_eq!(app.field_colors(false), (p.text, p.surface0));
}
