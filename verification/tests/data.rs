use sieg::data::{mock_workspaces, AgentState};
use sieg::protocol::Response;

#[test]
fn agent_state_icons_and_labels() {
    assert_eq!(AgentState::Idle.icon(), "●");
    assert_eq!(AgentState::Working.icon(), "◐");
    assert_eq!(AgentState::Blocked.icon(), "⚠");
    assert_eq!(AgentState::Done.icon(), "✓");
    assert_eq!(AgentState::Idle.label(), "idle");
    assert_eq!(AgentState::Working.label(), "working");
    assert_eq!(AgentState::Blocked.label(), "blocked");
    assert_eq!(AgentState::Done.label(), "done");
}

#[test]
fn mock_workspaces_hold_the_sample_data() {
    let ws = mock_workspaces();
    let names: Vec<&str> = ws.iter().map(|w| w.name).collect();
    assert_eq!(names, vec!["sieg", "rhema-app", "docs-site"]);
    assert_eq!((ws[0].branch, ws[0].ahead, ws[0].behind), ("master", 2, 0));
    assert_eq!((ws[1].branch, ws[1].ahead, ws[1].behind), ("feature/onboarding", 0, 1));
    assert_eq!(ws[0].tabs.len(), 2);
    assert_eq!(ws[0].tabs[0].panes[0].agent_name, "agent");
    assert_eq!(ws[0].tabs[0].panes[0].state, AgentState::Working);
    assert_eq!(ws[0].tabs[0].panes[0].content.len(), 6);
    assert_eq!(ws[0].tabs[1].panes[0].state, AgentState::Blocked);
    assert_eq!(ws[0].tabs[1].panes[0].content[4], "needs input: overwrite fixture? [y/n]");
    assert_eq!(ws[1].tabs[0].panes[0].state, AgentState::Done);
    assert_eq!(ws[2].tabs[0].name, "shell");
    assert_eq!(ws[2].tabs[0].panes[0].content, vec!["$ "]);
}

#[test]
fn response_constructors() {
    let ok = Response::ok();
    assert!(ok.ok && ok.error.is_none() && ok.panes.is_empty() && ok.output.is_none() && ok.cwd.is_none());
    let out = Response::ok_with_output("text".into(), Some("/tmp".into()));
    assert!(out.ok);
    assert_eq!(out.output.as_deref(), Some("text"));
    assert_eq!(out.cwd.as_deref(), Some("/tmp"));
    let err = Response::err("bad request".into());
    assert!(!err.ok);
    assert_eq!(err.error.as_deref(), Some("bad request"));
    let listed = Response::ok_with_panes(Vec::new());
    assert!(listed.ok && listed.panes.is_empty());
}
