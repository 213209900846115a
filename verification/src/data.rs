//! Sample agent data for drawing the terminal front end without a server:
//! agent states with their icons and labels, and a fixed set of workspaces,
//! tabs and panes.
use vstd::prelude::*;

verus! {

/// What an agent in a pane is doing.
#[derive(Clone, Copy, PartialEq, Eq, Structural, Debug)]
pub enum AgentState {
    Idle,
    Working,
    Blocked,
    Done,
}

pub open spec fn icon_of(state: AgentState) -> Seq<char> {
    match state {
        AgentState::Idle => "●"@,
        AgentState::Working => "◐"@,
        AgentState::Blocked => "⚠"@,
        AgentState::Done => "✓"@,
    }
}

pub open spec fn label_of(state: AgentState) -> Seq<char> {
    match state {
        AgentState::Idle => "idle"@,
        AgentState::Working => "working"@,
        AgentState::Blocked => "blocked"@,
        AgentState::Done => "done"@,
    }
}

impl AgentState {
    /// The glyph drawn for the state.
    pub fn icon(self) -> (s: &'static str)
        ensures
            s@ == icon_of(self),
    {
        match self {
            AgentState::Idle => "●",
            AgentState::Working => "◐",
            AgentState::Blocked => "⚠",
            AgentState::Done => "✓",
        }
    }

    /// The word shown for the state.
    pub fn label(self) -> (s: &'static str)
        ensures
            s@ == label_of(self),
    {
        match self {
            AgentState::Idle => "idle",
            AgentState::Working => "working",
            AgentState::Blocked => "blocked",
            AgentState::Done => "done",
        }
    }
}

pub struct MockPane {
    pub agent_name: &'static str,
    pub state: AgentState,
    pub content: Vec<&'static str>,
}

pub struct MockTab {
    pub name: &'static str,
    pub panes: Vec<MockPane>,
}

pub struct MockWorkspace {
    pub name: &'static str,
    pub branch: &'static str,
    pub ahead: u32,
    pub behind: u32,
    pub tabs: Vec<MockTab>,
}

pub struct MockPaneView {
    pub agent_name: Seq<char>,
    pub state: AgentState,
    pub content: Seq<Seq<char>>,
}

pub struct MockTabView {
    pub name: Seq<char>,
    pub panes: Seq<MockPaneView>,
}

pub struct MockWorkspaceView {
    pub name: Seq<char>,
    pub branch: Seq<char>,
    pub ahead: u32,
    pub behind: u32,
    pub tabs: Seq<MockTabView>,
}

pub open spec fn str_seqs(v: Seq<&'static str>) -> Seq<Seq<char>> {
    v.map_values(|s: &'static str| s@)
}

impl View for MockPane {
    type V = MockPaneView;

    open spec fn view(&self) -> MockPaneView {
        MockPaneView { agent_name: self.agent_name@, state: self.state, content: str_seqs(self.content@) }
    }
}

impl View for MockTab {
    type V = MockTabView;

    open spec fn view(&self) -> MockTabView {
        MockTabView { name: self.name@, panes: self.panes@.map_values(|p: MockPane| p@) }
    }
}

impl View for MockWorkspace {
    type V = MockWorkspaceView;

    open spec fn view(&self) -> MockWorkspaceView {
        MockWorkspaceView {
            name: self.name@,
            branch: self.branch@,
            ahead: self.ahead,
            behind: self.behind,
            tabs: self.tabs@.map_values(|t: MockTab| t@),
        }
    }
}

pub open spec fn pane_view(agent_name: Seq<char>, state: AgentState, content: Seq<Seq<char>>) -> MockPaneView {
    MockPaneView { agent_name, state, content }
}

pub open spec fn agent_build_pane() -> MockPaneView {
    pane_view(
        "agent"@,
        AgentState::Working,
        seq![
            "$ cargo build"@,
            "   Compiling sieg v0.1.0"@,
            "    Finished dev [unoptimized] target(s) in 4.2s"@,
            ""@,
            "> refactoring sidebar token layout..."@,
            "> editing src/ui/sidebar/tokens.rs"@,
        ],
    )
}

pub open spec fn shell_check_pane() -> MockPaneView {
    pane_view("shell"@, AgentState::Idle, seq!["$ just check"@, "waiting..."@])
}

pub open spec fn codex_test_pane() -> MockPaneView {
    pane_view(
        "codex"@,
        AgentState::Blocked,
        seq![
            "running cargo nextest..."@,
            ""@,
            "FAIL sidebar::tests::token_budget_shrinks"@,
            ""@,
            "needs input: overwrite fixture? [y/n]"@,
        ],
    )
}

pub open spec fn agent_done_pane() -> MockPaneView {
    pane_view(
        "agent"@,
        AgentState::Done,
        seq!["> onboarding flow updated"@, "> all tests passing"@, ""@, "$ "@],
    )
}

pub open spec fn idle_shell_pane() -> MockPaneView {
    pane_view("shell"@, AgentState::Idle, seq!["$ "@])
}

/// The sample workspaces: `sieg` (tabs `editor` and `tests`), `rhema-app` and
/// `docs-site`.
pub open spec fn mock_workspace_views() -> Seq<MockWorkspaceView> {
    seq![
        MockWorkspaceView {
            name: "sieg"@,
            branch: "master"@,
            ahead: 2,
            behind: 0,
            tabs: seq![
                MockTabView { name: "editor"@, panes: seq![agent_build_pane(), shell_check_pane()] },
                MockTabView { name: "tests"@, panes: seq![codex_test_pane()] },
            ],
        },
        MockWorkspaceView {
            name: "rhema-app"@,
            branch: "feature/onboarding"@,
            ahead: 0,
            behind: 1,
            tabs: seq![MockTabView { name: "main"@, panes: seq![agent_done_pane()] }],
        },
        MockWorkspaceView {
            name: "docs-site"@,
            branch: "main"@,
            ahead: 0,
            behind: 0,
            tabs: seq![MockTabView { name: "shell"@, panes: seq![idle_shell_pane()] }],
        },
    ]
}

fn mock_pane(agent_name: &'static str, state: AgentState, content: Vec<&'static str>) -> (p: MockPane)
    ensures
        p@ == pane_view(agent_name@, state, str_seqs(content@)),
{
    MockPane { agent_name, state, content }
}

fn mock_tab(name: &'static str, panes: Vec<MockPane>) -> (t: MockTab)
    ensures
        t@ == (MockTabView { name: name@, panes: panes@.map_values(|p: MockPane| p@) }),
{
    MockTab { name, panes }
}

/// The sample workspaces, tabs and panes.
pub fn mock_workspaces() -> (ws: Vec<MockWorkspace>)
    ensures
        ws@.map_values(|w: MockWorkspace| w@) == mock_workspace_views(),
{
    let c1 = vec![
        "$ cargo build",
        "   Compiling sieg v0.1.0",
        "    Finished dev [unoptimized] target(s) in 4.2s",
        "",
        "> refactoring sidebar token layout...",
        "> editing src/ui/sidebar/tokens.rs",
    ];
    assert(str_seqs(c1@) =~= agent_build_pane().content);
    let p1 = mock_pane("agent", AgentState::Working, c1);
    let c2 = vec!["$ just check", "waiting..."];
    assert(str_seqs(c2@) =~= shell_check_pane().content);
    let p2 = mock_pane("shell", AgentState::Idle, c2);
    let c3 = vec![
        "running cargo nextest...",
        "",
        "FAIL sidebar::tests::token_budget_shrinks",
        "",
        "needs input: overwrite fixture? [y/n]",
    ];
    assert(str_seqs(c3@) =~= codex_test_pane().content);
    let p3 = mock_pane("codex", AgentState::Blocked, c3);
    let c4 = vec!["> onboarding flow updated", "> all tests passing", "", "$ "];
    assert(str_seqs(c4@) =~= agent_done_pane().content);
    let p4 = mock_pane("agent", AgentState::Done, c4);
    let c5 = vec!["$ "];
    assert(str_seqs(c5@) =~= idle_shell_pane().content);
    let p5 = mock_pane("shell", AgentState::Idle, c5);
    let ghost (v1, v2, v3, v4, v5) = (p1@, p2@, p3@, p4@, p5@);
    let editor_panes = vec![p1, p2];
    assert(editor_panes@.map_values(|p: MockPane| p@) =~= seq![v1, v2]);
    let t1 = mock_tab("editor", editor_panes);
    let test_panes = vec![p3];
    assert(test_panes@.map_values(|p: MockPane| p@) =~= seq![v3]);
    let t2 = mock_tab("tests", test_panes);
    let main_panes = vec![p4];
    assert(main_panes@.map_values(|p: MockPane| p@) =~= seq![v4]);
    let t3 = mock_tab("main", main_panes);
    let shell_panes = vec![p5];
    assert(shell_panes@.map_values(|p: MockPane| p@) =~= seq![v5]);
    let t4 = mock_tab("shell", shell_panes);
    let ghost (u1, u2, u3, u4) = (t1@, t2@, t3@, t4@);
    let sieg_tabs = vec![t1, t2];
    assert(sieg_tabs@.map_values(|t: MockTab| t@) =~= seq![u1, u2]);
    let rhema_tabs = vec![t3];
    assert(rhema_tabs@.map_values(|t: MockTab| t@) =~= seq![u3]);
    let docs_tabs = vec![t4];
    assert(docs_tabs@.map_values(|t: MockTab| t@) =~= seq![u4]);
    let ws = vec![
        MockWorkspace { name: "sieg", branch: "master", ahead: 2, behind: 0, tabs: sieg_tabs },
        MockWorkspace {
            name: "rhema-app",
            branch: "feature/onboarding",
            ahead: 0,
            behind: 1,
            tabs: rhema_tabs,
        },
        MockWorkspace { name: "docs-site", branch: "main", ahead: 0, behind: 0, tabs: docs_tabs },
    ];
    assert(ws@.map_values(|w: MockWorkspace| w@) =~= mock_workspace_views());
    ws
}

} // verus!
