//! The terminal front end's state and decisions: which pane is selected,
//! what a key press does, and how answers from the pane server update the
//! view. Talking to the server and drawing stay with the program; it asks
//! this module for the request to send and hands back what came of it.
use vstd::prelude::*;
use vstd::utf8::encode_utf8;

use crate::cli::{status_label, status_text};
use crate::order::{sort_by_name, sort_panes_by_name};
use crate::palette::{catppuccin_palette, Palette, Rgb};
use crate::protocol::{PaneInfo, PaneStatus, Request, Response};
use crate::server::info_names_distinct;
use crate::pty_text::{key_bytes, key_to_bytes, pty_lines, render_pty_lines, string_views, KeyCode};
use crate::text::{
    chars_of, debug_quoted, debug_text, join_strings, join_with, lossy_text, pop_char, push_char,
    split_words, string_of, string_seqs, trim, trim_chars, utf8_lossy, words,
};

verus! {

/// Where key presses go.
#[derive(Clone, Copy, PartialEq, Eq, Structural, Debug)]
pub enum Focus {
    /// Arrow keys move the sidebar selection; letters are commands.
    Nav,
    /// Keystrokes are forwarded to the selected pane's stdin.
    Pane,
}

/// The field of the spawn form being edited.
#[derive(Clone, Copy, PartialEq, Eq, Structural, Debug)]
pub enum SpawnField {
    Name,
    Command,
}

/// The "spawn pane" form.
pub struct SpawnForm {
    pub field: SpawnField,
    pub name: String,
    pub command: String,
}

/// The state of the terminal front end.
pub struct AppState {
    pub palette: Palette,
    pub show_onboarding: bool,
    pub focus: Focus,
    pub panes: Vec<PaneInfo>,
    pub selected_name: Option<String>,
    pub pane_lines: Vec<String>,
    pub spawn_form: Option<SpawnForm>,
    pub status_message: Option<String>,
}

/// The first place in `panes` where a pane is called `name`.
pub open spec fn position_of(panes: Seq<PaneInfo>, name: Seq<char>) -> Option<nat>
    decreases panes.len(),
{
    if panes.len() == 0 {
        None
    } else if panes[0].name@ == name {
        Some(0)
    } else {
        match position_of(panes.drop_first(), name) {
            Some(i) => Some(i + 1),
            None => None,
        }
    }
}

/// Where the selected pane stands in the list, if it is there.
pub open spec fn selected_position(s: AppState) -> Option<nat> {
    match s.selected_name {
        Some(n) => position_of(s.panes@, n@),
        None => None,
    }
}

/// The position the selection moves from: the selected pane's, else the first.
pub open spec fn current_position(s: AppState) -> int {
    match selected_position(s) {
        Some(i) => i as int,
        None => 0,
    }
}

/// `a` and `b` agree on everything but the selection.
pub open spec fn same_but_selection(a: AppState, b: AppState) -> bool {
    &&& a.palette == b.palette
    &&& a.show_onboarding == b.show_onboarding
    &&& a.focus == b.focus
    &&& a.panes == b.panes
    &&& a.pane_lines == b.pane_lines
    &&& a.spawn_form == b.spawn_form
    &&& a.status_message == b.status_message
}

/// `a` and `b` agree on everything but the status message.
pub open spec fn same_but_status(a: AppState, b: AppState) -> bool {
    &&& a.palette == b.palette
    &&& a.show_onboarding == b.show_onboarding
    &&& a.focus == b.focus
    &&& a.panes == b.panes
    &&& a.selected_name == b.selected_name
    &&& a.pane_lines == b.pane_lines
    &&& a.spawn_form == b.spawn_form
}

proof fn lemma_position_of(panes: Seq<PaneInfo>, name: Seq<char>)
    ensures
        position_of(panes, name) matches Some(i) ==> i < panes.len() && panes[i as int].name@
            == name && forall|k: int| 0 <= k < i ==> (#[trigger] panes[k]).name@ != name,
        position_of(panes, name) is None ==> forall|k: int|
            0 <= k < panes.len() ==> (#[trigger] panes[k]).name@ != name,
    decreases panes.len(),
{
    if panes.len() > 0 {
        lemma_position_of(panes.drop_first(), name);
        assert forall|k: int| 0 < k < panes.len() implies (#[trigger] panes[k]).name@
            == panes.drop_first()[k - 1].name@ by {}
    }
}

impl AppState {
    /// The state the front end starts in: onboarding shown, navigation
    /// focus, nothing fetched yet.
    pub fn new() -> (s: AppState)
        ensures
            s.palette == catppuccin_palette(),
            s.show_onboarding,
            s.focus == Focus::Nav,
            s.panes@.len() == 0,
            s.selected_name is None,
            s.pane_lines@.len() == 0,
            s.spawn_form is None,
            s.status_message is None,
    {
        AppState {
            palette: Palette::catppuccin(),
            show_onboarding: true,
            focus: Focus::Nav,
            panes: Vec::new(),
            selected_name: None,
            pane_lines: Vec::new(),
            spawn_form: None,
            status_message: None,
        }
    }

    /// Where the selected pane stands in the list.
    pub fn selected_index(&self) -> (r: Option<usize>)
        ensures
            match r {
                Some(i) => selected_position(*self) == Some(i as nat),
                None => selected_position(*self) is None,
            },
    {
        match &self.selected_name {
            None => None,
            Some(name) => {
                let mut i: usize = 0;
                proof {
                    lemma_position_of(self.panes@, name@);
                }
                while i < self.panes.len()
                    invariant
                        i <= self.panes.len(),
                        self.selected_name == Some(*name),
                        forall|k: int| 0 <= k < i ==> (#[trigger] self.panes@[k]).name@ != name@,
                    decreases self.panes.len() - i,
                {
                    if self.panes[i].name == *name {
                        proof {
                            lemma_position_of(self.panes@, name@);
                            match position_of(self.panes@, name@) {
                                Some(j) => {
                                    if j < i {
                                    } else if j > i {
                                        assert(self.panes@[i as int].name@ == name@);
                                    }
                                },
                                None => {
                                    assert(self.panes@[i as int].name@ == name@);
                                },
                            }
                        }
                        return Some(i);
                    }
                    i += 1;
                }
                None
            },
        }
    }

    /// Moves the selection `delta` places, wrapping around the list. Nothing
    /// happens when there are no panes.
    pub fn move_selection(&mut self, delta: i32)
        requires
            old(self).panes@.len() <= i32::MAX,
            i32::MIN <= current_position(*old(self)) + delta <= i32::MAX,
        ensures
            old(self).panes@.len() == 0 ==> *final(self) == *old(self),
            old(self).panes@.len() > 0 ==> same_but_selection(*final(self), *old(self)),
            old(self).panes@.len() > 0 ==> (final(self).selected_name matches Some(n) && n@
                == old(self).panes@[(current_position(*old(self)) + delta) % (
            old(self).panes@.len() as int)].name@),
    {
        if self.panes.len() == 0 {
            return;
        }
        let len = self.panes.len() as i64;
        let current: i64 = match self.selected_index() {
            Some(i) => i as i64,
            None => 0,
        };
        proof {
            lemma_position_of(self.panes@, match &self.selected_name { Some(n) => n@, None => Seq::empty() });
        }
        let x = current + delta as i64;
        let m: i64 = if x >= 0 {
            x % len
        } else {
            let r = (-x) % len;
            if r == 0 {
                0
            } else {
                len - r
            }
        };
        proof {
            let xi = x as int;
            let li = len as int;
            if x < 0 {
                let y = -xi;
                let q = y / li;
                let r = y % li;
                vstd::arithmetic::div_mod::lemma_fundamental_div_mod(y, li);
                vstd::arithmetic::div_mod::lemma_mod_bound(y, li);
                assert(y == li * q + r);
                if r == 0 {
                    assert(xi == (-q) * li + 0) by (nonlinear_arith)
                        requires
                            y == li * q + r,
                            r == 0,
                            xi == -y,
                    ;
                    vstd::arithmetic::div_mod::lemma_fundamental_div_mod_converse(xi, li, -q, 0);
                } else {
                    assert(xi == (-q - 1) * li + (li - r)) by (nonlinear_arith)
                        requires
                            y == li * q + r,
                            xi == -y,
                    ;
                    vstd::arithmetic::div_mod::lemma_fundamental_div_mod_converse(
                        xi,
                        li,
                        -q - 1,
                        li - r,
                    );
                }
            }
        }
        let next = m as usize;
        let name = self.panes[next].name.clone();
        self.selected_name = Some(name);
    }

    /// Takes in the answer to the pane-list request that starts each refresh
    /// (`Err` holds the text of the error that kept the request from the
    /// server), and gives the request for the selected pane's output that
    /// completes it (answered through `apply_read`).
    pub fn refresh(&mut self, outcome: Result<Response, String>) -> (r: Option<Request>)
        ensures
            match final(self).selected_name {
                Some(n) => r matches Some(Request::Read { name, lines }) && name == n && lines
                    is None,
                None => r is None,
            },
            match outcome {
                Ok(response) => if response.ok {
                    &&& final(self).panes@ == sort_by_name(response.panes@)
                    &&& final(self).selected_name == (if old(self).selected_name is Some {
                        old(self).selected_name
                    } else if response.panes@.len() > 0 {
                        Some(sort_by_name(response.panes@)[0].name)
                    } else {
                        None
                    })
                    &&& final(self).palette == old(self).palette
                    &&& final(self).show_onboarding == old(self).show_onboarding
                    &&& final(self).focus == old(self).focus
                    &&& final(self).pane_lines == old(self).pane_lines
                    &&& final(self).spawn_form == old(self).spawn_form
                    &&& final(self).status_message == old(self).status_message
                } else {
                    &&& same_but_status(*final(self), *old(self))
                    &&& final(self).status_message matches Some(m) && m@ == match response.error {
                        Some(e) => e@,
                        None => "failed to list panes"@,
                    }
                },
                Err(e) => same_but_status(*final(self), *old(self)) && (final(self).status_message matches Some(m) && m@ == "server unreachable: "@ + e@),
            },
    {
        match outcome {
            Ok(response) => {
                if response.ok {
                    let ghost given = response.panes@;
                    let panes = sort_panes_by_name(response.panes);
                    proof {
                        crate::order::lemma_sort_by_name(given);
                        given.to_multiset_ensures();
                        sort_by_name(given).to_multiset_ensures();
                    }
                    self.panes = panes;
                    if self.selected_name.is_none() {
                        if self.panes.len() > 0 {
                            self.selected_name = Some(self.panes[0].name.clone());
                        }
                    }
                } else {
                    self.status_message = match response.error {
                        Some(e) => Some(e),
                        None => Some(String::from_str("failed to list panes")),
                    };
                }
            },
            Err(e) => {
                let mut m = String::from_str("server unreachable: ");
                m.append(e.as_str());
                self.status_message = Some(m);
            },
        }
        self.read_request()
    }

    /// The request for the selected pane's output, if a pane is selected.
    pub fn read_request(&self) -> (r: Option<Request>)
        ensures
            match self.selected_name {
                Some(n) => r matches Some(Request::Read { name, lines }) && name == n && lines
                    is None,
                None => r is None,
            },
    {
        match &self.selected_name {
            Some(n) => Some(Request::Read { name: n.clone(), lines: None }),
            None => None,
        }
    }

    /// Takes in the answer to the output request (`None` when the request
    /// never reached the server): a successful answer is rendered into the
    /// pane's lines, anything else keeps the lines shown so far. With no
    /// pane selected there are no lines.
    pub fn apply_read(&mut self, outcome: Option<Response>)
        ensures
            final(self).palette == old(self).palette,
            final(self).show_onboarding == old(self).show_onboarding,
            final(self).focus == old(self).focus,
            final(self).panes == old(self).panes,
            final(self).selected_name == old(self).selected_name,
            final(self).spawn_form == old(self).spawn_form,
            final(self).status_message == old(self).status_message,
            old(self).selected_name is None ==> final(self).pane_lines@.len() == 0,
            old(self).selected_name is Some ==> match outcome {
                Some(r) => if r.ok {
                    string_views(final(self).pane_lines@) == pty_lines(
                        encode_utf8(
                            match r.output {
                                Some(o) => o@,
                                None => Seq::<char>::empty(),
                            },
                        ),
                    )
                } else {
                    final(self).pane_lines == old(self).pane_lines
                },
                None => final(self).pane_lines == old(self).pane_lines,
            },
    {
        if self.selected_name.is_none() {
            self.pane_lines = Vec::new();
            return;
        }
        match outcome {
            Some(r) => {
                if r.ok {
                    let output = match r.output {
                        Some(o) => o,
                        None => String::new(),
                    };
                    self.pane_lines = render_pty_lines(output.as_str().as_bytes());
                }
            },
            None => {},
        }
    }
}

/// What a key press asks the program to do, beyond what `handle_key` already
/// changed in the state.
pub enum KeyAction {
    Nothing,
    /// Leave the front end.
    Quit,
    /// Open the spawn form (with the default command filled in).
    OpenSpawnForm,
    /// Submit the spawn form (`submit_spawn`, then `apply_spawn`).
    SubmitSpawn,
    /// Kill the selected pane (`kill_selected`, then `apply_kill`).
    KillSelected,
    /// Send these bytes to the selected pane (`send_bytes`, then `apply_send`).
    SendBytes(Vec<u8>),
}

/// A key press: the key, and whether Ctrl was held.
#[derive(Clone, Copy, PartialEq, Eq, Structural, Debug)]
pub struct KeyPress {
    pub code: KeyCode,
    pub ctrl: bool,
}

/// `m` is `prefix` followed by the server's message, or the message itself
/// when the answer was a failure; the status line after an action.
pub open spec fn outcome_status(
    outcome: Result<Response, String>,
    success: Seq<char>,
    failure_prefix: Seq<char>,
) -> Option<Seq<char>> {
    match outcome {
        Ok(r) => if r.ok {
            Some(success)
        } else {
            match r.error {
                Some(e) => Some(e@),
                None => None,
            }
        },
        Err(e) => Some(failure_prefix + e@),
    }
}

pub open spec fn opt_view(s: Option<String>) -> Option<Seq<char>> {
    match s {
        Some(t) => Some(t@),
        None => None,
    }
}

fn message_with(prefix: &str, text: &str) -> (s: String)
    ensures
        s@ == prefix@ + text@,
{
    let mut s = String::from_str(prefix);
    s.append(text);
    s
}

impl AppState {
    /// The request that kills the selected pane, if one is selected.
    pub fn kill_selected(&self) -> (r: Option<Request>)
        ensures
            match self.selected_name {
                Some(n) => r matches Some(Request::Kill { name }) && name == n,
                None => r is None,
            },
    {
        match &self.selected_name {
            Some(n) => Some(Request::Kill { name: n.clone() }),
            None => None,
        }
    }

    /// Takes in what came of killing pane `name`: the status line says
    /// `killed "<name>"`, the server's error, or why the request failed.
    pub fn apply_kill(&mut self, name: &String, outcome: Result<Response, String>)
        ensures
            same_but_status(*final(self), *old(self)),
            opt_view(final(self).status_message) == outcome_status(
                outcome,
                "killed "@ + debug_quoted(name@),
                "kill failed: "@,
            ),
    {
        match outcome {
            Ok(r) => {
                if r.ok {
                    let d = debug_text(name.as_str());
                    self.status_message = Some(message_with("killed ", d.as_str()));
                } else {
                    self.status_message = r.error;
                }
            },
            Err(e) => {
                self.status_message = Some(message_with("kill failed: ", e.as_str()));
            },
        }
    }

    /// Checks the spawn form. With no form open nothing happens; with a blank
    /// name (after trimming) or no command word the status line asks for both;
    /// otherwise the spawn request for the trimmed name and the command's
    /// whitespace-separated words.
    pub fn submit_spawn(&mut self) -> (r: Option<Request>)
        ensures
            match old(self).spawn_form {
                None => r is None && *final(self) == *old(self),
                Some(form) => if trim(form.name@).len() == 0 || words(form.command@).len() == 0 {
                    &&& r is None
                    &&& same_but_status(*final(self), *old(self))
                    &&& opt_view(final(self).status_message) == Some(
                        "name and command are both required"@,
                    )
                } else {
                    &&& *final(self) == *old(self)
                    &&& r matches Some(Request::Spawn { name, command }) && name@ == trim(
                        form.name@,
                    ) && string_seqs(command@) == words(form.command@)
                },
            },
    {
        match &self.spawn_form {
            None => None,
            Some(form) => {
                let cs = chars_of(form.name.as_str());
                let trimmed = trim_chars(&cs);
                let name = string_of(&trimmed);
                let command = split_words(form.command.as_str());
                if name.unicode_len() == 0 || command.len() == 0 {
                    self.status_message = Some(
                        String::from_str("name and command are both required"),
                    );
                    return None;
                }
                Some(Request::Spawn { name, command })
            },
        }
    }

    /// Takes in what came of spawning pane `name`. On success the new pane is
    /// selected and focused and the form closes; otherwise only the status
    /// line changes.
    pub fn apply_spawn(&mut self, name: String, outcome: Result<Response, String>)
        ensures
            opt_view(final(self).status_message) == outcome_status(
                outcome,
                "spawned "@ + debug_quoted(name@),
                "spawn failed: "@,
            ),
            (outcome matches Ok(r) && r.ok) ==> {
                &&& final(self).selected_name == Some(name)
                &&& final(self).spawn_form is None
                &&& final(self).focus == Focus::Pane
                &&& final(self).palette == old(self).palette
                &&& final(self).show_onboarding == old(self).show_onboarding
                &&& final(self).panes == old(self).panes
                &&& final(self).pane_lines == old(self).pane_lines
            },
            !(outcome matches Ok(r) && r.ok) ==> same_but_status(*final(self), *old(self)),
    {
        match outcome {
            Ok(r) => {
                if r.ok {
                    let d = debug_text(name.as_str());
                    self.status_message = Some(message_with("spawned ", d.as_str()));
                    self.selected_name = Some(name);
                    self.spawn_form = None;
                    self.focus = Focus::Pane;
                } else {
                    self.status_message = r.error;
                }
            },
            Err(e) => {
                self.status_message = Some(message_with("spawn failed: ", e.as_str()));
            },
        }
    }

    /// The request that sends `bytes` (decoded as UTF-8, invalid sequences
    /// replaced) to the selected pane, if one is selected.
    pub fn send_bytes(&self, bytes: &[u8]) -> (r: Option<Request>)
        ensures
            match self.selected_name {
                Some(n) => r matches Some(Request::Send { name, text }) && name == n && text@
                    == utf8_lossy(bytes@),
                None => r is None,
            },
    {
        match &self.selected_name {
            Some(n) => Some(Request::Send { name: n.clone(), text: lossy_text(bytes) }),
            None => None,
        }
    }

    /// Takes in what came of sending input: only a request that never reached
    /// the server shows (`send failed: ...`); the server's answer is not shown.
    pub fn apply_send(&mut self, outcome: Result<Response, String>)
        ensures
            same_but_status(*final(self), *old(self)),
            match outcome {
                Ok(_) => final(self).status_message == old(self).status_message,
                Err(e) => opt_view(final(self).status_message) == Some("send failed: "@ + e@),
            },
    {
        if let Err(e) = outcome {
            self.status_message = Some(message_with("send failed: ", e.as_str()));
        }
    }

    /// Opens the spawn form on its name field, with `command` as the command.
    pub fn open_spawn_form(&mut self, command: String)
        ensures
            final(self).spawn_form matches Some(f) && f.field == SpawnField::Name && f.name@.len()
                == 0 && f.command == command,
            final(self).palette == old(self).palette,
            final(self).show_onboarding == old(self).show_onboarding,
            final(self).focus == old(self).focus,
            final(self).panes == old(self).panes,
            final(self).selected_name == old(self).selected_name,
            final(self).pane_lines == old(self).pane_lines,
            final(self).status_message == old(self).status_message,
    {
        self.spawn_form = Some(SpawnForm { field: SpawnField::Name, name: String::new(), command });
    }
}

/// `a` and `b` agree on everything but the spawn form.
pub open spec fn same_but_form(a: AppState, b: AppState) -> bool {
    &&& a.palette == b.palette
    &&& a.show_onboarding == b.show_onboarding
    &&& a.focus == b.focus
    &&& a.panes == b.panes
    &&& a.selected_name == b.selected_name
    &&& a.pane_lines == b.pane_lines
    &&& a.status_message == b.status_message
}

/// `a` is `b` with `show_onboarding` set to `show`.
pub open spec fn onboarding_set(a: AppState, b: AppState, show: bool) -> bool {
    &&& a.palette == b.palette
    &&& a.show_onboarding == show
    &&& a.focus == b.focus
    &&& a.panes == b.panes
    &&& a.selected_name == b.selected_name
    &&& a.pane_lines == b.pane_lines
    &&& a.spawn_form == b.spawn_form
    &&& a.status_message == b.status_message
}

/// `a` is `b` with the focus set to `focus`.
pub open spec fn focus_set(a: AppState, b: AppState, focus: Focus) -> bool {
    &&& a.palette == b.palette
    &&& a.show_onboarding == b.show_onboarding
    &&& a.focus == focus
    &&& a.panes == b.panes
    &&& a.selected_name == b.selected_name
    &&& a.pane_lines == b.pane_lines
    &&& a.spawn_form == b.spawn_form
    &&& a.status_message == b.status_message
}

/// `a` is `b` with the selection moved `delta` places (wrapping), or `b`
/// itself when there are no panes.
pub open spec fn selection_moved(a: AppState, b: AppState, delta: int) -> bool {
    &&& b.panes@.len() == 0 ==> a == b
    &&& b.panes@.len() > 0 ==> same_but_selection(a, b) && (a.selected_name matches Some(n) && n@
        == b.panes@[(current_position(b) + delta) % (b.panes@.len() as int)].name@)
}

pub open spec fn other_field(f: SpawnField) -> SpawnField {
    match f {
        SpawnField::Name => SpawnField::Command,
        SpawnField::Command => SpawnField::Name,
    }
}

/// The text without its last character (unchanged when empty).
pub open spec fn backspaced(t: Seq<char>) -> Seq<char> {
    if t.len() == 0 {
        t
    } else {
        t.drop_last()
    }
}

/// The form `g` is `form` with its active field's text changed by `edit`.
pub open spec fn form_edited(g: SpawnForm, form: SpawnForm, edited: Seq<char>) -> bool {
    &&& g.field == form.field
    &&& form.field == SpawnField::Name ==> g.name@ == edited && g.command == form.command
    &&& form.field == SpawnField::Command ==> g.command@ == edited && g.name == form.name
}

/// A key while the spawn form is open: `Esc` closes it, `Tab` switches field,
/// `Enter` submits, backspace and characters edit the active field.
pub open spec fn form_key(o: AppState, f: AppState, key: KeyPress, a: KeyAction) -> bool {
    let form = o.spawn_form->0;
    match key.code {
        KeyCode::Esc => a is Nothing && f.spawn_form is None && same_but_form(f, o),
        KeyCode::Tab => a is Nothing && same_but_form(f, o) && (f.spawn_form matches Some(g)
            && g.field == other_field(form.field) && g.name == form.name && g.command
            == form.command),
        KeyCode::Enter => a is SubmitSpawn && f == o,
        KeyCode::Backspace => a is Nothing && same_but_form(f, o) && (f.spawn_form matches Some(g)
            && form_edited(
            g,
            form,
            backspaced(
                if form.field == SpawnField::Name {
                    form.name@
                } else {
                    form.command@
                },
            ),
        )),
        KeyCode::Char(c) => a is Nothing && same_but_form(f, o) && (f.spawn_form matches Some(g)
            && form_edited(
            g,
            form,
            (if form.field == SpawnField::Name {
                form.name@
            } else {
                form.command@
            }).push(c),
        )),
        _ => a is Nothing && f == o,
    }
}

/// A key while onboarding is shown: `o` or `Esc` hides it, `q` quits.
pub open spec fn onboarding_key(o: AppState, f: AppState, key: KeyPress, a: KeyAction) -> bool {
    match key.code {
        KeyCode::Char(c) => if c == 'o' {
            a is Nothing && onboarding_set(f, o, false)
        } else if c == 'q' {
            a is Quit && f == o
        } else {
            a is Nothing && f == o
        },
        KeyCode::Esc => a is Nothing && onboarding_set(f, o, false),
        _ => a is Nothing && f == o,
    }
}

/// A key in navigation: `q` quits, `o` shows onboarding, up/`k` and down/`j`
/// move the selection, `Enter` focuses the selected pane, `n` opens the spawn
/// form, `x` kills the selected pane.
pub open spec fn nav_key(o: AppState, f: AppState, key: KeyPress, a: KeyAction) -> bool {
    match key.code {
        KeyCode::Char(c) => if c == 'q' {
            a is Quit && f == o
        } else if c == 'o' {
            a is Nothing && onboarding_set(f, o, true)
        } else if c == 'k' {
            a is Nothing && selection_moved(f, o, -1)
        } else if c == 'j' {
            a is Nothing && selection_moved(f, o, 1)
        } else if c == 'n' {
            a is OpenSpawnForm && f == o
        } else if c == 'x' {
            a is KillSelected && f == o
        } else {
            a is Nothing && f == o
        },
        KeyCode::Up => a is Nothing && selection_moved(f, o, -1),
        KeyCode::Down => a is Nothing && selection_moved(f, o, 1),
        KeyCode::Enter => a is Nothing && if o.selected_name is Some {
            focus_set(f, o, Focus::Pane)
        } else {
            f == o
        },
        _ => a is Nothing && f == o,
    }
}

proof fn lemma_wrap(i: int, n: int)
    requires
        0 <= i < n,
    ensures
        0 <= (i + 1) % n < n,
        0 <= (i - 1) % n < n,
        (i - 1) % n == (i + n - 1) % n,
        ((i - 1) % n + 1) % n == i,
        ((i + 1) % n - 1) % n == i,
{
    vstd::arithmetic::div_mod::lemma_mod_add_multiples_vanish(i - 1, n);
    assert(n + (i - 1) == i + n - 1);
    vstd::arithmetic::div_mod::lemma_mod_self_0(n);
    if i >= 1 {
        vstd::arithmetic::div_mod::lemma_small_mod((i - 1) as nat, n as nat);
        vstd::arithmetic::div_mod::lemma_small_mod(i as nat, n as nat);
    } else {
        vstd::arithmetic::div_mod::lemma_small_mod((n - 1) as nat, n as nat);
        assert(((i - 1) % n + 1) == n);
    }
    if i + 1 < n {
        vstd::arithmetic::div_mod::lemma_small_mod((i + 1) as nat, n as nat);
        vstd::arithmetic::div_mod::lemma_small_mod(i as nat, n as nat);
    } else {
        assert((i + 1) % n == 0);
        vstd::arithmetic::div_mod::lemma_mod_add_multiples_vanish(-1, n);
        vstd::arithmetic::div_mod::lemma_small_mod((n - 1) as nat, n as nat);
    }
}

proof fn lemma_position_of_distinct(panes: Seq<PaneInfo>, j: int)
    requires
        info_names_distinct(panes),
        0 <= j < panes.len(),
    ensures
        position_of(panes, panes[j].name@) == Some(j as nat),
{
    lemma_position_of(panes, panes[j].name@);
    match position_of(panes, panes[j].name@) {
        Some(p) => {
            if p as int != j {
                assert(panes[p as int].name@ == panes[j].name@);
            }
        },
        None => {
            assert(panes[j].name@ == panes[j].name@);
        },
    }
}

/// Law: in navigation, Up and `k` select the pane before the current one, and
/// Down and `j` the pane after it, wrapping around the list: from position `i`
/// of `n` panes, Up lands on `(i + n - 1) % n` and Down on `(i + 1) % n`.
/// Nothing else changes, and no further action is asked for.
pub proof fn lemma_nav_arrows(o: AppState, f: AppState, key: KeyPress, a: KeyAction)
    requires
        nav_key(o, f, key, a),
        o.panes@.len() > 0,
        key.code == KeyCode::Up || key.code == KeyCode::Down || key.code == KeyCode::Char('k')
            || key.code == KeyCode::Char('j'),
    ensures
        ({
            let n = o.panes@.len() as int;
            let i = current_position(o);
            let target = if key.code == KeyCode::Up || key.code == KeyCode::Char('k') {
                (i + n - 1) % n
            } else {
                (i + 1) % n
            };
            &&& a is Nothing
            &&& same_but_selection(f, o)
            &&& 0 <= i < n
            &&& 0 <= target < n
            &&& opt_view(f.selected_name) == Some(o.panes@[target].name@)
        }),
{
    lemma_position_of(
        o.panes@,
        match o.selected_name {
            Some(n) => n@,
            None => Seq::empty(),
        },
    );
    lemma_wrap(current_position(o), o.panes@.len() as int);
}

/// Law: in navigation, Down undoes Up and Up undoes Down. With distinct pane
/// names and the selected pane in the list, pressing one and then the other
/// selects again the pane that was selected before.
pub proof fn lemma_nav_up_down_inverse(
    o: AppState,
    m: AppState,
    f: AppState,
    k1: KeyPress,
    a1: KeyAction,
    k2: KeyPress,
    a2: KeyAction,
)
    requires
        nav_key(o, m, k1, a1),
        nav_key(m, f, k2, a2),
        (k1.code == KeyCode::Up && k2.code == KeyCode::Down) || (k1.code == KeyCode::Down
            && k2.code == KeyCode::Up),
        info_names_distinct(o.panes@),
        selected_position(o) is Some,
    ensures
        opt_view(f.selected_name) == opt_view(o.selected_name),
        f.panes == o.panes,
{
    let n = o.panes@.len() as int;
    lemma_nav_arrows(o, m, k1, a1);
    let i = current_position(o);
    lemma_position_of(o.panes@, o.selected_name->0@);
    let j = if k1.code == KeyCode::Up {
        (i + n - 1) % n
    } else {
        (i + 1) % n
    };
    lemma_position_of_distinct(o.panes@, j);
    assert(m.panes == o.panes);
    assert(current_position(m) == j);
    lemma_nav_arrows(m, f, k2, a2);
    lemma_wrap(i, n);
}

/// A key in pane focus: `ctrl+b` detaches to navigation; any other key with a
/// raw-byte mapping is sent to the pane as those bytes.
pub open spec fn pane_key(o: AppState, f: AppState, key: KeyPress, a: KeyAction) -> bool {
    if key.ctrl && key.code == KeyCode::Char('b') {
        a is Nothing && focus_set(f, o, Focus::Nav)
    } else {
        f == o && match key_bytes(key.code, key.ctrl) {
            Some(b) => a matches KeyAction::SendBytes(v) && v@ == b,
            None => a is Nothing,
        }
    }
}

impl AppState {
    /// Decides what a key press does: the spawn form takes keys first, then
    /// the onboarding overlay, then navigation or the focused pane.
    pub fn handle_key(&mut self, key: KeyPress) -> (a: KeyAction)
        requires
            old(self).panes@.len() <= i32::MAX,
        ensures
            old(self).spawn_form is Some ==> form_key(*old(self), *final(self), key, a),
            old(self).spawn_form is None && old(self).show_onboarding ==> onboarding_key(
                *old(self),
                *final(self),
                key,
                a,
            ),
            old(self).spawn_form is None && !old(self).show_onboarding && old(self).focus
                == Focus::Nav ==> nav_key(*old(self), *final(self), key, a),
            old(self).spawn_form is None && !old(self).show_onboarding && old(self).focus
                == Focus::Pane ==> pane_key(*old(self), *final(self), key, a),
    {
        if self.spawn_form.is_some() {
            let mut form = match self.spawn_form.take() {
                Some(f) => f,
                None => {
                    return KeyAction::Nothing;
                },
            };
            match key.code {
                KeyCode::Esc => {
                    return KeyAction::Nothing;
                },
                KeyCode::Tab => {
                    form.field = match form.field {
                        SpawnField::Name => SpawnField::Command,
                        SpawnField::Command => SpawnField::Name,
                    };
                },
                KeyCode::Enter => {
                    self.spawn_form = Some(form);
                    return KeyAction::SubmitSpawn;
                },
                KeyCode::Backspace => {
                    match form.field {
                        SpawnField::Name => {
                            pop_char(&mut form.name);
                        },
                        SpawnField::Command => {
                            pop_char(&mut form.command);
                        },
                    }
                },
                KeyCode::Char(c) => {
                    match form.field {
                        SpawnField::Name => push_char(&mut form.name, c),
                        SpawnField::Command => push_char(&mut form.command, c),
                    }
                },
                _ => {},
            }
            self.spawn_form = Some(form);
            return KeyAction::Nothing;
        }
        if self.show_onboarding {
            match key.code {
                KeyCode::Char(c) => {
                    if c == 'o' {
                        self.show_onboarding = false;
                    } else if c == 'q' {
                        return KeyAction::Quit;
                    }
                },
                KeyCode::Esc => {
                    self.show_onboarding = false;
                },
                _ => {},
            }
            return KeyAction::Nothing;
        }
        proof {
            lemma_position_of(
                self.panes@,
                match &self.selected_name {
                    Some(n) => n@,
                    None => Seq::empty(),
                },
            );
        }
        match self.focus {
            Focus::Nav => {
                match key.code {
                    KeyCode::Char(c) => {
                        if c == 'q' {
                            return KeyAction::Quit;
                        } else if c == 'o' {
                            self.show_onboarding = true;
                        } else if c == 'k' {
                            self.move_selection(-1);
                        } else if c == 'j' {
                            self.move_selection(1);
                        } else if c == 'n' {
                            return KeyAction::OpenSpawnForm;
                        } else if c == 'x' {
                            return KeyAction::KillSelected;
                        }
                    },
                    KeyCode::Up => self.move_selection(-1),
                    KeyCode::Down => self.move_selection(1),
                    KeyCode::Enter => {
                        if self.selected_name.is_some() {
                            self.focus = Focus::Pane;
                        }
                    },
                    _ => {},
                }
                KeyAction::Nothing
            },
            Focus::Pane => {
                if key.ctrl && key.code == KeyCode::Char('b') {
                    self.focus = Focus::Nav;
                    return KeyAction::Nothing;
                }
                match key_to_bytes(key.code, key.ctrl) {
                    Some(bytes) => KeyAction::SendBytes(bytes),
                    None => KeyAction::Nothing,
                }
            },
        }
    }
}

/// A screen rectangle in cells.
#[derive(Clone, Copy, PartialEq, Eq, Structural, Debug)]
pub struct Rect {
    pub x: u16,
    pub y: u16,
    pub width: u16,
    pub height: u16,
}

pub open spec fn sat_sub(a: int, b: int) -> int {
    if a > b {
        a - b
    } else {
        0
    }
}

pub open spec fn min_int(a: int, b: int) -> int {
    if a < b {
        a
    } else {
        b
    }
}

/// A modal of at most `width` x `height` cells, centred in `area` with a
/// margin of 2 cells on each side.
pub open spec fn modal_area(area: Rect, width: int, height: int) -> Rect {
    let w = min_int(width, sat_sub(area.width as int, 4));
    let h = min_int(height, sat_sub(area.height as int, 4));
    Rect {
        x: (area.x + sat_sub(area.width as int, w) / 2) as u16,
        y: (area.y + sat_sub(area.height as int, h) / 2) as u16,
        width: w as u16,
        height: h as u16,
    }
}

/// Where a modal of at most `width` x `height` cells goes in `area`.
pub fn centered_modal(area: Rect, width: u16, height: u16) -> (r: Rect)
    requires
        area.x + area.width <= u16::MAX,
        area.y + area.height <= u16::MAX,
    ensures
        r == modal_area(area, width as int, height as int),
{
    let w = if width < area.width.saturating_sub(4) {
        width
    } else {
        area.width.saturating_sub(4)
    };
    let h = if height < area.height.saturating_sub(4) {
        height
    } else {
        area.height.saturating_sub(4)
    };
    let x = area.x + area.width.saturating_sub(w) / 2;
    let y = area.y + area.height.saturating_sub(h) / 2;
    Rect { x, y, width: w, height: h }
}

/// The first of `len` lines shown in a view `height` lines tall: the view
/// shows the newest lines.
pub fn visible_start(len: usize, height: usize) -> (start: usize)
    ensures
        start == sat_sub(len as int, height as int),
{
    len.saturating_sub(height)
}

/// The glyph of a pane's status and its colour: running, exited cleanly, or
/// exited with an error.
pub open spec fn glyph_of(status: PaneStatus, p: Palette) -> (Seq<char>, Rgb) {
    match status {
        PaneStatus::Running => ("◐"@, p.yellow),
        PaneStatus::Exited { code } => if code == 0 {
            ("✓"@, p.green)
        } else {
            ("⚠"@, p.red)
        },
    }
}

pub fn status_glyph(status: PaneStatus, p: &Palette) -> (r: (&'static str, Rgb))
    ensures
        (r.0@, r.1) == glyph_of(status, *p),
{
    match status {
        PaneStatus::Running => ("◐", p.yellow),
        PaneStatus::Exited { code } => if code == 0 {
            ("✓", p.green)
        } else {
            ("⚠", p.red)
        },
    }
}

/// The title of the main view.
pub open spec fn title_of(s: AppState) -> Seq<char> {
    match s.selected_name {
        Some(name) => " "@ + name@ + " · "@ + (if s.focus == Focus::Pane {
            "typing — ctrl+b to detach"@
        } else {
            "enter to focus"@
        }) + " "@,
        None => " no pane selected "@,
    }
}

/// The key hints of the status bar.
pub open spec fn hint_of(s: AppState) -> Seq<char> {
    if s.spawn_form is Some {
        "tab switch field · enter spawn · esc cancel"@
    } else if s.focus == Focus::Nav {
        "↑/↓ select · enter focus · n spawn · x kill · o onboarding · q quit"@
    } else {
        "typing → pane · ctrl+b detach to nav"@
    }
}

impl AppState {
    /// The title of the main view: the selected pane and what keys do there.
    pub fn main_title(&self) -> (t: String)
        ensures
            t@ == title_of(*self),
    {
        match &self.selected_name {
            Some(name) => {
                let mut t = String::from_str(" ");
                t.append(name.as_str());
                t.append(" · ");
                if self.focus == Focus::Pane {
                    t.append("typing — ctrl+b to detach");
                } else {
                    t.append("enter to focus");
                }
                t.append(" ");
                t
            },
            None => String::from_str(" no pane selected "),
        }
    }

    /// The key hints of the status bar.
    pub fn status_hint(&self) -> (h: &'static str)
        ensures
            h@ == hint_of(*self),
    {
        if self.spawn_form.is_some() {
            "tab switch field · enter spawn · esc cancel"
        } else if self.focus == Focus::Nav {
            "↑/↓ select · enter focus · n spawn · x kill · o onboarding · q quit"
        } else {
            "typing → pane · ctrl+b detach to nav"
        }
    }

    /// The border colour of the main view: the accent while typing into a pane.
    pub fn main_border(&self) -> (c: Rgb)
        ensures
            c == (if self.focus == Focus::Pane {
                self.palette.accent
            } else {
                self.palette.surface1
            }),
    {
        if self.focus == Focus::Pane {
            self.palette.accent
        } else {
            self.palette.surface1
        }
    }

    /// Whether `name` is the selected pane (its sidebar row is highlighted).
    pub fn is_selected(&self, name: &String) -> (b: bool)
        ensures
            b == (self.selected_name matches Some(n) && n@ == name@),
    {
        match &self.selected_name {
            Some(n) => *n == *name,
            None => false,
        }
    }
}

/// How one row of the sidebar's pane list is drawn; the selected pane's row
/// is highlighted and its name set in bold.
pub struct PaneRow {
    pub active: bool,
    pub background: Rgb,
    pub icon: &'static str,
    pub icon_color: Rgb,
    pub foreground: Rgb,
}

/// The sidebar's detail of the selected pane: its status glyph and colour,
/// its status text and its command line.
pub struct PaneDetail {
    pub icon: &'static str,
    pub color: Rgb,
    pub status: String,
    pub command: String,
}

impl AppState {
    /// How the row of the `i`-th pane is drawn.
    pub fn pane_row(&self, i: usize) -> (r: PaneRow)
        requires
            i < self.panes@.len(),
        ensures
            r.active == (self.selected_name matches Some(n) && n@ == self.panes@[i as int].name@),
            r.background == (if r.active {
                self.palette.active_row_bg
            } else {
                self.palette.panel_bg
            }),
            (r.icon@, r.icon_color) == glyph_of(self.panes@[i as int].status, self.palette),
            r.foreground == (if r.active {
                self.palette.text
            } else {
                self.palette.subtext0
            }),
    {
        let pane = &self.panes[i];
        let active = self.is_selected(&pane.name);
        let (icon, icon_color) = status_glyph(pane.status, &self.palette);
        PaneRow {
            active,
            background: if active {
                self.palette.active_row_bg
            } else {
                self.palette.panel_bg
            },
            icon,
            icon_color,
            foreground: if active {
                self.palette.text
            } else {
                self.palette.subtext0
            },
        }
    }

    /// The detail of the selected pane, if it is in the list.
    pub fn pane_detail(&self) -> (d: Option<PaneDetail>)
        ensures
            match selected_position(*self) {
                None => d is None,
                Some(i) => d matches Some(x) && (x.icon@, x.color) == glyph_of(
                    self.panes@[i as int].status,
                    self.palette,
                ) && x.status@ == status_label(self.panes@[i as int].status) && x.command@ == " "@
                    + join_with(string_seqs(self.panes@[i as int].command@), " "@),
            },
    {
        match self.selected_index() {
            None => None,
            Some(i) => {
                proof {
                    lemma_position_of(
                        self.panes@,
                        match &self.selected_name {
                            Some(n) => n@,
                            None => Seq::empty(),
                        },
                    );
                }
                let pane = &self.panes[i];
                let (icon, color) = status_glyph(pane.status, &self.palette);
                let mut command = String::from_str(" ");
                let joined = join_strings(&pane.command, " ");
                command.append(joined.as_str());
                Some(PaneDetail { icon, color, status: status_text(pane.status), command })
            },
        }
    }

    /// The colours of a spawn-form field: text on the selection colour while
    /// it is being edited, on `surface0` otherwise.
    pub fn field_colors(&self, editing: bool) -> (c: (Rgb, Rgb))
        ensures
            c == (self.palette.text, if editing {
                self.palette.selection_bg
            } else {
                self.palette.surface0
            }),
    {
        (self.palette.text, if editing {
            self.palette.selection_bg
        } else {
            self.palette.surface0
        })
    }
}

} // verus!
