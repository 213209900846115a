//! The pane manager's bookkeeping: a flat name-to-pane registry, the capped
//! output buffer of each pane, and the decision of what each request asks for.
//!
//! The processes, terminals and the socket stay with the program around this
//! library; it hands the registry plain values (output chunks, exit codes,
//! process ids) and carries out the actions that `handle_request` returns.
use vstd::prelude::*;

use crate::protocol::{is_error_response, is_ok_response, PaneInfo, PaneStatus, Request, Response};
use crate::text::{
    clone_strings, debug_quoted, debug_text, lossy_text, string_seqs, tail_lines, tail_text,
    text_lines, text_lines_exec, utf8_lossy, string_of,
};

verus! {

/// Cap on buffered pane output, so that a chatty background process can't
/// grow server memory unbounded; the oldest bytes are dropped first.
pub const MAX_OUTPUT_BYTES: usize = 200_000;

/// What the server keeps of one pane.
pub struct PaneRecord {
    pub name: String,
    pub command: Vec<String>,
    pub output: Vec<u8>,
    pub exit_code: Option<u32>,
    pub pid: Option<u32>,
}

/// A pane as plain mathematical values.
pub struct PaneState {
    pub name: Seq<char>,
    pub command: Seq<Seq<char>>,
    pub output: Seq<u8>,
    pub exit_code: Option<u32>,
    pub pid: Option<u32>,
}

impl View for PaneRecord {
    type V = PaneState;

    open spec fn view(&self) -> PaneState {
        PaneState {
            name: self.name@,
            command: string_seqs(self.command@),
            output: self.output@,
            exit_code: self.exit_code,
            pid: self.pid,
        }
    }
}

/// The output buffer after `chunk` arrives: everything, or only the newest
/// `MAX_OUTPUT_BYTES` bytes of it.
pub open spec fn cap_output(old: Seq<u8>, chunk: Seq<u8>) -> Seq<u8> {
    let all = old + chunk;
    if all.len() > MAX_OUTPUT_BYTES {
        all.skip(all.len() - MAX_OUTPUT_BYTES)
    } else {
        all
    }
}

pub open spec fn names_distinct(s: Seq<PaneState>) -> bool {
    forall|i: int, j: int| 0 <= i < s.len() && 0 <= j < s.len() && i != j ==> s[i].name != s[j].name
}

pub open spec fn registry_wf(s: Seq<PaneState>) -> bool {
    &&& names_distinct(s)
    &&& forall|i: int| 0 <= i < s.len() ==> (#[trigger] s[i]).output.len() <= MAX_OUTPUT_BYTES
}

pub open spec fn has_pane(s: Seq<PaneState>, name: Seq<char>) -> bool {
    exists|i: int| 0 <= i < s.len() && (#[trigger] s[i]).name == name
}

/// A freshly spawned pane: no output yet, still running.
pub open spec fn fresh_pane(name: Seq<char>, command: Seq<Seq<char>>, pid: Option<u32>) -> PaneState {
    PaneState { name, command, output: Seq::empty(), exit_code: None, pid }
}

/// The registry after `insert`: the pane replaces one of the same name, or is
/// added at the end.
pub open spec fn insert_pane(s: Seq<PaneState>, p: PaneState) -> Seq<PaneState> {
    if has_pane(s, p.name) {
        s.map_values(|q: PaneState| if q.name == p.name { p } else { q })
    } else {
        s.push(p)
    }
}

pub open spec fn with_output(p: PaneState, chunk: Seq<u8>) -> PaneState {
    PaneState { output: cap_output(p.output, chunk), ..p }
}

pub open spec fn with_exit_code(p: PaneState, code: u32) -> PaneState {
    PaneState { exit_code: Some(code), ..p }
}

/// The registry after output `chunk` arrives for the pane `name`.
pub open spec fn append_pane_output(s: Seq<PaneState>, name: Seq<char>, chunk: Seq<u8>) -> Seq<
    PaneState,
> {
    s.map_values(|q: PaneState| if q.name == name { with_output(q, chunk) } else { q })
}

/// The registry after the process of pane `name` exits with `code`.
pub open spec fn exit_pane(s: Seq<PaneState>, name: Seq<char>, code: u32) -> Seq<PaneState> {
    s.map_values(|q: PaneState| if q.name == name { with_exit_code(q, code) } else { q })
}

pub open spec fn status_of(exit_code: Option<u32>) -> PaneStatus {
    match exit_code {
        Some(code) => PaneStatus::Exited { code },
        None => PaneStatus::Running,
    }
}

/// `info` is how pane `p` is listed.
pub open spec fn lists_as(info: PaneInfo, p: PaneState) -> bool {
    &&& info.name@ == p.name
    &&& string_seqs(info.command@) == p.command
    &&& info.status == status_of(p.exit_code)
}

/// The text that a `Read` of pane `p` answers with.
pub open spec fn read_text(p: PaneState, lines: Option<usize>) -> Seq<char> {
    match lines {
        Some(n) => tail_text(utf8_lossy(p.output), n as nat),
        None => utf8_lossy(p.output),
    }
}

/// The pane manager's registry: panes by name, oldest first.
pub struct Registry {
    panes: Vec<PaneRecord>,
}

impl Registry {
    pub closed spec fn spec_panes(&self) -> Seq<PaneState> {
        self.panes@.map_values(|p: PaneRecord| p@)
    }

    #[verifier::type_invariant]
    spec fn inv(&self) -> bool {
        registry_wf(self.spec_panes())
    }
}

impl View for Registry {
    type V = Seq<PaneState>;

    open spec fn view(&self) -> Seq<PaneState> {
        self.spec_panes()
    }
}

/// Law: a pane's buffer never holds more than `MAX_OUTPUT_BYTES`; it keeps
/// exactly the newest `min(total, MAX_OUTPUT_BYTES)` bytes of the old buffer
/// followed by the chunk, so while everything fits nothing is dropped.
pub proof fn lemma_cap_output_len(old: Seq<u8>, chunk: Seq<u8>)
    ensures
        cap_output(old, chunk).len() <= MAX_OUTPUT_BYTES,
        cap_output(old, chunk).len() == (if old.len() + chunk.len() <= MAX_OUTPUT_BYTES {
            (old.len() + chunk.len()) as int
        } else {
            MAX_OUTPUT_BYTES as int
        }),
        ({
            let all = old + chunk;
            let kept = cap_output(old, chunk);
            kept == all.skip(all.len() - kept.len())
        }),
        old.len() + chunk.len() <= MAX_OUTPUT_BYTES ==> cap_output(old, chunk) == old + chunk,
{
    let all = old + chunk;
    if all.len() <= MAX_OUTPUT_BYTES {
        assert(all.skip(0) =~= all);
    }
}

/// The bytes of `chunks`, one after another.
pub open spec fn concat_chunks(chunks: Seq<Seq<u8>>) -> Seq<u8>
    decreases chunks.len(),
{
    if chunks.len() == 0 {
        Seq::empty()
    } else {
        concat_chunks(chunks.drop_last()) + chunks.last()
    }
}

/// The buffer `start` after `chunks` arrive one by one, each appended with
/// `cap_output`.
pub open spec fn cap_chunks(start: Seq<u8>, chunks: Seq<Seq<u8>>) -> Seq<u8>
    decreases chunks.len(),
{
    if chunks.len() == 0 {
        start
    } else {
        cap_output(cap_chunks(start, chunks.drop_last()), chunks.last())
    }
}

/// Law: over any run of chunks, a buffer that starts within the cap stays
/// within it and holds exactly the newest bytes received: the last
/// `min(total, MAX_OUTPUT_BYTES)` bytes of the start followed by every chunk
/// so far.
pub proof fn lemma_capped_run(start: Seq<u8>, chunks: Seq<Seq<u8>>)
    requires
        start.len() <= MAX_OUTPUT_BYTES,
    ensures
        ({
            let all = start + concat_chunks(chunks);
            let kept = cap_chunks(start, chunks);
            &&& kept.len() <= MAX_OUTPUT_BYTES
            &&& kept.len() == (if all.len() <= MAX_OUTPUT_BYTES {
                all.len() as int
            } else {
                MAX_OUTPUT_BYTES as int
            })
            &&& kept == all.skip(all.len() - kept.len())
            &&& all.len() <= MAX_OUTPUT_BYTES ==> kept == all
        }),
    decreases chunks.len(),
{
    if chunks.len() == 0 {
        assert(start + Seq::<u8>::empty() =~= start);
        assert(start.skip(0) =~= start);
    } else {
        let rest = chunks.drop_last();
        let c = chunks.last();
        lemma_capped_run(start, rest);
        let all_p = start + concat_chunks(rest);
        let prev = cap_chunks(start, rest);
        let d = all_p.len() - prev.len();
        let all = start + concat_chunks(chunks);
        assert(all =~= all_p + c);
        lemma_cap_output_len(prev, c);
        let kept = cap_output(prev, c);
        assert(prev + c =~= all.skip(d));
        let e = (prev + c).len() - kept.len();
        assert(kept =~= (prev + c).skip(e));
        assert(all.skip(d).skip(e) =~= all.skip(d + e));
        assert(d + e == all.len() - kept.len());
    }
}

/// Law: no operation on the registry removes a pane: a spawned name stays
/// listed (killing a pane only records its exit).
pub proof fn lemma_panes_are_never_removed(
    s: Seq<PaneState>,
    name: Seq<char>,
    p: PaneState,
    chunk: Seq<u8>,
    target: Seq<char>,
    code: u32,
)
    requires
        has_pane(s, name),
    ensures
        has_pane(insert_pane(s, p), name),
        has_pane(append_pane_output(s, target, chunk), name),
        has_pane(exit_pane(s, target, code), name),
{
    let i = choose|i: int| 0 <= i < s.len() && (#[trigger] s[i]).name == name;
    let r1 = insert_pane(s, p);
    if has_pane(s, p.name) {
        assert(r1[i].name == name);
    } else {
        assert(r1[i] == s[i]);
    }
    assert(append_pane_output(s, target, chunk)[i].name == name);
    assert(exit_pane(s, target, code)[i].name == name);
}

/// Law: after a pane is inserted it is listed, running, with the command it
/// was started with and an empty buffer; a pane whose process exits is listed
/// as exited with that code.
pub proof fn lemma_spawned_then_exited(s: Seq<PaneState>, p: PaneState, code: u32)
    requires
        registry_wf(s),
        p.exit_code is None,
    ensures
        exists|i: int|
            0 <= i < insert_pane(s, p).len() && #[trigger] insert_pane(s, p)[i] == p,
        status_of(p.exit_code) == PaneStatus::Running,
        ({
            let after = exit_pane(insert_pane(s, p), p.name, code);
            exists|i: int|
                0 <= i < after.len() && (#[trigger] after[i]).name == p.name && status_of(
                    after[i].exit_code,
                ) == (PaneStatus::Exited { code }) && after[i].command == p.command
        }),
{
    let r = insert_pane(s, p);
    let i = if has_pane(s, p.name) {
        choose|i: int| 0 <= i < s.len() && (#[trigger] s[i]).name == p.name
    } else {
        s.len() as int
    };
    assert(r[i] == p);
    let after = exit_pane(r, p.name, code);
    assert(after[i].name == p.name);
}

/// Law: inserting a freshly started pane keeps the registry well formed
/// (names stay distinct, buffers stay capped).
pub proof fn lemma_insert_keeps_wf(s: Seq<PaneState>, p: PaneState)
    requires
        registry_wf(s),
        p.output.len() <= MAX_OUTPUT_BYTES,
    ensures
        registry_wf(insert_pane(s, p)),
{
    let r = insert_pane(s, p);
    if has_pane(s, p.name) {
        assert forall|i: int, j: int| 0 <= i < r.len() && 0 <= j < r.len() && i != j implies r[i].name
            != r[j].name by {
            assert(s[i].name != s[j].name);
        }
    } else {
        assert forall|i: int, j: int| 0 <= i < r.len() && 0 <= j < r.len() && i != j implies r[i].name
            != r[j].name by {
            if i < s.len() && j < s.len() {
                assert(s[i].name != s[j].name);
            } else if i < s.len() {
                assert(r[i] == s[i]);
            } else {
                assert(r[j] == s[j]);
            }
        }
        assert forall|i: int| 0 <= i < r.len() implies (#[trigger] r[i]).output.len()
            <= MAX_OUTPUT_BYTES by {
            if i < s.len() {
                assert(r[i] == s[i]);
            }
        }
    }
}

/// Law: recording output keeps the registry well formed.
pub proof fn lemma_append_keeps_wf(s: Seq<PaneState>, name: Seq<char>, chunk: Seq<u8>)
    requires
        registry_wf(s),
    ensures
        registry_wf(append_pane_output(s, name, chunk)),
{
    let r = append_pane_output(s, name, chunk);
    assert forall|i: int, j: int| 0 <= i < r.len() && 0 <= j < r.len() && i != j implies r[i].name
        != r[j].name by {
        assert(s[i].name != s[j].name);
    }
    assert forall|i: int| 0 <= i < r.len() implies (#[trigger] r[i]).output.len()
        <= MAX_OUTPUT_BYTES by {
        lemma_cap_output_len(s[i].output, chunk);
    }
}

/// Law: recording an exit code keeps the registry well formed.
pub proof fn lemma_exit_keeps_wf(s: Seq<PaneState>, name: Seq<char>, code: u32)
    requires
        registry_wf(s),
    ensures
        registry_wf(exit_pane(s, name, code)),
{
    let r = exit_pane(s, name, code);
    assert forall|i: int, j: int| 0 <= i < r.len() && 0 <= j < r.len() && i != j implies r[i].name
        != r[j].name by {
        assert(s[i].name != s[j].name);
    }
    assert forall|i: int| 0 <= i < r.len() implies (#[trigger] r[i]).output.len()
        <= MAX_OUTPUT_BYTES by {
        assert(r[i].output == s[i].output);
    }
}

fn push_range(out: &mut Vec<u8>, src: &[u8], from: usize)
    requires
        from <= src.len(),
    ensures
        final(out)@ == old(out)@ + src@.skip(from as int),
{
    let mut i: usize = from;
    while i < src.len()
        invariant
            from <= i <= src.len(),
            out@ == old(out)@ + src@.subrange(from as int, i as int),
        decreases src.len() - i,
    {
        out.push(src[i]);
        assert(old(out)@ + src@.subrange(from as int, i + 1) =~= (old(out)@ + src@.subrange(
            from as int,
            i as int,
        )).push(src@[i as int]));
        i += 1;
    }
    assert(src@.subrange(from as int, src.len() as int) =~= src@.skip(from as int));
}

/// Appends the newest bytes to an output buffer that is within the cap,
/// dropping the oldest bytes beyond `MAX_OUTPUT_BYTES`.
pub fn append_capped(buf: &mut Vec<u8>, chunk: &[u8])
    requires
        old(buf)@.len() <= MAX_OUTPUT_BYTES,
    ensures
        final(buf)@ == cap_output(old(buf)@, chunk@),
{
    let n = buf.len();
    if chunk.len() <= MAX_OUTPUT_BYTES - n {
        let mut out: Vec<u8> = Vec::new();
        push_range(&mut out, buf.as_slice(), 0);
        push_range(&mut out, chunk, 0);
        assert(buf@.skip(0) =~= buf@);
        assert(chunk@.skip(0) =~= chunk@);
        *buf = out;
    } else {
        let drop = chunk.len() - (MAX_OUTPUT_BYTES - n);
        let ghost all = buf@ + chunk@;
        let mut out: Vec<u8> = Vec::new();
        if drop < n {
            push_range(&mut out, buf.as_slice(), drop);
            push_range(&mut out, chunk, 0);
            assert(out@ =~= all.skip(drop as int));
        } else {
            push_range(&mut out, chunk, drop - n);
            assert(out@ =~= all.skip(drop as int));
        }
        *buf = out;
    }
}

impl Registry {
    /// An empty registry.
    pub fn new() -> (r: Registry)
        ensures
            r@ == Seq::<PaneState>::empty(),
    {
        let r = Registry { panes: Vec::new() };
        assert(r@ =~= Seq::<PaneState>::empty());
        r
    }

    /// The number of panes.
    pub fn len(&self) -> (n: usize)
        ensures
            n == self@.len(),
    {
        self.panes.len()
    }

    /// Where the pane called `name` stands, if there is one.
    pub fn find(&self, name: &String) -> (r: Option<usize>)
        ensures
            r is Some <==> has_pane(self@, name@),
            r matches Some(i) ==> i < self@.len() && self@[i as int].name == name@,
    {
        let mut i: usize = 0;
        while i < self.panes.len()
            invariant
                i <= self.panes.len(),
                self@ == self.panes@.map_values(|p: PaneRecord| p@),
                forall|k: int| 0 <= k < i ==> (#[trigger] self@[k]).name != name@,
            decreases self.panes.len() - i,
        {
            if self.panes[i].name == *name {
                assert(self@[i as int].name == name@);
                return Some(i);
            }
            assert(self@[i as int] == self.panes@[i as int]@);
            i += 1;
        }
        None
    }

    /// Adds a pane that has just been started (replacing one of the same
    /// name, as a map insert does).
    pub fn insert(&mut self, name: String, command: Vec<String>, pid: Option<u32>)
        ensures
            final(self)@ == insert_pane(old(self)@, fresh_pane(name@, string_seqs(command@), pid)),
    {
        proof {
            use_type_invariant(&*self);
        }
        let ghost s = self@;
        let ghost p = fresh_pane(name@, string_seqs(command@), pid);
        let rec = PaneRecord { name, command, output: Vec::new(), exit_code: None, pid };
        assert(rec@ == p);
        proof {
            lemma_insert_keeps_wf(s, p);
        }
        match self.find(&rec.name) {
            Some(i) => {
                let mut panes: Vec<PaneRecord> = Vec::new();
                std::mem::swap(&mut panes, &mut self.panes);
                panes.set(i, rec);
                proof {
                    let expect = s.map_values(|q: PaneState| if q.name == p.name { p } else { q });
                    assert forall|k: int| 0 <= k < s.len() implies #[trigger] panes@[k]@ == expect[k] by {
                        if k != i {
                            assert(s[k].name != p.name);
                        }
                    }
                    assert(panes@.map_values(|q: PaneRecord| q@) =~= expect);
                }
                self.panes = panes;
            },
            None => {
                let mut panes: Vec<PaneRecord> = Vec::new();
                std::mem::swap(&mut panes, &mut self.panes);
                panes.push(rec);
                assert(panes@.map_values(|q: PaneRecord| q@) =~= s.push(p));
                self.panes = panes;
            },
        }
    }

    /// Records newly arrived output of the pane `name` (nothing happens if
    /// there is no such pane).
    pub fn append_output(&mut self, name: &String, chunk: &[u8])
        ensures
            final(self)@ == append_pane_output(old(self)@, name@, chunk@),
    {
        proof {
            use_type_invariant(&*self);
        }
        let ghost s = self@;
        let ghost expect = append_pane_output(s, name@, chunk@);
        proof {
            lemma_append_keeps_wf(s, name@, chunk@);
        }
        match self.find(name) {
            Some(i) => {
                let mut panes: Vec<PaneRecord> = Vec::new();
                std::mem::swap(&mut panes, &mut self.panes);
                let ghost before = panes@;
                let mut rec = panes.remove(i);
                assert(rec@ == s[i as int]);
                append_capped(&mut rec.output, chunk);
                panes.insert(i, rec);
                proof {
                    assert(before[i as int]@ == s[i as int]);
                    assert forall|k: int| 0 <= k < s.len() implies #[trigger] panes@[k]@ == expect[k] by {
                        if k != i {
                            assert(s[k].name != name@);
                            assert(panes@[k] == before[k]);
                        }
                    }
                    assert(panes@.map_values(|q: PaneRecord| q@) =~= expect);
                }
                self.panes = panes;
            },
            None => {
                assert(self@ =~= expect);
            },
        }
    }

    /// Records that the process of pane `name` exited with `code`.
    pub fn set_exit_code(&mut self, name: &String, code: u32)
        ensures
            final(self)@ == exit_pane(old(self)@, name@, code),
    {
        proof {
            use_type_invariant(&*self);
        }
        let ghost s = self@;
        let ghost expect = exit_pane(s, name@, code);
        proof {
            lemma_exit_keeps_wf(s, name@, code);
        }
        match self.find(name) {
            Some(i) => {
                let mut panes: Vec<PaneRecord> = Vec::new();
                std::mem::swap(&mut panes, &mut self.panes);
                let ghost before = panes@;
                let mut rec = panes.remove(i);
                rec.exit_code = Some(code);
                panes.insert(i, rec);
                proof {
                    assert(before[i as int]@ == s[i as int]);
                    assert forall|k: int| 0 <= k < s.len() implies #[trigger] panes@[k]@ == expect[k] by {
                        if k != i {
                            assert(s[k].name != name@);
                            assert(panes@[k] == before[k]);
                        }
                    }
                    assert(panes@.map_values(|q: PaneRecord| q@) =~= expect);
                }
                self.panes = panes;
            },
            None => {
                assert(self@ =~= expect);
            },
        }
    }
}

/// What a request asks the program around the registry to do.
pub enum ServerAction {
    /// Answer at once.
    Reply(Response),
    /// Start `command` in a new terminal, then `insert` it as `name` and
    /// answer with success (or with the error that starting it gave).
    Spawn { name: String, command: Vec<String> },
    /// Write `text` to the pane's terminal, then answer with success (or with
    /// the error that writing gave).
    Write { name: String, text: String },
    /// Answer with `output`, and with the working directory of process `pid`
    /// if it can be found.
    Read { output: String, pid: Option<u32> },
    /// Ask the pane's process to stop, then answer with success.
    Kill { name: String },
}

pub open spec fn no_such_pane_message(name: Seq<char>) -> Seq<char> {
    "no such pane: "@ + debug_quoted(name)
}

pub open spec fn pane_exists_message(name: Seq<char>) -> Seq<char> {
    "pane "@ + debug_quoted(name) + " already exists (kill it, then spawn under a new name)"@
}

pub open spec fn empty_command_message() -> Seq<char> {
    "command must not be empty"@
}

/// `infos` lists the panes of `s`, one each, in registry order.
pub open spec fn lists_panes(infos: Seq<PaneInfo>, s: Seq<PaneState>) -> bool {
    &&& infos.len() == s.len()
    &&& forall|i: int| 0 <= i < s.len() ==> lists_as(#[trigger] infos[i], s[i])
}

/// No name occurs twice in `infos`.
pub open spec fn info_names_distinct(infos: Seq<PaneInfo>) -> bool {
    forall|i: int, j: int|
        0 <= i < infos.len() && 0 <= j < infos.len() && i != j ==> infos[i].name@
            != infos[j].name@
}

/// The error answer for a request about a pane that does not exist.
pub fn no_such_pane(name: &String) -> (r: Response)
    ensures
        is_error_response(r, no_such_pane_message(name@)),
{
    let mut m = String::new();
    m.append("no such pane: ");
    let d = debug_text(name.as_str());
    m.append(d.as_str());
    proof {
        reveal_strlit("no such pane: ");
    }
    Response::err(m)
}

impl Registry {
    /// The panes as the server lists them, in registry order.
    pub fn list(&self) -> (infos: Vec<PaneInfo>)
        ensures
            lists_panes(infos@, self@),
            registry_wf(self@),
            info_names_distinct(infos@),
    {
        proof {
            use_type_invariant(self);
        }
        let mut infos: Vec<PaneInfo> = Vec::new();
        let mut i: usize = 0;
        while i < self.panes.len()
            invariant
                i <= self.panes.len(),
                self@ == self.panes@.map_values(|p: PaneRecord| p@),
                infos@.len() == i,
                forall|k: int| 0 <= k < i ==> lists_as(#[trigger] infos@[k], self@[k]),
            decreases self.panes.len() - i,
        {
            let rec = &self.panes[i];
            let status = match rec.exit_code {
                Some(code) => PaneStatus::Exited { code },
                None => PaneStatus::Running,
            };
            let info = PaneInfo {
                name: rec.name.clone(),
                command: clone_strings(&rec.command),
                status,
            };
            assert(self@[i as int] == rec@);
            infos.push(info);
            i += 1;
        }
        infos
    }

    /// Decides what a request asks for.
    pub fn handle_request(&self, request: Request) -> (a: ServerAction)
        ensures
            match request {
                Request::Ping => a matches ServerAction::Reply(r) && is_ok_response(r),
                Request::Spawn { name, command } => if command@.len() == 0 {
                    a matches ServerAction::Reply(r) && is_error_response(r, empty_command_message())
                } else if has_pane(self@, name@) {
                    a matches ServerAction::Reply(r) && is_error_response(
                        r,
                        pane_exists_message(name@),
                    )
                } else {
                    a == ServerAction::Spawn { name, command }
                },
                Request::List => a matches ServerAction::Reply(r) && r.ok && r.error is None
                    && r.output is None && r.cwd is None && lists_panes(r.panes@, self@)
                    && info_names_distinct(r.panes@),
                Request::Send { name, text } => if has_pane(self@, name@) {
                    a == ServerAction::Write { name, text }
                } else {
                    a matches ServerAction::Reply(r) && is_error_response(
                        r,
                        no_such_pane_message(name@),
                    )
                },
                Request::Read { name, lines } => if has_pane(self@, name@) {
                    a matches ServerAction::Read { output, pid } && exists|i: int|
                        0 <= i < self@.len() && #[trigger] self@[i].name == name@ && output@
                            == read_text(self@[i], lines) && pid == self@[i].pid
                } else {
                    a matches ServerAction::Reply(r) && is_error_response(
                        r,
                        no_such_pane_message(name@),
                    )
                },
                Request::Kill { name } => if has_pane(self@, name@) {
                    a == ServerAction::Kill { name }
                } else {
                    a matches ServerAction::Reply(r) && is_error_response(
                        r,
                        no_such_pane_message(name@),
                    )
                },
            },
    {
        match request {
            Request::Ping => ServerAction::Reply(Response::ok()),
            Request::Spawn { name, command } => {
                if command.len() == 0 {
                    let mut m = String::new();
                    m.append("command must not be empty");
                    proof {
                        reveal_strlit("command must not be empty");
                    }
                    return ServerAction::Reply(Response::err(m));
                }
                if self.find(&name).is_some() {
                    let mut m = String::new();
                    m.append("pane ");
                    let d = debug_text(name.as_str());
                    m.append(d.as_str());
                    m.append(" already exists (kill it, then spawn under a new name)");
                    proof {
                        reveal_strlit("pane ");
                        reveal_strlit(" already exists (kill it, then spawn under a new name)");
                    }
                    return ServerAction::Reply(Response::err(m));
                }
                ServerAction::Spawn { name, command }
            },
            Request::List => ServerAction::Reply(Response::ok_with_panes(self.list())),
            Request::Send { name, text } => {
                if self.find(&name).is_none() {
                    return ServerAction::Reply(no_such_pane(&name));
                }
                ServerAction::Write { name, text }
            },
            Request::Read { name, lines } => {
                match self.find(&name) {
                    None => ServerAction::Reply(no_such_pane(&name)),
                    Some(i) => {
                        let rec = &self.panes[i];
                        assert(self@[i as int] == rec@);
                        let text = lossy_text(rec.output.as_slice());
                        let output = match lines {
                            Some(n) => tail_lines(&text, n),
                            None => text,
                        };
                        ServerAction::Read { output, pid: rec.pid }
                    },
                }
            },
            Request::Kill { name } => {
                if self.find(&name).is_none() {
                    return ServerAction::Reply(no_such_pane(&name));
                }
                ServerAction::Kill { name }
            },
        }
    }
}

/// The first line that starts with `n`, without that `n`.
pub open spec fn first_n_line(lines: Seq<Seq<char>>) -> Option<Seq<char>>
    decreases lines.len(),
{
    if lines.len() == 0 {
        None
    } else if lines[0].len() > 0 && lines[0][0] == 'n' {
        Some(lines[0].drop_first())
    } else {
        first_n_line(lines.drop_first())
    }
}

/// The working directory in the output of `lsof -a -p <pid> -d cwd -Fn`:
/// the first line that starts with `n`, without the `n`.
pub open spec fn lsof_cwd(output: Seq<u8>) -> Option<Seq<char>> {
    first_n_line(text_lines(utf8_lossy(output)))
}

/// Finds the working directory in `lsof` field output; `None` when no line
/// names one (the process is gone, or the output doesn't parse).
pub fn cwd_from_lsof(output: &[u8]) -> (r: Option<String>)
    ensures
        r is Some <==> lsof_cwd(output@) is Some,
        r matches Some(s) ==> s@ == lsof_cwd(output@)->0,
{
    let text = lossy_text(output);
    let lines = text_lines_exec(text.as_str());
    let ghost ls = lines@.map_values(|p: Vec<char>| p@);
    assert(ls.skip(0) =~= ls);
    let mut i: usize = 0;
    while i < lines.len()
        invariant
            i <= lines.len(),
            ls == lines@.map_values(|p: Vec<char>| p@),
            ls == text_lines(utf8_lossy(output@)),
            first_n_line(ls.skip(i as int)) == lsof_cwd(output@),
        decreases lines.len() - i,
    {
        let line = &lines[i];
        let ghost rest = ls.skip(i as int);
        assert(rest[0] == line@);
        assert(rest.drop_first() =~= ls.skip(i + 1));
        if line.len() > 0 && line[0] == 'n' {
            let mut cs: Vec<char> = Vec::new();
            let mut j: usize = 1;
            while j < line.len()
                invariant
                    1 <= j <= line.len(),
                    cs@ == line@.subrange(1, j as int),
                decreases line.len() - j,
            {
                cs.push(line[j]);
                assert(line@.subrange(1, j + 1) =~= line@.subrange(1, j as int).push(line@[j as int]));
                j += 1;
            }
            assert(cs@ =~= line@.drop_first());
            return Some(string_of(&cs));
        }
        i += 1;
    }
    assert(ls.skip(lines.len() as int) =~= Seq::<Seq<char>>::empty());
    None
}

} // verus!
