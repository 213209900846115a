//! Turns raw PTY bytes into plain scrollback lines, and maps pressed keys to
//! the bytes a terminal would send for them.
//!
//! This is intentionally not a terminal emulator: no cursor positioning, no
//! grid, no colour. CSI (`ESC [ ... final`) and OSC (`ESC ] ... BEL` or
//! `ESC ] ... ESC \`) sequences are stripped, backspace (`0x7f` or `0x08`)
//! removes the last byte of the current line, and a bare `\r` clears the
//! current line instead of starting a new one. `\r` moves back to the start
//! of the line: the line is emptied when the next byte is written to it (or
//! when the input ends), and kept when a `\n` comes first, so `\r\n` line
//! endings keep their lines.
//!
//! The model is a byte-at-a-time scanner: `scan_step` says what one byte does
//! to the scanner, and `pty_byte_lines` is the result of feeding the whole
//! input through it.
use vstd::prelude::*;
use vstd::utf8::*;

use crate::text::{lossy_text, utf8_lossy};

verus! {

pub const ESC: u8 = 0x1b;

pub const BEL: u8 = 0x07;

pub const CR: u8 = 0x0d;

pub const LF: u8 = 0x0a;

pub const DEL: u8 = 0x7f;

pub const BS: u8 = 0x08;

/// Where the scanner stands between two bytes, as far as escape sequences go.
#[derive(Clone, Copy, PartialEq, Eq, Debug)]
pub enum Scan {
    /// Plain text.
    Ground,
    /// Just after an `ESC` in plain text.
    Escape,
    /// Inside `ESC [`, until the final (alphabetic) byte.
    Csi,
    /// Inside `ESC ]`, until `BEL` or `ESC \`.
    Osc,
    /// Inside an OSC sequence, just after an `ESC`.
    OscEscape,
    /// Just after an OSC sequence ended by `ESC \`: one `BEL` here is swallowed too.
    AfterOsc,
}

/// The scanner between two bytes: where it stands in escape sequences,
/// whether a `\r` is pending (the current line is emptied before the next
/// byte is written to it), and the lines collected so far.
pub struct Scanner {
    pub mode: Scan,
    pub cr: bool,
    pub lines: Seq<Seq<u8>>,
}

pub open spec fn is_ascii_alpha(b: u8) -> bool {
    (0x41 <= b <= 0x5a) || (0x61 <= b <= 0x7a)
}

/// Bytes that never reach a line: they edit the lines or start an escape sequence.
pub open spec fn is_line_control(b: u8) -> bool {
    b == ESC || b == CR || b == LF || b == DEL || b == BS
}

/// The lines with the current (last) line emptied.
pub open spec fn clear_last(lines: Seq<Seq<u8>>) -> Seq<Seq<u8>> {
    lines.update(lines.len() - 1, Seq::empty())
}

/// What a byte of plain text other than `ESC` and `\r` does to the lines,
/// `cr` telling whether a `\r` is pending: `\n` starts a new line (keeping
/// the current one); any other byte first empties the current line if a `\r`
/// is pending, then backspace removes its last byte and anything else is
/// appended to it.
pub open spec fn edit_lines(lines: Seq<Seq<u8>>, cr: bool, b: u8) -> Seq<Seq<u8>> {
    if b == LF {
        lines.push(Seq::empty())
    } else {
        let l = if cr {
            clear_last(lines)
        } else {
            lines
        };
        let cur = l.last();
        if b == DEL || b == BS {
            if cur.len() == 0 {
                l
            } else {
                l.update(l.len() - 1, cur.drop_last())
            }
        } else {
            l.update(l.len() - 1, cur.push(b))
        }
    }
}

pub open spec fn ground_step(s: Scanner, b: u8) -> Scanner {
    if b == ESC {
        Scanner { mode: Scan::Escape, ..s }
    } else if b == CR {
        Scanner { mode: Scan::Ground, cr: true, ..s }
    } else {
        Scanner { mode: Scan::Ground, cr: false, lines: edit_lines(s.lines, s.cr, b) }
    }
}

pub open spec fn osc_step(s: Scanner, b: u8) -> Scanner {
    if b == BEL {
        Scanner { mode: Scan::Ground, ..s }
    } else if b == ESC {
        Scanner { mode: Scan::OscEscape, ..s }
    } else {
        Scanner { mode: Scan::Osc, ..s }
    }
}

/// One byte through the scanner.
pub open spec fn scan_step(s: Scanner, b: u8) -> Scanner {
    match s.mode {
        Scan::Ground => ground_step(s, b),
        Scan::Escape => if b == 0x5b {
            Scanner { mode: Scan::Csi, ..s }
        } else if b == 0x5d {
            Scanner { mode: Scan::Osc, ..s }
        } else {
            Scanner { mode: Scan::Ground, ..s }
        },
        Scan::Csi => if is_ascii_alpha(b) {
            Scanner { mode: Scan::Ground, ..s }
        } else {
            s
        },
        Scan::Osc => osc_step(s, b),
        Scan::OscEscape => if b == 0x5c {
            Scanner { mode: Scan::AfterOsc, ..s }
        } else {
            osc_step(s, b)
        },
        Scan::AfterOsc => if b == BEL {
            Scanner { mode: Scan::Ground, ..s }
        } else {
            ground_step(s, b)
        },
    }
}

/// The scanner after feeding it `raw`, starting from `start`.
pub open spec fn scan_from(start: Scanner, raw: Seq<u8>) -> Scanner
    decreases raw.len(),
{
    if raw.len() == 0 {
        start
    } else {
        scan_step(scan_from(start, raw.drop_last()), raw.last())
    }
}

/// The scanner's starting point: plain text, no `\r` pending, one empty line.
pub open spec fn scan_start() -> Scanner {
    Scanner { mode: Scan::Ground, cr: false, lines: seq![Seq::<u8>::empty()] }
}

pub open spec fn scan(raw: Seq<u8>) -> Scanner {
    scan_from(scan_start(), raw)
}

/// The lines of a scanner once the input ends: a pending `\r` empties the
/// current line.
pub open spec fn settled(s: Scanner) -> Seq<Seq<u8>> {
    if s.cr {
        clear_last(s.lines)
    } else {
        s.lines
    }
}

/// The scrollback lines of `raw`, as bytes.
pub open spec fn pty_byte_lines(raw: Seq<u8>) -> Seq<Seq<u8>> {
    settled(scan(raw))
}

pub open spec fn byte_views(v: Seq<Vec<u8>>) -> Seq<Seq<u8>> {
    v.map_values(|l: Vec<u8>| l@)
}

pub open spec fn string_views(v: Seq<String>) -> Seq<Seq<char>> {
    v.map_values(|s: String| s@)
}

/// The scrollback lines of `raw`, as text.
pub open spec fn pty_lines(raw: Seq<u8>) -> Seq<Seq<char>> {
    pty_byte_lines(raw).map_values(|l: Seq<u8>| utf8_lossy(l))
}

/// Lines joined with `\n` between them.
pub open spec fn join_lines(lines: Seq<Seq<u8>>) -> Seq<u8>
    decreases lines.len(),
{
    if lines.len() == 0 {
        Seq::empty()
    } else if lines.len() == 1 {
        lines[0]
    } else {
        join_lines(lines.drop_last()) + seq![LF] + lines.last()
    }
}

/// Lines are never empty, and hold no byte that edits lines or starts an
/// escape sequence.
pub open spec fn lines_wf(lines: Seq<Seq<u8>>) -> bool {
    &&& lines.len() >= 1
    &&& forall|i: int, j: int|
        0 <= i < lines.len() && 0 <= j < lines[i].len() ==> !is_line_control(#[trigger] lines[i][j])
}

proof fn lemma_clear_keeps_wf(lines: Seq<Seq<u8>>)
    requires
        lines_wf(lines),
    ensures
        lines_wf(clear_last(lines)),
{
    let after = clear_last(lines);
    assert forall|i: int, j: int|
        0 <= i < after.len() && 0 <= j < after[i].len() implies !is_line_control(
        #[trigger] after[i][j],
    ) by {
        assert(i != lines.len() - 1);
        assert(after[i][j] == lines[i][j]);
    }
}

proof fn lemma_edit_keeps_wf(lines: Seq<Seq<u8>>, cr: bool, b: u8)
    requires
        lines_wf(lines),
        b != ESC,
        b != CR,
    ensures
        lines_wf(edit_lines(lines, cr, b)),
{
    let after = edit_lines(lines, cr, b);
    if b == LF {
        assert forall|i: int, j: int|
            0 <= i < after.len() && 0 <= j < after[i].len() implies !is_line_control(
            #[trigger] after[i][j],
        ) by {
            assert(after[i][j] == lines[i][j]);
        }
    } else {
        let l = if cr {
            clear_last(lines)
        } else {
            lines
        };
        if cr {
            lemma_clear_keeps_wf(lines);
        }
        let last = l.len() - 1;
        let cur = l.last();
        assert forall|i: int, j: int|
            0 <= i < after.len() && 0 <= j < after[i].len() implies !is_line_control(
            #[trigger] after[i][j],
        ) by {
            if i != last {
                assert(after[i][j] == l[i][j]);
            } else if b == DEL || b == BS {
                assert(after[i][j] == l[i][j]);
            } else if j < cur.len() {
                assert(after[i][j] == l[i][j]);
            } else {
                assert(after[i][j] == b);
            }
        }
    }
}

proof fn lemma_step_keeps_wf(s: Scanner, b: u8)
    requires
        lines_wf(s.lines),
    ensures
        lines_wf(scan_step(s, b).lines),
{
    if b != ESC && b != CR {
        lemma_edit_keeps_wf(s.lines, s.cr, b);
    }
}

proof fn lemma_scan_from_keeps_wf(start: Scanner, raw: Seq<u8>)
    requires
        lines_wf(start.lines),
    ensures
        lines_wf(scan_from(start, raw).lines),
    decreases raw.len(),
{
    if raw.len() > 0 {
        lemma_scan_from_keeps_wf(start, raw.drop_last());
        lemma_step_keeps_wf(scan_from(start, raw.drop_last()), raw.last());
    }
}

/// Law: rendering always yields at least one line, and no line holds `ESC`,
/// `\r`, `\n`, `DEL` or `BS`: every control byte is interpreted, none is
/// passed through to the scrollback.
pub proof fn lemma_render_lines_wf(raw: Seq<u8>)
    ensures
        pty_byte_lines(raw).len() >= 1,
        forall|i: int, j: int|
            0 <= i < pty_byte_lines(raw).len() && 0 <= j < pty_byte_lines(raw)[i].len()
                ==> !is_line_control(#[trigger] pty_byte_lines(raw)[i][j]),
        pty_lines(raw).len() == pty_byte_lines(raw).len(),
{
    assert(lines_wf(scan_start().lines));
    lemma_scan_from_keeps_wf(scan_start(), raw);
    if scan(raw).cr {
        lemma_clear_keeps_wf(scan(raw).lines);
    }
}

/// Law: rendering is incremental. Feeding `a` and then `b` leaves the scanner
/// where feeding `a + b` at once does.
pub proof fn lemma_scan_append(start: Scanner, a: Seq<u8>, b: Seq<u8>)
    ensures
        scan_from(start, a + b) == scan_from(scan_from(start, a), b),
    decreases b.len(),
{
    if b.len() == 0 {
        assert(a + b =~= a);
    } else {
        lemma_scan_append(start, a, b.drop_last());
        assert((a + b).drop_last() =~= a + b.drop_last());
        assert((a + b).last() == b.last());
    }
}

proof fn lemma_scan_one(start: Scanner, b: u8)
    ensures
        scan_from(start, seq![b]) == scan_step(start, b),
{
    assert(seq![b].drop_last() =~= Seq::<u8>::empty());
    assert(scan_from(start, Seq::<u8>::empty()) == start);
    assert(seq![b].last() == b);
}

proof fn lemma_scan_cons(start: Scanner, b: u8, rest: Seq<u8>)
    ensures
        scan_from(start, seq![b] + rest) == scan_from(scan_step(start, b), rest),
{
    lemma_scan_append(start, seq![b], rest);
    lemma_scan_one(start, b);
}

/// Law: input without `ESC` leaves the scanner in plain text.
pub proof fn lemma_no_escape_stays_ground(raw: Seq<u8>)
    requires
        forall|k: int| 0 <= k < raw.len() ==> #[trigger] raw[k] != ESC,
    ensures
        scan(raw).mode == Scan::Ground,
    decreases raw.len(),
{
    if raw.len() > 0 {
        assert(raw.last() == raw[raw.len() - 1]);
        lemma_no_escape_stays_ground(raw.drop_last());
    }
}

proof fn lemma_join_push_byte(lines: Seq<Seq<u8>>, b: u8)
    requires
        lines.len() >= 1,
    ensures
        join_lines(lines.update(lines.len() - 1, lines.last().push(b))) == join_lines(lines).push(
            b,
        ),
{
    let upd = lines.update(lines.len() - 1, lines.last().push(b));
    if lines.len() == 1 {
    } else {
        assert(upd.drop_last() =~= lines.drop_last());
        assert(upd.last() == lines.last().push(b));
        assert(join_lines(upd) =~= join_lines(lines).push(b));
    }
}

/// Law: plain text (no `ESC`, `\r` or backspace byte) splits on newline.
/// Joining the rendered lines with `\n` gives back the input, and the scanner
/// stays in plain-text state with no `\r` pending.
pub proof fn lemma_plain_text_splits_on_newline(raw: Seq<u8>)
    requires
        forall|k: int|
            0 <= k < raw.len() ==> #[trigger] raw[k] != ESC && raw[k] != CR && raw[k] != DEL
                && raw[k] != BS,
    ensures
        scan(raw).mode == Scan::Ground,
        !scan(raw).cr,
        join_lines(pty_byte_lines(raw)) == raw,
    decreases raw.len(),
{
    if raw.len() > 0 {
        let prev = raw.drop_last();
        let b = raw.last();
        assert(b == raw[raw.len() - 1]);
        lemma_plain_text_splits_on_newline(prev);
        lemma_render_lines_wf(prev);
        let lines = pty_byte_lines(prev);
        if b == LF {
            assert(lines.push(Seq::empty()).drop_last() =~= lines);
            assert(join_lines(lines.push(Seq::empty())) =~= prev.push(LF));
        } else {
            lemma_join_push_byte(lines, b);
        }
        assert(prev.push(b) =~= raw);
    }
}

proof fn lemma_csi_params(s: Scanner, params: Seq<u8>)
    requires
        s.mode == Scan::Csi,
        forall|k: int| 0 <= k < params.len() ==> !is_ascii_alpha(#[trigger] params[k]),
    ensures
        scan_from(s, params) == s,
    decreases params.len(),
{
    if params.len() > 0 {
        assert(params.last() == params[params.len() - 1]);
        lemma_csi_params(s, params.drop_last());
    }
}

proof fn lemma_osc_body(s: Scanner, body: Seq<u8>)
    requires
        s.mode == Scan::Osc,
        forall|k: int| 0 <= k < body.len() ==> #[trigger] body[k] != BEL && body[k] != ESC,
    ensures
        scan_from(s, body) == s,
    decreases body.len(),
{
    if body.len() > 0 {
        assert(body.last() == body[body.len() - 1]);
        lemma_osc_body(s, body.drop_last());
    }
}

/// `seq` read right after `prefix` leaves the scanner as it was, so whatever
/// follows renders as if `seq` were not there.
proof fn lemma_no_trace(prefix: Seq<u8>, seq: Seq<u8>, rest: Seq<u8>)
    requires
        scan(prefix + seq) == scan(prefix),
    ensures
        scan(prefix + seq + rest) == scan(prefix + rest),
        pty_lines(prefix + seq + rest) == pty_lines(prefix + rest),
{
    lemma_scan_append(scan_start(), prefix + seq, rest);
    lemma_scan_append(scan_start(), prefix, rest);
}

/// Law: a two-byte escape (`ESC` followed by any byte other than `[` or `]`,
/// such as the `ESC =` of keypad mode) read in plain text leaves no trace:
/// both bytes are dropped, the scanner is left exactly as it was, and whatever
/// follows renders as if the escape were not there.
pub proof fn lemma_two_byte_escape_stripped(prefix: Seq<u8>, b: u8, rest: Seq<u8>)
    requires
        scan(prefix).mode == Scan::Ground,
        b != 0x5b,
        b != 0x5d,
    ensures
        scan(prefix + seq![ESC, b]) == scan(prefix),
        pty_lines(prefix + seq![ESC, b] + rest) == pty_lines(prefix + rest),
{
    let s = scan(prefix);
    lemma_scan_append(scan_start(), prefix, seq![ESC, b]);
    assert(seq![ESC, b] =~= seq![ESC] + seq![b]);
    lemma_scan_cons(s, ESC, seq![b]);
    lemma_scan_one(scan_step(s, ESC), b);
    lemma_no_trace(prefix, seq![ESC, b], rest);
}

/// Law: a complete CSI sequence (`ESC [`, parameter bytes that are not
/// letters, one final letter) read in plain text is stripped without trace:
/// it leaves the scanner exactly as it was, and whatever follows renders as if
/// the sequence were not there.
pub proof fn lemma_csi_sequence_stripped(prefix: Seq<u8>, params: Seq<u8>, fin: u8, rest: Seq<u8>)
    requires
        scan(prefix).mode == Scan::Ground,
        forall|k: int| 0 <= k < params.len() ==> !is_ascii_alpha(#[trigger] params[k]),
        is_ascii_alpha(fin),
    ensures
        scan(prefix + seq![ESC, 0x5b] + params + seq![fin]) == scan(prefix),
        pty_lines(prefix + seq![ESC, 0x5b] + params + seq![fin] + rest) == pty_lines(
            prefix + rest,
        ),
{
    let s = scan(prefix);
    let intro: Seq<u8> = seq![ESC, 0x5b];
    let whole = intro + params + seq![fin];
    lemma_scan_append(scan_start(), prefix, whole);
    assert(prefix + intro + params + seq![fin] =~= prefix + whole);
    assert(whole =~= seq![ESC] + (seq![0x5bu8] + (params + seq![fin])));
    lemma_scan_cons(s, ESC, seq![0x5bu8] + (params + seq![fin]));
    let s1 = scan_step(s, ESC);
    lemma_scan_cons(s1, 0x5b, params + seq![fin]);
    let s2 = scan_step(s1, 0x5b);
    lemma_scan_append(s2, params, seq![fin]);
    lemma_csi_params(s2, params);
    lemma_scan_one(s2, fin);
    assert(scan_step(s2, fin) == s);
    lemma_no_trace(prefix, whole, rest);
    assert(prefix + intro + params + seq![fin] + rest =~= prefix + whole + rest);
}

/// Law: a complete OSC sequence (`ESC ]`, a body without `BEL` or `ESC`, then
/// `BEL`) read in plain text is stripped without trace. Ended by `ESC \`
/// instead, it leaves no trace either, except that a `BEL` right after it is
/// swallowed as well.
pub proof fn lemma_osc_sequence_stripped(prefix: Seq<u8>, body: Seq<u8>, rest: Seq<u8>)
    requires
        scan(prefix).mode == Scan::Ground,
        forall|k: int| 0 <= k < body.len() ==> #[trigger] body[k] != BEL && body[k] != ESC,
    ensures
        scan(prefix + seq![ESC, 0x5d] + body + seq![BEL]) == scan(prefix),
        pty_lines(prefix + seq![ESC, 0x5d] + body + seq![BEL] + rest) == pty_lines(prefix + rest),
        rest.len() == 0 || rest[0] != BEL ==> pty_lines(
            prefix + seq![ESC, 0x5d] + body + seq![ESC, 0x5c] + rest,
        ) == pty_lines(prefix + rest),
        pty_lines(prefix + seq![ESC, 0x5d] + body + seq![ESC, 0x5c, BEL] + rest) == pty_lines(
            prefix + rest,
        ),
{
    let s = scan(prefix);
    let intro: Seq<u8> = seq![ESC, 0x5d];
    lemma_scan_append(scan_start(), prefix, intro + body);
    assert(intro + body =~= seq![ESC] + (seq![0x5du8] + body));
    lemma_scan_cons(s, ESC, seq![0x5du8] + body);
    let s1 = scan_step(s, ESC);
    lemma_scan_cons(s1, 0x5d, body);
    let s2 = scan_step(s1, 0x5d);
    lemma_osc_body(s2, body);
    assert(prefix + intro + body =~= prefix + (intro + body));
    let opened = prefix + intro + body;
    assert(scan(opened) == s2);
    // ended by BEL
    lemma_scan_append(scan_start(), opened, seq![BEL]);
    lemma_scan_one(s2, BEL);
    assert(scan(opened + seq![BEL]) == s);
    assert(opened + seq![BEL] =~= prefix + (intro + body + seq![BEL]));
    lemma_no_trace(prefix, intro + body + seq![BEL], rest);
    assert(prefix + intro + body + seq![BEL] + rest =~= prefix + (intro + body + seq![BEL]) + rest);
    // ended by ESC backslash
    let st: Seq<u8> = seq![ESC, 0x5c];
    lemma_scan_append(scan_start(), opened, st);
    assert(st =~= seq![ESC] + seq![0x5cu8]);
    lemma_scan_cons(s2, ESC, seq![0x5cu8]);
    lemma_scan_one(scan_step(s2, ESC), 0x5c);
    let sa = scan(opened + st);
    assert(sa == Scanner { mode: Scan::AfterOsc, ..s });
    lemma_scan_append(scan_start(), opened + st, rest);
    lemma_scan_append(scan_start(), prefix, rest);
    if rest.len() > 0 && rest[0] != BEL {
        assert(rest =~= seq![rest[0]] + rest.drop_first());
        lemma_scan_cons(sa, rest[0], rest.drop_first());
        lemma_scan_cons(s, rest[0], rest.drop_first());
        assert(scan_step(sa, rest[0]) == scan_step(s, rest[0]));
    }
    assert(prefix + intro + body + st + rest =~= opened + st + rest);
    // ended by ESC backslash, then BEL
    let stb: Seq<u8> = seq![ESC, 0x5c, BEL];
    lemma_scan_append(scan_start(), opened + st, seq![BEL]);
    lemma_scan_one(sa, BEL);
    assert(opened + st + seq![BEL] =~= prefix + (intro + body + stb));
    lemma_no_trace(prefix, intro + body + stb, rest);
    assert(prefix + intro + body + stb + rest =~= prefix + (intro + body + stb) + rest);
}

/// Law: in plain text, a bare `\r` clears the current line (the next byte
/// written to it starts it afresh, and at the end of the input it is left
/// empty), while `\r\n` keeps the line and starts a new one just as `\n` does;
/// backspace removes the last byte of the current line, if it has one.
pub proof fn lemma_line_editing(raw: Seq<u8>, b: u8)
    requires
        scan(raw).mode == Scan::Ground,
    ensures
        ({
            let s = scan(raw);
            let lines = pty_byte_lines(raw);
            let last = lines.len() - 1;
            &&& pty_byte_lines(raw.push(CR)) == lines.update(last, Seq::empty())
            &&& !is_line_control(b) ==> pty_byte_lines(raw.push(CR).push(b)) == lines.update(
                last,
                seq![b],
            )
            &&& pty_byte_lines(raw.push(LF)) == s.lines.push(Seq::empty())
            &&& !s.cr ==> pty_byte_lines(raw.push(LF)) == lines.push(Seq::empty())
            &&& pty_byte_lines(raw.push(CR).push(LF)) == pty_byte_lines(raw.push(LF))
            &&& pty_byte_lines(raw.push(DEL)) == (if lines.last().len() == 0 {
                lines
            } else {
                lines.update(last, lines.last().drop_last())
            })
            &&& pty_byte_lines(raw.push(BS)) == pty_byte_lines(raw.push(DEL))
        }),
{
    assert(lines_wf(scan_start().lines));
    lemma_scan_from_keeps_wf(scan_start(), raw);
    let s = scan(raw);
    assert(raw.push(CR).drop_last() =~= raw);
    assert(raw.push(LF).drop_last() =~= raw);
    assert(raw.push(DEL).drop_last() =~= raw);
    assert(raw.push(BS).drop_last() =~= raw);
    assert(raw.push(CR).push(b).drop_last() =~= raw.push(CR));
    assert(raw.push(CR).push(LF).drop_last() =~= raw.push(CR));
    let c = clear_last(s.lines);
    assert(clear_last(c) =~= c);
    assert(c.update(c.len() - 1, c.last().push(b)) =~= s.lines.update(s.lines.len() - 1, seq![b]));
    assert(c.update(c.len() - 1, c.last().push(b)) =~= c.update(c.len() - 1, seq![b]));
}

/// Turns raw PTY bytes into scrollback lines, each still as bytes.
pub fn render_pty_byte_lines(raw: &[u8]) -> (lines: Vec<Vec<u8>>)
    ensures
        byte_views(lines@) == pty_byte_lines(raw@),
{
    let mut done: Vec<Vec<u8>> = Vec::new();
    let mut cur: Vec<u8> = Vec::new();
    let mut st = Scan::Ground;
    let mut pending = false;
    let mut i: usize = 0;
    assert(raw@.take(0) =~= Seq::<u8>::empty());
    assert(byte_views(done@).push(cur@) =~= seq![Seq::<u8>::empty()]);
    while i < raw.len()
        invariant
            i <= raw.len(),
            scan(raw@.take(i as int)) == (Scanner {
                mode: st,
                cr: pending,
                lines: byte_views(done@).push(cur@),
            }),
        decreases raw.len() - i,
    {
        let b = raw[i];
        let ghost before = byte_views(done@).push(cur@);
        let ghost was_pending = pending;
        assert(raw@.take(i + 1).drop_last() =~= raw@.take(i as int));
        assert(raw@.take(i + 1).last() == b);
        let ground = match st {
            Scan::Ground => true,
            Scan::Escape => {
                st = if b == 0x5b {
                    Scan::Csi
                } else if b == 0x5d {
                    Scan::Osc
                } else {
                    Scan::Ground
                };
                false
            },
            Scan::Csi => {
                if (0x41 <= b && b <= 0x5a) || (0x61 <= b && b <= 0x7a) {
                    st = Scan::Ground;
                }
                false
            },
            Scan::Osc => {
                st = if b == BEL {
                    Scan::Ground
                } else if b == ESC {
                    Scan::OscEscape
                } else {
                    Scan::Osc
                };
                false
            },
            Scan::OscEscape => {
                st = if b == 0x5c {
                    Scan::AfterOsc
                } else if b == BEL {
                    Scan::Ground
                } else if b == ESC {
                    Scan::OscEscape
                } else {
                    Scan::Osc
                };
                false
            },
            Scan::AfterOsc => {
                if b == BEL {
                    st = Scan::Ground;
                    false
                } else {
                    true
                }
            },
        };
        if ground {
            if b == ESC {
                st = Scan::Escape;
            } else if b == CR {
                st = Scan::Ground;
                pending = true;
            } else {
                st = Scan::Ground;
                if b == LF {
                    let line = cur;
                    done.push(line);
                    cur = Vec::new();
                } else {
                    if pending {
                        cur = Vec::new();
                    }
                    if b == DEL || b == BS {
                        if cur.len() > 0 {
                            cur.pop();
                        }
                    } else {
                        cur.push(b);
                    }
                }
                pending = false;
                proof {
                    assert(byte_views(done@).push(cur@) =~= edit_lines(before, was_pending, b));
                }
            }
        }
        i += 1;
    }
    assert(raw@.take(raw.len() as int) =~= raw@);
    if pending {
        cur = Vec::new();
    }
    let ghost all = byte_views(done@).push(cur@);
    assert(all =~= pty_byte_lines(raw@));
    done.push(cur);
    assert(byte_views(done@) =~= all);
    done
}

/// Turns raw PTY bytes (which may hold ANSI escape sequences, bare `\r`
/// line redraws and backspace bytes) into plain scrollback lines.
pub fn render_pty_lines(raw: &[u8]) -> (lines: Vec<String>)
    ensures
        string_views(lines@) == pty_lines(raw@),
        forall|i: int|
            0 <= i < lines@.len() && valid_utf8(#[trigger] pty_byte_lines(raw@)[i]) ==> lines@[i]@
                == decode_utf8(pty_byte_lines(raw@)[i]),
{
    let byte_lines = render_pty_byte_lines(raw);
    let mut out: Vec<String> = Vec::new();
    let mut i: usize = 0;
    while i < byte_lines.len()
        invariant
            i <= byte_lines.len(),
            out@.len() == i,
            byte_views(byte_lines@) == pty_byte_lines(raw@),
            string_views(out@) =~= pty_lines(raw@).take(i as int),
            forall|k: int|
                0 <= k < i && valid_utf8(#[trigger] pty_byte_lines(raw@)[k]) ==> out@[k]@
                    == decode_utf8(pty_byte_lines(raw@)[k]),
        decreases byte_lines.len() - i,
    {
        let s = lossy_text(byte_lines[i].as_slice());
        let ghost prev = out@;
        let ghost sv = s@;
        proof {
            assert(byte_views(byte_lines@)[i as int] == byte_lines@[i as int]@);
            assert(pty_lines(raw@)[i as int] == utf8_lossy(pty_byte_lines(raw@)[i as int]));
        }
        out.push(s);
        proof {
            assert(out@[i as int]@ == sv);
            assert(forall|k: int| 0 <= k < i ==> out@[k] == prev[k]);
            assert(string_views(out@) =~= string_views(prev).push(sv));
            assert(pty_lines(raw@).take(i + 1) =~= pty_lines(raw@).take(i as int).push(
                pty_lines(raw@)[i as int],
            ));
        }
        i += 1;
    }
    assert(pty_lines(raw@).take(byte_lines.len() as int) =~= pty_lines(raw@));
    out
}

} // verus!

verus! {

/// A key as the terminal front end reports it, reduced to what is forwarded
/// to a pane. Every key with no raw-byte mapping (function keys, ...) is `Other`.
#[derive(Clone, Copy, PartialEq, Eq, Structural, Debug)]
pub enum KeyCode {
    Char(char),
    Enter,
    Backspace,
    Tab,
    Esc,
    Up,
    Down,
    Right,
    Left,
    Other,
}

pub open spec fn is_ascii_letter(c: char) -> bool {
    ('a' <= c <= 'z') || ('A' <= c <= 'Z')
}

/// The control byte for a letter: `ctrl+a` is 1, ..., `ctrl+z` is 26, either case.
pub open spec fn ctrl_byte(c: char) -> u8 {
    if 'a' <= c <= 'z' {
        (c as u32 - 0x60) as u8
    } else {
        (c as u32 - 0x40) as u8
    }
}

/// The raw bytes a real terminal sends for a key, or `None` for keys with no
/// sensible mapping.
pub open spec fn key_bytes(code: KeyCode, ctrl: bool) -> Option<Seq<u8>> {
    match code {
        KeyCode::Char(c) => if ctrl && is_ascii_letter(c) {
            Some(seq![ctrl_byte(c)])
        } else {
            Some(encode_utf8(seq![c]))
        },
        KeyCode::Enter => Some(seq![CR]),
        KeyCode::Backspace => Some(seq![DEL]),
        KeyCode::Tab => Some(seq![0x09u8]),
        KeyCode::Esc => Some(seq![ESC]),
        KeyCode::Up => Some(seq![ESC, 0x5bu8, 0x41u8]),
        KeyCode::Down => Some(seq![ESC, 0x5bu8, 0x42u8]),
        KeyCode::Right => Some(seq![ESC, 0x5bu8, 0x43u8]),
        KeyCode::Left => Some(seq![ESC, 0x5bu8, 0x44u8]),
        KeyCode::Other => None,
    }
}

/// Law: without ctrl, a character key sends exactly that character's UTF-8
/// encoding. With ctrl, a letter sends one control byte, its code modulo 32
/// (1 to 26, the same for either case), and every other key sends what it
/// sends without ctrl.
pub proof fn lemma_key_bytes(code: KeyCode, c: char)
    ensures
        code == KeyCode::Char(c) ==> key_bytes(code, false) == Some(encode_utf8(seq![c])),
        code == KeyCode::Char(c) && (('a' <= c <= 'z') || ('A' <= c <= 'Z')) ==> key_bytes(
            code,
            true,
        ) == Some(seq![((c as u32) % 32) as u8]) && 1 <= (c as u32) % 32 <= 26,
        code == KeyCode::Char(c) && !(('a' <= c <= 'z') || ('A' <= c <= 'Z')) ==> key_bytes(
            code,
            true,
        ) == key_bytes(code, false),
        code !is Char ==> key_bytes(code, true) == key_bytes(code, false),
{
    let u = c as u32;
    if 'a' <= c <= 'z' {
        assert(u - 0x60 == u % 32) by {
            assert(0x61 <= u <= 0x7a);
        }
    } else if 'A' <= c <= 'Z' {
        assert(u - 0x40 == u % 32) by {
            assert(0x41 <= u <= 0x5a);
        }
    }
}

/// The UTF-8 encoding of one character.
pub fn encode_char(c: char) -> (v: Vec<u8>)
    ensures
        v@ == encode_utf8(seq![c]),
{
    proof {
        char_is_scalar(c);
        assert(seq![c].drop_first() =~= Seq::<char>::empty());
        assert(encode_utf8(Seq::<char>::empty()) == Seq::<u8>::empty());
        assert(seq![c][0] == c);
        assert(encode_utf8(seq![c]) =~= encode_scalar(c as u32));
    }
    let s = c as u32;
    if s <= 0x7f {
        vec![(s & 0x7f) as u8]
    } else if s <= 0x7ff {
        vec![0xC0u8 | ((s >> 6) & 0x1F) as u8, 0x80u8 | (s & 0x3F) as u8]
    } else if s <= 0xffff {
        vec![0xE0u8 | ((s >> 12) & 0x0F) as u8, 0x80u8 | ((s >> 6) & 0x3F) as u8, 0x80u8 | (s & 0x3F) as u8]
    } else {
        vec![
            0xF0u8 | ((s >> 18) & 0x7) as u8,
            0x80u8 | ((s >> 12) & 0x3F) as u8,
            0x80u8 | ((s >> 6) & 0x3F) as u8,
            0x80u8 | (s & 0x3F) as u8,
        ]
    }
}

/// Maps a pressed key (already decided to be forwarded to a pane) to the raw
/// bytes a real terminal would send for it. Returns `None` for keys with no
/// sensible raw-byte mapping; those are dropped rather than guessed at.
pub fn key_to_bytes(code: KeyCode, ctrl: bool) -> (r: Option<Vec<u8>>)
    ensures
        r is Some <==> key_bytes(code, ctrl) is Some,
        r is Some ==> r->0@ == key_bytes(code, ctrl)->0,
{
    if ctrl {
        if let KeyCode::Char(c) = code {
            if 'a' <= c && c <= 'z' {
                let b = (c as u32 - 0x60) as u8;
                return Some(vec![b]);
            } else if 'A' <= c && c <= 'Z' {
                let b = (c as u32 - 0x40) as u8;
                return Some(vec![b]);
            }
        }
    }
    match code {
        KeyCode::Char(c) => Some(encode_char(c)),
        KeyCode::Enter => Some(vec![CR]),
        KeyCode::Backspace => Some(vec![DEL]),
        KeyCode::Tab => Some(vec![0x09u8]),
        KeyCode::Esc => Some(vec![ESC]),
        KeyCode::Up => Some(vec![ESC, 0x5bu8, 0x41u8]),
        KeyCode::Down => Some(vec![ESC, 0x5bu8, 0x42u8]),
        KeyCode::Right => Some(vec![ESC, 0x5bu8, 0x43u8]),
        KeyCode::Left => Some(vec![ESC, 0x5bu8, 0x44u8]),
        KeyCode::Other => None,
    }
}

} // verus!
