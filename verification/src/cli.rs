//! The command-line side of the pane manager: turning `sieg <command>`
//! arguments into requests, and server answers into printed text.
//!
//! Sending the request and printing stay with the program; a usage error is
//! returned as the message to print before exiting with status 2.
use vstd::prelude::*;

use crate::protocol::{PaneInfo, PaneStatus, Request, Response};
use crate::text::{
    decimal, join_strings, join_with, pad_right, parse_usize, parse_usize_spec,
    push_char, push_decimal, push_padded, string_seqs, text_eq,
};

verus! {

pub open spec fn spawn_usage() -> Seq<char> {
    "usage: sieg spawn <name> -- <command...>"@
}

pub open spec fn send_usage() -> Seq<char> {
    "usage: sieg send <name> <text...>"@
}

pub open spec fn read_usage() -> Seq<char> {
    "usage: sieg read <name> [lines]"@
}

pub open spec fn kill_usage() -> Seq<char> {
    "usage: sieg kill <name>"@
}

/// The command of `sieg spawn <name> [--] <command...>`: the arguments after
/// the name, without a leading `--`.
pub open spec fn spawn_command(args: Seq<Seq<char>>) -> Seq<Seq<char>> {
    let rest = args.drop_first();
    if rest.len() > 0 && rest[0] == "--"@ {
        rest.drop_first()
    } else {
        rest
    }
}

/// `sieg spawn <name> -- <command...>`: a spawn request, or the usage
/// message when the name or the command is missing.
pub fn spawn(args: &Vec<String>) -> (r: Result<Request, String>)
    ensures
        args@.len() == 0 || spawn_command(string_seqs(args@)).len() == 0 <==> r is Err,
        r matches Err(m) ==> m@ == spawn_usage(),
        r matches Ok(req) ==> req matches Request::Spawn { name, command } && name@ == args@[0]@
            && string_seqs(command@) == spawn_command(string_seqs(args@)),
{
    if args.len() == 0 {
        return Err(String::from_str("usage: sieg spawn <name> -- <command...>"));
    }
    let name = args[0].clone();
    let ghost views = string_seqs(args@);
    let skip: usize = if args.len() > 1 && text_eq(args[1].as_str(), "--") {
        2
    } else {
        1
    };
    let mut command: Vec<String> = Vec::new();
    let mut i: usize = skip;
    while i < args.len()
        invariant
            skip <= i <= args.len(),
            views == string_seqs(args@),
            string_seqs(command@) == views.subrange(skip as int, i as int),
        decreases args.len() - i,
    {
        let ghost prev = command@;
        command.push(args[i].clone());
        assert(string_seqs(command@) =~= string_seqs(prev).push(args@[i as int]@));
        assert(views.subrange(skip as int, i + 1) =~= views.subrange(skip as int, i as int).push(
            views[i as int],
        ));
        i += 1;
    }
    proof {
        let rest = views.drop_first();
        if skip == 2 {
            assert(rest[0] == views[1]);
            assert(views.subrange(2, args.len() as int) =~= rest.drop_first());
        } else {
            if args.len() > 1 {
                assert(rest[0] == views[1]);
            }
            assert(views.subrange(1, args.len() as int) =~= rest);
        }
    }
    if command.len() == 0 {
        return Err(String::from_str("usage: sieg spawn <name> -- <command...>"));
    }
    Ok(Request::Spawn { name, command })
}

/// The text that `sieg send <name> <text...>` sends: the words joined with
/// spaces, then a newline.
pub open spec fn send_text(args: Seq<Seq<char>>) -> Seq<char> {
    join_with(args.drop_first(), " "@).push('\n')
}

/// Law: the text that `sieg send` sends always ends with a newline, so the
/// pane runs the line; before it come the words after the pane name, joined
/// with single spaces.
pub proof fn lemma_send_text(args: Seq<Seq<char>>)
    requires
        args.len() >= 2,
    ensures
        send_text(args).len() >= 1,
        send_text(args).last() == '\n',
        send_text(args).drop_last() == join_with(args.subrange(1, args.len() as int), " "@),
{
    assert(args.drop_first() =~= args.subrange(1, args.len() as int));
}

/// `sieg send <name> <text...>`: a send request, or the usage message when
/// the name or the text is missing.
pub fn send(args: &Vec<String>) -> (r: Result<Request, String>)
    ensures
        args@.len() < 2 <==> r is Err,
        r matches Err(m) ==> m@ == send_usage(),
        r matches Ok(req) ==> req matches Request::Send { name, text } && name@ == args@[0]@
            && text@ == send_text(string_seqs(args@)),
{
    if args.len() < 2 {
        return Err(String::from_str("usage: sieg send <name> <text...>"));
    }
    let name = args[0].clone();
    let mut words: Vec<String> = Vec::new();
    let mut i: usize = 1;
    while i < args.len()
        invariant
            1 <= i <= args.len(),
            string_seqs(words@) == string_seqs(args@).subrange(1, i as int),
        decreases args.len() - i,
    {
        let ghost prev = words@;
        words.push(args[i].clone());
        assert(string_seqs(words@) =~= string_seqs(prev).push(args@[i as int]@));
        assert(string_seqs(args@).subrange(1, i + 1) =~= string_seqs(args@).subrange(
            1,
            i as int,
        ).push(args@[i as int]@));
        i += 1;
    }
    assert(string_seqs(args@).subrange(1, args.len() as int) =~= string_seqs(args@).drop_first());
    let mut text = join_strings(&words, " ");
    push_char(&mut text, '\n');
    Ok(Request::Send { name, text })
}

/// How many lines `sieg read <name> [lines]` asks for: the second argument if
/// it is a number, else all of them.
pub open spec fn read_lines_arg(args: Seq<Seq<char>>) -> Option<nat> {
    if args.len() > 1 {
        parse_usize_spec(args[1])
    } else {
        None
    }
}

/// `sieg read <name> [lines]`: a read request, or the usage message when the
/// name is missing. A line count that is not a number reads everything.
pub fn read(args: &Vec<String>) -> (r: Result<Request, String>)
    ensures
        args@.len() == 0 <==> r is Err,
        r matches Err(m) ==> m@ == read_usage(),
        r matches Ok(req) ==> req matches Request::Read { name, lines } && name@ == args@[0]@
            && match lines {
            Some(n) => read_lines_arg(string_seqs(args@)) == Some(n as nat),
            None => read_lines_arg(string_seqs(args@)) is None,
        },
{
    if args.len() == 0 {
        return Err(String::from_str("usage: sieg read <name> [lines]"));
    }
    let name = args[0].clone();
    let lines = if args.len() > 1 {
        parse_usize(args[1].as_str())
    } else {
        None
    };
    Ok(Request::Read { name, lines })
}

/// `sieg kill <name>`: a kill request, or the usage message when the name is
/// missing.
pub fn kill(args: &Vec<String>) -> (r: Result<Request, String>)
    ensures
        args@.len() == 0 <==> r is Err,
        r matches Err(m) ==> m@ == kill_usage(),
        r matches Ok(req) ==> req matches Request::Kill { name } && name@ == args@[0]@,
{
    if args.len() == 0 {
        return Err(String::from_str("usage: sieg kill <name>"));
    }
    Ok(Request::Kill { name: args[0].clone() })
}

/// How a pane's status reads: `running` or `exited(<code>)`.
pub open spec fn status_label(status: PaneStatus) -> Seq<char> {
    match status {
        PaneStatus::Running => "running"@,
        PaneStatus::Exited { code } => "exited("@ + decimal(code as nat) + ")"@,
    }
}

pub fn status_text(status: PaneStatus) -> (s: String)
    ensures
        s@ == status_label(status),
{
    match status {
        PaneStatus::Running => String::from_str("running"),
        PaneStatus::Exited { code } => {
            let mut s = String::from_str("exited(");
            push_decimal(&mut s, code as u64);
            s.append(")");
            s
        },
    }
}

/// One row of the `sieg list` table: name and status in columns of 20 and 14
/// characters, then the command.
pub open spec fn table_row(name: Seq<char>, status: Seq<char>, command: Seq<char>) -> Seq<char> {
    pad_right(name, 20) + " "@ + pad_right(status, 14) + " "@ + command
}

/// What `sieg list` prints for a pane list, line by line: `no panes`, or a
/// header row and one row per pane.
pub open spec fn pane_table_lines(panes: Seq<PaneInfo>) -> Seq<Seq<char>> {
    if panes.len() == 0 {
        seq!["no panes"@]
    } else {
        seq![table_row("NAME"@, "STATUS"@, "COMMAND"@)] + panes.map_values(
            |p: PaneInfo|
                table_row(p.name@, status_label(p.status), join_with(string_seqs(p.command@), " "@)),
        )
    }
}

fn table_row_exec(name: &str, status: &str, command: &str) -> (s: String)
    ensures
        s@ == table_row(name@, status@, command@),
{
    let mut s = String::new();
    push_padded(&mut s, name, 20);
    s.append(" ");
    push_padded(&mut s, status, 14);
    s.append(" ");
    s.append(command);
    assert(s@ =~= table_row(name@, status@, command@));
    s
}

/// The lines that `sieg list` prints.
pub fn pane_table(panes: &Vec<PaneInfo>) -> (lines: Vec<String>)
    ensures
        string_seqs(lines@) == pane_table_lines(panes@),
{
    let mut lines: Vec<String> = Vec::new();
    if panes.len() == 0 {
        lines.push(String::from_str("no panes"));
        assert(string_seqs(lines@) =~= pane_table_lines(panes@));
        return lines;
    }
    lines.push(table_row_exec("NAME", "STATUS", "COMMAND"));
    let ghost rows = panes@.map_values(
        |p: PaneInfo|
            table_row(p.name@, status_label(p.status), join_with(string_seqs(p.command@), " "@)),
    );
    let mut i: usize = 0;
    while i < panes.len()
        invariant
            i <= panes.len(),
            rows == panes@.map_values(
                |p: PaneInfo|
                    table_row(p.name@, status_label(p.status), join_with(string_seqs(p.command@), " "@)),
            ),
            string_seqs(lines@) == seq![table_row("NAME"@, "STATUS"@, "COMMAND"@)] + rows.take(
                i as int,
            ),
        decreases panes.len() - i,
    {
        let p = &panes[i];
        let status = status_text(p.status);
        let command = join_strings(&p.command, " ");
        let row = table_row_exec(p.name.as_str(), status.as_str(), command.as_str());
        let ghost prev = lines@;
        lines.push(row);
        assert(string_seqs(lines@) =~= string_seqs(prev).push(row@));
        assert(rows.take(i + 1) =~= rows.take(i as int).push(rows[i as int]));
        i += 1;
    }
    assert(rows.take(panes.len() as int) =~= rows);
    lines
}

/// What a failed command prints: `error: ` and the server's message, or
/// `unknown error` when it gave none.
pub open spec fn failure_text(response: Response) -> Seq<char> {
    "error: "@ + match response.error {
        Some(e) => e@,
        None => "unknown error"@,
    }
}

pub fn failure_message(response: &Response) -> (s: String)
    ensures
        s@ == failure_text(*response),
{
    let mut s = String::from_str("error: ");
    match &response.error {
        Some(e) => s.append(e.as_str()),
        None => s.append("unknown error"),
    }
    s
}

} // verus!
