//! The list of processes of the remote host.

use vstd::prelude::*;
use crate::error::{message_text, SshError};
use crate::scan::{
    all_fit, copy_span, join_from, joined, line_spans, lines, span_string, split_lines,
    split_tokens, tokens, views,
};
use crate::text::{chars_to_string, push_text, to_chars};

verus! {

/// One process, as `ps` lists it.
#[derive(Debug, Clone, PartialEq, Eq)]
pub struct ProcessInfo {
    pub pid: String,
    pub user: String,
    pub cpu: String,
    pub mem: String,
    pub command: String,
}

/// A process as contracts see it.
pub struct ProcessInfoView {
    pub pid: Seq<char>,
    pub user: Seq<char>,
    pub cpu: Seq<char>,
    pub mem: Seq<char>,
    pub command: Seq<char>,
}

impl View for ProcessInfo {
    type V = ProcessInfoView;

    open spec fn view(&self) -> ProcessInfoView {
        ProcessInfoView {
            pid: self.pid@,
            user: self.user@,
            cpu: self.cpu@,
            mem: self.mem@,
            command: self.command@,
        }
    }
}

/// The answer to a request for the processes.
#[derive(Debug, Clone, PartialEq, Eq)]
pub struct ProcessListResponse {
    pub success: bool,
    pub processes: Option<Vec<ProcessInfo>>,
    pub error: Option<String>,
}

/// The key that `ps` sorts by: memory where that is asked for, else the
/// processor.
pub open spec fn sort_key(sort_by: Option<Seq<char>>) -> Seq<char> {
    if sort_by == Some("mem"@) {
        "-%mem"@
    } else {
        "-%cpu"@
    }
}

/// The command that lists the processes.
pub fn processes_command(sort_by: Option<&str>) -> (r: String)
    ensures
        r@ == "ps aux --sort="@ + sort_key(
            match sort_by {
                Some(s) => Some(s@),
                None => None,
            },
        ) + " | head -50"@,
{
    let mut out: Vec<char> = Vec::new();
    push_text(&mut out, "ps aux --sort=");
    let by_memory = match sort_by {
        Some(s) => {
            let v = to_chars(s);
            crate::text::slice_is(&v, 0, v.len(), "mem")
        },
        None => false,
    };
    proof {
        match sort_by {
            Some(s) => {
                assert(s@.subrange(0, s@.len() as int) == s@);
            },
            None => {},
        }
    }
    if by_memory {
        push_text(&mut out, "-%mem");
    } else {
        push_text(&mut out, "-%cpu");
    }
    push_text(&mut out, " | head -50");
    chars_to_string(&out)
}

/// The process that a line of `ps aux` describes: a line of at least eleven
/// tokens gives the user, the process number, the shares of processor and
/// memory, and from the eleventh token on the command.
pub open spec fn process_of_line(line: Seq<char>) -> Option<ProcessInfoView> {
    let t = tokens(line);
    if t.len() >= 11 {
        Some(
            ProcessInfoView {
                user: t[0],
                pid: t[1],
                cpu: t[2],
                mem: t[3],
                command: joined(t.skip(10)),
            },
        )
    } else {
        None
    }
}

/// The processes that the lines from `k` on describe.
pub open spec fn processes_from(ls: Seq<Seq<char>>, k: int) -> Seq<ProcessInfoView>
    decreases ls.len() - k,
{
    if 0 <= k < ls.len() {
        match process_of_line(ls[k]) {
            Some(p) => seq![p] + processes_from(ls, k + 1),
            None => processes_from(ls, k + 1),
        }
    } else {
        Seq::empty()
    }
}

/// The processes that the output of `ps aux` lists: its first line is the
/// header, and lines that describe no process are passed over.
pub open spec fn processes_of(output: Seq<char>) -> Seq<ProcessInfoView> {
    processes_from(lines(output), 1)
}

fn parse_process_line(line: &Vec<char>) -> (r: Option<ProcessInfo>)
    ensures
        match r {
            Some(p) => process_of_line(line@) == Some(p@),
            None => process_of_line(line@) is None,
        },
{
    let t = split_tokens(line);
    if t.len() >= 11 {
        assert(t@[0].fits(line@.len()) && t@[1].fits(line@.len()) && t@[2].fits(line@.len())
            && t@[3].fits(line@.len()));
        Some(
            ProcessInfo {
                user: span_string(line, t[0]),
                pid: span_string(line, t[1]),
                cpu: span_string(line, t[2]),
                mem: span_string(line, t[3]),
                command: join_from(line, &t, 10),
            },
        )
    } else {
        None
    }
}

/// Reads the output of `ps aux`.
pub fn parse_processes(output: &str) -> (r: Vec<ProcessInfo>)
    ensures
        views(r@) == processes_of(output@),
{
    let v = to_chars(output);
    let ls = split_lines(&v);
    let ghost all = lines(output@);
    let mut r: Vec<ProcessInfo> = Vec::new();
    if ls.len() == 0 {
        assert(views(r@) =~= processes_of(output@));
        return r;
    }
    let mut k: usize = 1;
    while k < ls.len()
        invariant
            1 <= k <= ls@.len(),
            v@ == output@,
            ls@ == line_spans(v@),
            all == lines(output@),
            all_fit(ls@, v@.len()),
            views(r@) + processes_from(all, k as int) == processes_of(output@),
        decreases ls@.len() - k,
    {
        assert(ls@[k as int].fits(v@.len()));
        let line = copy_span(&v, ls[k]);
        assert(line@ == all[k as int]);
        let ghost before = views(r@);
        match parse_process_line(&line) {
            Some(p) => {
                r.push(p);
                assert(views(r@) =~= before.push(p@));
                assert(before.push(p@) + processes_from(all, k + 1) == before + (seq![p@]
                    + processes_from(all, k + 1)));
            },
            None => {},
        }
        k += 1;
    }
    assert(processes_from(all, k as int) == Seq::<ProcessInfoView>::empty());
    assert(views(r@) + Seq::<ProcessInfoView>::empty() == views(r@));
    r
}

/// The answer for the output of `ps aux`, or for the error that the command
/// ended with.
pub fn processes_response(result: Result<String, SshError>) -> (r: ProcessListResponse)
    ensures
        match result {
            Ok(output) => r.success && r.error is None && r.processes is Some && views(
                r.processes->0@,
            ) == processes_of(output@),
            Err(e) => !r.success && r.processes is None && r.error is Some && r.error->0@
                == message_text(e),
        },
{
    match result {
        Ok(output) => ProcessListResponse {
            success: true,
            processes: Some(parse_processes(output.as_str())),
            error: None,
        },
        Err(e) => ProcessListResponse {
            success: false,
            processes: None,
            error: Some(e.message()),
        },
    }
}

} // verus!
