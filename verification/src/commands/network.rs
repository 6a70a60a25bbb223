//! The sockets, interfaces and connections of the remote host.

use vstd::prelude::*;
use crate::error::{message_text, SshError};
use crate::number::{parse_u32_or_zero, parse_u64, parse_unsigned, u32_or_zero};
use crate::scan::{
    all_fit, copy_span, fields, find, find_sub, line_spans, lines, span_is, span_string,
    split_fields, split_lines, split_tokens, starts_with, texts, tokens, trimmed, trimmed_copy,
    views, whole, Span,
};
use crate::text::to_chars;

verus! {

/// The counts of sockets, as `ss -s` sums them up.
#[derive(Debug, Clone, Copy, PartialEq, Eq)]
pub struct NetworkSocketStats {
    pub total: u32,
    pub tcp_total: u32,
    pub tcp_established: u32,
    pub tcp_timewait: u32,
    pub tcp_synrecv: u32,
    pub udp_total: u32,
}

/// The answer to a request for the counts of sockets.
#[derive(Debug, Clone, PartialEq, Eq)]
pub struct NetworkSocketResponse {
    pub success: bool,
    pub stats: Option<NetworkSocketStats>,
    pub error: Option<String>,
}

/// The command that counts the sockets.
pub fn socket_stats_command() -> (r: &'static str)
    ensures
        r@ == "ss -s 2>/dev/null || echo 'Total: 0'; echo \"---SYNRECV---\"; ss -ant 2>/dev/null | grep -c SYN-RECV || echo 0"@,
{
    "ss -s 2>/dev/null || echo 'Total: 0'; echo \"---SYNRECV---\"; ss -ant 2>/dev/null | grep -c SYN-RECV || echo 0"
}

/// The line that parts the summary from the count of half-open connections.
pub open spec fn synrecv_mark() -> Seq<char> {
    "---SYNRECV---"@
}

/// The number that the second token of `line` writes, or 0.
pub open spec fn second_number(line: Seq<char>) -> u32 {
    let t = tokens(line);
    if t.len() >= 2 {
        u32_or_zero(t[1])
    } else {
        0
    }
}

/// The first position at or after `i` that holds a comma or a closing
/// bracket, or the length of `s`.
pub open spec fn find_stop(s: Seq<char>, i: int) -> int
    decreases s.len() - i,
{
    if 0 <= i < s.len() && s[i] != ',' && s[i] != ')' {
        find_stop(s, i + 1)
    } else {
        i
    }
}

/// The text that follows position `start` of `line`, up to the next comma
/// or closing bracket.
pub open spec fn item_after(line: Seq<char>, start: int) -> Seq<char> {
    line.subrange(start, find_stop(line, start))
}

/// The number that follows the first `label` in `line`, up to the next comma
/// or closing bracket, or 0 where no number stands there; nothing where the
/// label does not occur.
pub open spec fn number_after(line: Seq<char>, label: Seq<char>) -> Option<u32> {
    match find_sub(line, 0, label) {
        Some(p) => Some(u32_or_zero(trimmed(item_after(line, p + label.len())))),
        None => None,
    }
}

/// The counts after a line of the summary was read. A line that begins
/// with `Total:`, `TCP:` or `UDP:`, white space at its ends aside, sets the
/// counts that it holds; any other line sets none.
pub open spec fn stats_after_line(st: NetworkSocketStats, raw: Seq<char>) -> NetworkSocketStats {
    let line = trimmed(raw);
    if "Total:"@.is_prefix_of(line) {
        NetworkSocketStats { total: second_number(line), ..st }
    } else if "TCP:"@.is_prefix_of(line) {
        NetworkSocketStats {
            tcp_total: second_number(line),
            tcp_established: match number_after(line, "estab "@) {
                Some(n) => n,
                None => st.tcp_established,
            },
            tcp_timewait: match number_after(line, "timewait "@) {
                Some(n) => n,
                None => st.tcp_timewait,
            },
            ..st
        }
    } else if "UDP:"@.is_prefix_of(line) {
        NetworkSocketStats { udp_total: second_number(line), ..st }
    } else {
        st
    }
}

/// The counts after the lines from `k` on were read.
pub open spec fn stats_after_lines(
    st: NetworkSocketStats,
    ls: Seq<Seq<char>>,
    k: int,
) -> NetworkSocketStats
    decreases ls.len() - k,
{
    if 0 <= k < ls.len() {
        stats_after_lines(stats_after_line(st, ls[k]), ls, k + 1)
    } else {
        st
    }
}

/// No socket at all.
pub open spec fn no_sockets() -> NetworkSocketStats {
    NetworkSocketStats {
        total: 0,
        tcp_total: 0,
        tcp_established: 0,
        tcp_timewait: 0,
        tcp_synrecv: 0,
        udp_total: 0,
    }
}

/// The summary in the output of the command: what stands before the mark.
pub open spec fn summary_part(output: Seq<char>) -> Seq<char> {
    match find_sub(output, 0, synrecv_mark()) {
        Some(p) => output.subrange(0, p),
        None => output,
    }
}

/// The count of half-open connections in the output of the command: what
/// stands between the mark and the next mark or the end, if there is a mark.
pub open spec fn synrecv_part(output: Seq<char>) -> Option<Seq<char>> {
    match find_sub(output, 0, synrecv_mark()) {
        Some(p) => {
            let start = p + synrecv_mark().len();
            match find_sub(output, start, synrecv_mark()) {
                Some(q) => Some(output.subrange(start, q)),
                None => Some(output.subrange(start, output.len() as int)),
            }
        },
        None => None,
    }
}

/// The counts that the output of the command holds. Counts that it does
/// not hold, or that are no numbers, are 0.
pub open spec fn socket_stats_of(output: Seq<char>) -> NetworkSocketStats {
    let st = stats_after_lines(no_sockets(), lines(summary_part(output)), 0);
    match synrecv_part(output) {
        Some(part) => NetworkSocketStats { tcp_synrecv: u32_or_zero(trimmed(part)), ..st },
        None => st,
    }
}

fn read_second_number(line: &Vec<char>) -> (r: u32)
    ensures
        r == second_number(line@),
{
    let t = split_tokens(line);
    if t.len() >= 2 {
        assert(t@[1].fits(line@.len()));
        parse_u32_or_zero(line, t[1])
    } else {
        0
    }
}

fn read_number_after(line: &Vec<char>, label: &str) -> (r: Option<u32>)
    ensures
        r == number_after(line@, label@),
{
    let l = to_chars(label);
    match find(line, 0, &l) {
        Some(p) => {
            let start = p + l.len();
            let mut end: usize = start;
            while end < line.len() && line[end] != ',' && line[end] != ')'
                invariant
                    start <= end <= line@.len(),
                    find_stop(line@, end as int) == find_stop(line@, start as int),
                decreases line@.len() - end,
            {
                end += 1;
            }
            let item = copy_span(line, Span { start, end });
            let t = trimmed_copy(&item);
            let w = whole(&t);
            Some(parse_u32_or_zero(&t, w))
        },
        None => None,
    }
}

fn read_stats_line(st: NetworkSocketStats, raw: &Vec<char>) -> (r: NetworkSocketStats)
    ensures
        r == stats_after_line(st, raw@),
{
    let line = trimmed_copy(raw);
    let w = whole(&line);
    if starts_with(&line, w, "Total:") {
        NetworkSocketStats { total: read_second_number(&line), ..st }
    } else if starts_with(&line, w, "TCP:") {
        let established = match read_number_after(&line, "estab ") {
            Some(n) => n,
            None => st.tcp_established,
        };
        let timewait = match read_number_after(&line, "timewait ") {
            Some(n) => n,
            None => st.tcp_timewait,
        };
        NetworkSocketStats {
            tcp_total: read_second_number(&line),
            tcp_established: established,
            tcp_timewait: timewait,
            ..st
        }
    } else if starts_with(&line, w, "UDP:") {
        NetworkSocketStats { udp_total: read_second_number(&line), ..st }
    } else {
        st
    }
}

/// Reads the output of the command that counts the sockets.
pub fn parse_socket_stats(output: &str) -> (r: NetworkSocketStats)
    ensures
        r == socket_stats_of(output@),
{
    let v = to_chars(output);
    let mark = to_chars("---SYNRECV---");
    let first = find(&v, 0, &mark);
    let summary_end = match first {
        Some(p) => p,
        None => v.len(),
    };
    let summary = copy_span(&v, Span { start: 0, end: summary_end });
    assert(summary@ == summary_part(output@)) by {
        assert(v@.subrange(0, v@.len() as int) == v@);
    }
    let ls = split_lines(&summary);
    let ghost all = lines(summary@);
    let mut st = NetworkSocketStats {
        total: 0,
        tcp_total: 0,
        tcp_established: 0,
        tcp_timewait: 0,
        tcp_synrecv: 0,
        udp_total: 0,
    };
    let mut k: usize = 0;
    while k < ls.len()
        invariant
            k <= ls@.len(),
            ls@ == line_spans(summary@),
            all == lines(summary@),
            all_fit(ls@, summary@.len()),
            stats_after_lines(st, all, k as int) == stats_after_lines(no_sockets(), all, 0),
        decreases ls@.len() - k,
    {
        assert(ls@[k as int].fits(summary@.len()));
        let line = copy_span(&summary, ls[k]);
        assert(line@ == all[k as int]);
        st = read_stats_line(st, &line);
        k += 1;
    }
    match first {
        Some(p) => {
            let start = p + mark.len();
            let end = match find(&v, start, &mark) {
                Some(q) => q,
                None => v.len(),
            };
            let part = copy_span(&v, Span { start, end });
            let t = trimmed_copy(&part);
            let w = whole(&t);
            NetworkSocketStats { tcp_synrecv: parse_u32_or_zero(&t, w), ..st }
        },
        None => st,
    }
}

/// The answer for the output of the command, or for the error that it
/// ended with.
pub fn socket_stats_response(result: Result<String, SshError>) -> (r: NetworkSocketResponse)
    ensures
        match result {
            Ok(output) => r.success && r.error is None && r.stats == Some(
                socket_stats_of(output@),
            ),
            Err(e) => !r.success && r.stats is None && r.error is Some && r.error->0@
                == message_text(e),
        },
{
    match result {
        Ok(output) => NetworkSocketResponse {
            success: true,
            stats: Some(parse_socket_stats(output.as_str())),
            error: None,
        },
        Err(e) => NetworkSocketResponse { success: false, stats: None, error: Some(e.message()) },
    }
}

/// The traffic of one interface.
#[derive(Debug, Clone, PartialEq, Eq)]
pub struct NetworkInterface {
    pub name: String,
    pub rx_bytes: u64,
    pub tx_bytes: u64,
    pub rx_packets: u64,
    pub tx_packets: u64,
}

/// An interface as contracts see it.
pub struct NetworkInterfaceView {
    pub name: Seq<char>,
    pub rx_bytes: u64,
    pub tx_bytes: u64,
    pub rx_packets: u64,
    pub tx_packets: u64,
}

impl View for NetworkInterface {
    type V = NetworkInterfaceView;

    open spec fn view(&self) -> NetworkInterfaceView {
        NetworkInterfaceView {
            name: self.name@,
            rx_bytes: self.rx_bytes,
            tx_bytes: self.tx_bytes,
            rx_packets: self.rx_packets,
            tx_packets: self.tx_packets,
        }
    }
}

/// The answer to a request for the traffic of the interfaces.
#[derive(Debug, Clone, PartialEq, Eq)]
pub struct NetworkStatsResponse {
    pub success: bool,
    pub interfaces: Vec<NetworkInterface>,
    pub error: Option<String>,
}

/// The command that reads the counters of every interface but the
/// loopback, one line for each: the name and four counters, with commas
/// between them.
pub fn network_stats_command() -> (r: &'static str)
    ensures
        r@ == "\nfor iface in /sys/class/net/*; do\n    name=$(basename $iface)\n    if [ \"$name\" != \"lo\" ]; then\n        rx_bytes=$(cat $iface/statistics/rx_bytes 2>/dev/null || echo 0)\n        tx_bytes=$(cat $iface/statistics/tx_bytes 2>/dev/null || echo 0)\n        rx_packets=$(cat $iface/statistics/rx_packets 2>/dev/null || echo 0)\n        tx_packets=$(cat $iface/statistics/tx_packets 2>/dev/null || echo 0)\n        echo \"$name,$rx_bytes,$tx_bytes,$rx_packets,$tx_packets\"\n    fi\ndone\n"@,
{
    "\nfor iface in /sys/class/net/*; do\n    name=$(basename $iface)\n    if [ \"$name\" != \"lo\" ]; then\n        rx_bytes=$(cat $iface/statistics/rx_bytes 2>/dev/null || echo 0)\n        tx_bytes=$(cat $iface/statistics/tx_bytes 2>/dev/null || echo 0)\n        rx_packets=$(cat $iface/statistics/rx_packets 2>/dev/null || echo 0)\n        tx_packets=$(cat $iface/statistics/tx_packets 2>/dev/null || echo 0)\n        echo \"$name,$rx_bytes,$tx_bytes,$rx_packets,$tx_packets\"\n    fi\ndone\n"
}

/// Whether `s` writes a 64-bit number.
pub open spec fn is_u64(s: Seq<char>) -> bool {
    parse_unsigned(s, u64::MAX as nat) is Some
}

/// The 64-bit number that `s` writes.
pub open spec fn as_u64(s: Seq<char>) -> u64 {
    parse_unsigned(s, u64::MAX as nat)->0 as u64
}

/// The interface that a line describes: five fields with commas between
/// them, of which the last four are numbers.
pub open spec fn interface_of_line(line: Seq<char>) -> Option<NetworkInterfaceView> {
    let f = fields(line, ',');
    if f.len() == 5 && is_u64(f[1]) && is_u64(f[2]) && is_u64(f[3]) && is_u64(f[4]) {
        Some(
            NetworkInterfaceView {
                name: f[0],
                rx_bytes: as_u64(f[1]),
                tx_bytes: as_u64(f[2]),
                rx_packets: as_u64(f[3]),
                tx_packets: as_u64(f[4]),
            },
        )
    } else {
        None
    }
}

/// The interfaces that the lines from `k` on describe.
pub open spec fn interfaces_from(ls: Seq<Seq<char>>, k: int) -> Seq<NetworkInterfaceView>
    decreases ls.len() - k,
{
    if 0 <= k < ls.len() {
        match interface_of_line(ls[k]) {
            Some(p) => seq![p] + interfaces_from(ls, k + 1),
            None => interfaces_from(ls, k + 1),
        }
    } else {
        Seq::empty()
    }
}

/// The interfaces that the output of the command lists; lines that
/// describe none are passed over.
pub open spec fn interfaces_of(output: Seq<char>) -> Seq<NetworkInterfaceView> {
    interfaces_from(lines(output), 0)
}

fn parse_interface_line(line: &Vec<char>) -> (r: Option<NetworkInterface>)
    ensures
        match r {
            Some(p) => interface_of_line(line@) == Some(p@),
            None => interface_of_line(line@) is None,
        },
{
    let w = whole(line);
    let f = split_fields(line, w, ',');
    if f.len() != 5 {
        return None;
    }
    assert(f@[0].fits(line@.len()) && f@[1].fits(line@.len()) && f@[2].fits(line@.len())
        && f@[3].fits(line@.len()) && f@[4].fits(line@.len()));
    let rx_bytes = parse_u64(line, f[1]);
    let tx_bytes = parse_u64(line, f[2]);
    let rx_packets = parse_u64(line, f[3]);
    let tx_packets = parse_u64(line, f[4]);
    match (rx_bytes, tx_bytes, rx_packets, tx_packets) {
        (Some(a), Some(b), Some(c), Some(d)) => Some(
            NetworkInterface {
                name: span_string(line, f[0]),
                rx_bytes: a,
                tx_bytes: b,
                rx_packets: c,
                tx_packets: d,
            },
        ),
        _ => None,
    }
}

/// Reads the output of the command that reads the counters.
pub fn parse_interfaces(output: &str) -> (r: Vec<NetworkInterface>)
    ensures
        views(r@) == interfaces_of(output@),
{
    let v = to_chars(output);
    let ls = split_lines(&v);
    let ghost all = lines(output@);
    let mut r: Vec<NetworkInterface> = Vec::new();
    let mut k: usize = 0;
    assert(views(r@) + interfaces_from(all, 0) == interfaces_of(output@));
    while k < ls.len()
        invariant
            k <= ls@.len(),
            v@ == output@,
            ls@ == line_spans(v@),
            all == lines(output@),
            all_fit(ls@, v@.len()),
            views(r@) + interfaces_from(all, k as int) == interfaces_of(output@),
        decreases ls@.len() - k,
    {
        assert(ls@[k as int].fits(v@.len()));
        let line = copy_span(&v, ls[k]);
        assert(line@ == all[k as int]);
        let ghost before = views(r@);
        match parse_interface_line(&line) {
            Some(p) => {
                r.push(p);
                assert(views(r@) =~= before.push(p@));
                assert(before.push(p@) + interfaces_from(all, k + 1) == before + (seq![p@]
                    + interfaces_from(all, k + 1)));
            },
            None => {},
        }
        k += 1;
    }
    assert(interfaces_from(all, k as int) == Seq::<NetworkInterfaceView>::empty());
    assert(views(r@) + Seq::<NetworkInterfaceView>::empty() == views(r@));
    r
}

/// The answer for the output of the command, or for the error that it
/// ended with.
pub fn network_stats_response(result: Result<String, SshError>) -> (r: NetworkStatsResponse)
    ensures
        match result {
            Ok(output) => r.success && r.error is None && views(r.interfaces@) == interfaces_of(
                output@,
            ),
            Err(e) => !r.success && r.interfaces@.len() == 0 && r.error is Some && r.error->0@
                == message_text(e),
        },
{
    match result {
        Ok(output) => NetworkStatsResponse {
            success: true,
            interfaces: parse_interfaces(output.as_str()),
            error: None,
        },
        Err(e) => NetworkStatsResponse {
            success: false,
            interfaces: Vec::new(),
            error: Some(e.message()),
        },
    }
}

/// One connection, as `ss` lists it.
#[derive(Debug, Clone, PartialEq, Eq)]
pub struct NetworkConnection {
    pub protocol: String,
    pub local_address: String,
    pub remote_address: String,
    pub state: String,
    pub pid_program: String,
}

/// A connection as contracts see it.
pub struct NetworkConnectionView {
    pub protocol: Seq<char>,
    pub local_address: Seq<char>,
    pub remote_address: Seq<char>,
    pub state: Seq<char>,
    pub pid_program: Seq<char>,
}

impl View for NetworkConnection {
    type V = NetworkConnectionView;

    open spec fn view(&self) -> NetworkConnectionView {
        NetworkConnectionView {
            protocol: self.protocol@,
            local_address: self.local_address@,
            remote_address: self.remote_address@,
            state: self.state@,
            pid_program: self.pid_program@,
        }
    }
}

/// The answer to a request for the connections.
#[derive(Debug, Clone, PartialEq, Eq)]
pub struct ConnectionsResponse {
    pub success: bool,
    pub connections: Vec<NetworkConnection>,
    pub error: Option<String>,
}

/// The command that lists the connections.
pub fn connections_command() -> (r: &'static str)
    ensures
        r@ == "ss -tunp 2>/dev/null | tail -n +2 | head -50"@,
{
    "ss -tunp 2>/dev/null | tail -n +2 | head -50"
}

/// The token at `k`, or nothing where there are fewer tokens.
pub open spec fn token_or_empty(t: Seq<Seq<char>>, k: int) -> Seq<char> {
    if 0 <= k < t.len() {
        t[k]
    } else {
        Seq::empty()
    }
}

/// The connection that a line of `ss` describes: a line of at least five
/// tokens gives the protocol, the local address in the fifth token, and,
/// where they are there, the remote address in the sixth and the process in
/// the seventh. The state is `ESTAB` unless the second token is `0`.
pub open spec fn connection_of_line(line: Seq<char>) -> Option<NetworkConnectionView> {
    let t = tokens(line);
    if t.len() >= 5 {
        Some(
            NetworkConnectionView {
                protocol: t[0],
                local_address: t[4],
                remote_address: token_or_empty(t, 5),
                state: if t[1] != "0"@ {
                    "ESTAB"@
                } else {
                    t[1]
                },
                pid_program: token_or_empty(t, 6),
            },
        )
    } else {
        None
    }
}

/// The connections that the lines from `k` on describe.
pub open spec fn connections_from(ls: Seq<Seq<char>>, k: int) -> Seq<NetworkConnectionView>
    decreases ls.len() - k,
{
    if 0 <= k < ls.len() {
        match connection_of_line(ls[k]) {
            Some(p) => seq![p] + connections_from(ls, k + 1),
            None => connections_from(ls, k + 1),
        }
    } else {
        Seq::empty()
    }
}

/// The connections that the output of `ss` lists; lines that describe
/// none are passed over.
pub open spec fn connections_of(output: Seq<char>) -> Seq<NetworkConnectionView> {
    connections_from(lines(output), 0)
}

fn token_string(line: &Vec<char>, t: &Vec<Span>, k: usize) -> (r: String)
    requires
        all_fit(t@, line@.len()),
    ensures
        r@ == token_or_empty(texts(line@, t@), k as int),
{
    if k < t.len() {
        assert(t@[k as int].fits(line@.len()));
        span_string(line, t[k])
    } else {
        String::new()
    }
}

fn parse_connection_line(line: &Vec<char>) -> (r: Option<NetworkConnection>)
    ensures
        match r {
            Some(p) => connection_of_line(line@) == Some(p@),
            None => connection_of_line(line@) is None,
        },
{
    let t = split_tokens(line);
    if t.len() < 5 {
        return None;
    }
    assert(t@[0].fits(line@.len()) && t@[1].fits(line@.len()) && t@[4].fits(line@.len()));
    let state = if !span_is(line, t[1], "0") {
        let e = to_chars("ESTAB");
        crate::text::chars_to_string(&e)
    } else {
        span_string(line, t[1])
    };
    Some(
        NetworkConnection {
            protocol: span_string(line, t[0]),
            local_address: span_string(line, t[4]),
            remote_address: token_string(line, &t, 5),
            state,
            pid_program: token_string(line, &t, 6),
        },
    )
}

/// Reads the output of `ss`.
pub fn parse_connections(output: &str) -> (r: Vec<NetworkConnection>)
    ensures
        views(r@) == connections_of(output@),
{
    let v = to_chars(output);
    let ls = split_lines(&v);
    let ghost all = lines(output@);
    let mut r: Vec<NetworkConnection> = Vec::new();
    let mut k: usize = 0;
    assert(views(r@) + connections_from(all, 0) == connections_of(output@));
    while k < ls.len()
        invariant
            k <= ls@.len(),
            v@ == output@,
            ls@ == line_spans(v@),
            all == lines(output@),
            all_fit(ls@, v@.len()),
            views(r@) + connections_from(all, k as int) == connections_of(output@),
        decreases ls@.len() - k,
    {
        assert(ls@[k as int].fits(v@.len()));
        let line = copy_span(&v, ls[k]);
        assert(line@ == all[k as int]);
        let ghost before = views(r@);
        match parse_connection_line(&line) {
            Some(p) => {
                r.push(p);
                assert(views(r@) =~= before.push(p@));
                assert(before.push(p@) + connections_from(all, k + 1) == before + (seq![p@]
                    + connections_from(all, k + 1)));
            },
            None => {},
        }
        k += 1;
    }
    assert(connections_from(all, k as int) == Seq::<NetworkConnectionView>::empty());
    assert(views(r@) + Seq::<NetworkConnectionView>::empty() == views(r@));
    r
}

/// The answer for the output of `ss`, or for the error that the command
/// ended with.
pub fn connections_response(result: Result<String, SshError>) -> (r: ConnectionsResponse)
    ensures
        match result {
            Ok(output) => r.success && r.error is None && views(r.connections@)
                == connections_of(output@),
            Err(e) => !r.success && r.connections@.len() == 0 && r.error is Some && r.error->0@
                == message_text(e),
        },
{
    match result {
        Ok(output) => ConnectionsResponse {
            success: true,
            connections: parse_connections(output.as_str()),
            error: None,
        },
        Err(e) => ConnectionsResponse {
            success: false,
            connections: Vec::new(),
            error: Some(e.message()),
        },
    }
}

} // verus!
