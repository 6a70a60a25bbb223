//! Latency and bandwidth of the remote host: what is asked, and what is
//! picked from the answer. The numbers themselves are fractions and are
//! read by the caller.

use vstd::prelude::*;
use crate::scan::{
    all_fit, copy_span, fields, line_spans, lines, span_string, split_fields, split_lines,
    trimmed, trimmed_copy, views, whole,
};
use crate::text::{chars_eq, chars_to_string, push_text, to_chars};

verus! {

/// The host that is pinged where none is named.
pub open spec fn default_target() -> Seq<char> {
    "8.8.8.8"@
}

/// The command that pings `target` once and prints the time in
/// milliseconds, or `timeout`.
pub fn latency_command(target: Option<&str>) -> (r: String)
    ensures
        r@ == "ping -c 1 -W 1 "@ + (match target {
            Some(t) => t@,
            None => default_target(),
        }) + " 2>&1 | grep -oP 'time=\\K[0-9.]+' || echo 'timeout'"@,
{
    let mut out: Vec<char> = Vec::new();
    push_text(&mut out, "ping -c 1 -W 1 ");
    match target {
        Some(t) => push_text(&mut out, t),
        None => push_text(&mut out, "8.8.8.8"),
    }
    push_text(&mut out, " 2>&1 | grep -oP 'time=\\K[0-9.]+' || echo 'timeout'");
    chars_to_string(&out)
}

/// What the ping said.
#[derive(Debug, Clone, PartialEq, Eq)]
pub enum LatencyReading {
    /// No answer in time, or no route.
    Unreachable,
    /// The text that writes the milliseconds.
    Millis { text: String },
}

/// The words of the error for a ping without an answer.
pub fn unreachable_text() -> (r: &'static str)
    ensures
        r@ == "Ping timeout or unreachable"@,
{
    "Ping timeout or unreachable"
}

/// The words of the error for an answer that writes no number.
pub fn unreadable_text() -> (r: &'static str)
    ensures
        r@ == "Failed to parse latency"@,
{
    "Failed to parse latency"
}

/// Reads the output of the ping: without the white space at its ends it is
/// the time, unless it is empty or says `timeout`.
pub fn latency_reading(output: &str) -> (r: LatencyReading)
    ensures
        ({
            let t = trimmed(output@);
            &&& t.len() == 0 || t == "timeout"@ ==> r == LatencyReading::Unreachable
            &&& !(t.len() == 0 || t == "timeout"@) ==> (r matches LatencyReading::Millis { text }
                && text@ == t)
        }),
{
    let v = to_chars(output);
    let t = trimmed_copy(&v);
    let mark = to_chars("timeout");
    if t.len() == 0 || chars_eq(&t, &mark) {
        LatencyReading::Unreachable
    } else {
        LatencyReading::Millis { text: chars_to_string(&t) }
    }
}

/// The command that prints the byte counters of every interface but the
/// loopback, waits a second, and prints them again.
pub fn bandwidth_command() -> (r: &'static str)
    ensures
        r@ == "\niface_list=\"\"\nfor iface in /sys/class/net/*; do\n    name=$(basename $iface)\n    if [ \"$name\" != \"lo\" ]; then\n        iface_list=\"$iface_list $name\"\n    fi\ndone\n\nfor iface in $iface_list; do\n    rx1=$(cat /sys/class/net/$iface/statistics/rx_bytes 2>/dev/null || echo 0)\n    tx1=$(cat /sys/class/net/$iface/statistics/tx_bytes 2>/dev/null || echo 0)\n    echo \"$iface,$rx1,$tx1\"\ndone\nsleep 1\nfor iface in $iface_list; do\n    rx2=$(cat /sys/class/net/$iface/statistics/rx_bytes 2>/dev/null || echo 0)\n    tx2=$(cat /sys/class/net/$iface/statistics/tx_bytes 2>/dev/null || echo 0)\n    echo \"$iface,$rx2,$tx2\"\ndone\n"@,
{
    "\niface_list=\"\"\nfor iface in /sys/class/net/*; do\n    name=$(basename $iface)\n    if [ \"$name\" != \"lo\" ]; then\n        iface_list=\"$iface_list $name\"\n    fi\ndone\n\nfor iface in $iface_list; do\n    rx1=$(cat /sys/class/net/$iface/statistics/rx_bytes 2>/dev/null || echo 0)\n    tx1=$(cat /sys/class/net/$iface/statistics/tx_bytes 2>/dev/null || echo 0)\n    echo \"$iface,$rx1,$tx1\"\ndone\nsleep 1\nfor iface in $iface_list; do\n    rx2=$(cat /sys/class/net/$iface/statistics/rx_bytes 2>/dev/null || echo 0)\n    tx2=$(cat /sys/class/net/$iface/statistics/tx_bytes 2>/dev/null || echo 0)\n    echo \"$iface,$rx2,$tx2\"\ndone\n"
}

/// The counters of one interface, a second apart, as they are written.
#[derive(Debug, Clone, PartialEq, Eq)]
pub struct BandwidthSample {
    pub interface: String,
    pub rx_before: String,
    pub tx_before: String,
    pub rx_after: String,
    pub tx_after: String,
}

/// A sample as contracts see it.
pub struct BandwidthSampleView {
    pub interface: Seq<char>,
    pub rx_before: Seq<char>,
    pub tx_before: Seq<char>,
    pub rx_after: Seq<char>,
    pub tx_after: Seq<char>,
}

impl View for BandwidthSample {
    type V = BandwidthSampleView;

    open spec fn view(&self) -> BandwidthSampleView {
        BandwidthSampleView {
            interface: self.interface@,
            rx_before: self.rx_before@,
            tx_before: self.tx_before@,
            rx_after: self.rx_after@,
            tx_after: self.tx_after@,
        }
    }
}

/// The sample that a line of the first reading and a line of the second
/// give: both have three fields with commas between them, and name the same
/// interface.
pub open spec fn sample_of_lines(first: Seq<char>, second: Seq<char>) -> Option<
    BandwidthSampleView,
> {
    let a = fields(first, ',');
    let b = fields(second, ',');
    if a.len() == 3 && b.len() == 3 && a[0] == b[0] {
        Some(
            BandwidthSampleView {
                interface: a[0],
                rx_before: a[1],
                tx_before: a[2],
                rx_after: b[1],
                tx_after: b[2],
            },
        )
    } else {
        None
    }
}

/// The samples that the lines give from the `k`-th pair on, where the
/// second reading begins at line `mid`.
pub open spec fn samples_from(ls: Seq<Seq<char>>, k: int, mid: int) -> Seq<BandwidthSampleView>
    decreases mid - k,
{
    if 0 <= k < mid && mid + k < ls.len() {
        match sample_of_lines(ls[k], ls[mid + k]) {
            Some(p) => seq![p] + samples_from(ls, k + 1, mid),
            None => samples_from(ls, k + 1, mid),
        }
    } else {
        Seq::empty()
    }
}

/// The samples in the output of the command: its lines are halved, and
/// each line of the first half is held against the line at the same place in
/// the second.
pub open spec fn samples_of(output: Seq<char>) -> Seq<BandwidthSampleView> {
    let ls = lines(output);
    samples_from(ls, 0, ls.len() as int / 2)
}

fn parse_sample(first: &Vec<char>, second: &Vec<char>) -> (r: Option<BandwidthSample>)
    ensures
        match r {
            Some(p) => sample_of_lines(first@, second@) == Some(p@),
            None => sample_of_lines(first@, second@) is None,
        },
{
    let wa = whole(first);
    let a = split_fields(first, wa, ',');
    let wb = whole(second);
    let b = split_fields(second, wb, ',');
    if a.len() != 3 || b.len() != 3 {
        return None;
    }
    assert(a@[0].fits(first@.len()) && a@[1].fits(first@.len()) && a@[2].fits(first@.len()));
    assert(b@[0].fits(second@.len()) && b@[1].fits(second@.len()) && b@[2].fits(second@.len()));
    let name_a = copy_span(first, a[0]);
    let name_b = copy_span(second, b[0]);
    if !chars_eq(&name_a, &name_b) {
        return None;
    }
    Some(
        BandwidthSample {
            interface: chars_to_string(&name_a),
            rx_before: span_string(first, a[1]),
            tx_before: span_string(first, a[2]),
            rx_after: span_string(second, b[1]),
            tx_after: span_string(second, b[2]),
        },
    )
}

/// Reads the output of the command that prints the byte counters twice.
pub fn bandwidth_samples(output: &str) -> (r: Vec<BandwidthSample>)
    ensures
        views(r@) == samples_of(output@),
{
    let v = to_chars(output);
    let ls = split_lines(&v);
    let ghost all = lines(output@);
    let mid = ls.len() / 2;
    let mut r: Vec<BandwidthSample> = Vec::new();
    let mut k: usize = 0;
    assert(views(r@) + samples_from(all, 0, mid as int) == samples_of(output@));
    while k < mid
        invariant
            k <= mid,
            mid == ls@.len() / 2,
            v@ == output@,
            ls@ == line_spans(v@),
            all == lines(output@),
            all_fit(ls@, v@.len()),
            views(r@) + samples_from(all, k as int, mid as int) == samples_of(output@),
        decreases mid - k,
    {
        assert(ls@[k as int].fits(v@.len()));
        assert(ls@[mid + k].fits(v@.len()));
        let first = copy_span(&v, ls[k]);
        let second = copy_span(&v, ls[mid + k]);
        assert(first@ == all[k as int]);
        assert(second@ == all[mid + k]);
        let ghost before = views(r@);
        match parse_sample(&first, &second) {
            Some(p) => {
                r.push(p);
                assert(views(r@) =~= before.push(p@));
                assert(before.push(p@) + samples_from(all, k + 1, mid as int) == before + (seq![
                    p@,
                ] + samples_from(all, k + 1, mid as int)));
            },
            None => {},
        }
        k += 1;
    }
    assert(samples_from(all, k as int, mid as int) == Seq::<BandwidthSampleView>::empty());
    assert(views(r@) + Seq::<BandwidthSampleView>::empty() == views(r@));
    r
}

} // verus!
