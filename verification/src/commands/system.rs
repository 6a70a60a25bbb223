//! The load, the memory and the identity of the remote host.

use vstd::prelude::*;
use crate::error::SshError;
use crate::number::{parse_u32, parse_u64_or_zero, parse_unsigned, u64_or_zero};
use crate::scan::{
    all_fit, copy_span, join_from, joined, span_string, split_tokens, strip_end, texts, tokens,
    trimmed, trimmed_copy, whole, without_trailing, Span,
};
use crate::text::{chars_to_string, to_chars};

verus! {

/// Memory in use and free, in mebibytes.
#[derive(Debug, Clone, Copy, PartialEq, Eq)]
pub struct MemoryStats {
    pub total: u64,
    pub used: u64,
    pub free: u64,
    pub available: u64,
}

/// What the remote host says of itself.
#[derive(Debug, Clone, PartialEq, Eq)]
pub struct SystemInfoResponse {
    pub success: bool,
    pub os: String,
    pub kernel: String,
    pub hostname: String,
    pub architecture: String,
}

/// The command that prints, in one line, the shares of the processor in
/// user, system and waiting time, the three load averages, and the number of
/// cores.
pub fn cpu_stats_command() -> (r: &'static str)
    ensures
        r@ == "echo \"$(top -bn1 | grep 'Cpu(s)' | sed 's/%//g' | awk '{print $2,$4,$10}') $(uptime | awk -F'load average:' '{print $2}' | xargs) $(nproc --all 2>/dev/null || grep -c '^processor' /proc/cpuinfo || sysctl -n hw.ncpu 2>/dev/null || echo '1')\""@,
{
    "echo \"$(top -bn1 | grep 'Cpu(s)' | sed 's/%//g' | awk '{print $2,$4,$10}') $(uptime | awk -F'load average:' '{print $2}' | xargs) $(nproc --all 2>/dev/null || grep -c '^processor' /proc/cpuinfo || sysctl -n hw.ncpu 2>/dev/null || echo '1')\""
}

/// The command that prints four numbers of the memory, three of the swap
/// space, four columns of the root file system, and then the uptime.
pub fn memory_disk_command() -> (r: &'static str)
    ensures
        r@ == "echo \"$(free -m | awk 'NR==2{printf \"%s %s %s %s \", $2,$3,$4,$7} NR==3{printf \"%s %s %s \", $2,$3,$4}') $(df -h / | awk 'NR==2{printf \"%s %s %s %s\", $2,$3,$4,$5}')\" && (uptime -p 2>/dev/null || uptime | awk '{print $3\" \"$4}')"@,
{
    "echo \"$(free -m | awk 'NR==2{printf \"%s %s %s %s \", $2,$3,$4,$7} NR==3{printf \"%s %s %s \", $2,$3,$4}') $(df -h / | awk 'NR==2{printf \"%s %s %s %s\", $2,$3,$4,$5}')\" && (uptime -p 2>/dev/null || uptime | awk '{print $3\" \"$4}')"
}

/// The command that prints the load averages.
pub fn load_average_command() -> (r: &'static str)
    ensures
        r@ == "uptime | awk -F'load average:' '{print $2}' | xargs"@,
{
    "uptime | awk -F'load average:' '{print $2}' | xargs"
}

/// The 64-bit number that token `k` writes, or 0.
pub open spec fn number_at(t: Seq<Seq<char>>, k: int) -> u64 {
    if 0 <= k < t.len() {
        u64_or_zero(t[k])
    } else {
        0
    }
}

/// The text of token `k`, or `0` where there are fewer tokens.
pub open spec fn text_at(t: Seq<Seq<char>>, k: int) -> Seq<char> {
    if 0 <= k < t.len() {
        t[k]
    } else {
        "0"@
    }
}

/// The number of cores in the output of the processor command: its
/// seventh token, or 1 where that is no number.
pub open spec fn cores_of(output: Seq<char>) -> u32 {
    let t = tokens(output);
    if t.len() > 6 && parse_unsigned(t[6], u32::MAX as nat) is Some {
        parse_unsigned(t[6], u32::MAX as nat)->0 as u32
    } else {
        1
    }
}

/// The memory in the output of the memory command: its first four tokens.
pub open spec fn memory_of(output: Seq<char>) -> MemoryStats {
    let t = tokens(output);
    MemoryStats {
        total: number_at(t, 0),
        used: number_at(t, 1),
        free: number_at(t, 2),
        available: number_at(t, 3),
    }
}

/// The swap space in the output of the memory command: its fifth to
/// seventh token. Swap space has nothing available.
pub open spec fn swap_of(output: Seq<char>) -> MemoryStats {
    let t = tokens(output);
    MemoryStats {
        total: number_at(t, 4),
        used: number_at(t, 5),
        free: number_at(t, 6),
        available: 0,
    }
}

/// The uptime in the output of the memory command: what follows its
/// eleventh token, or `Unknown`.
pub open spec fn uptime_of(output: Seq<char>) -> Seq<char> {
    let t = tokens(output);
    if t.len() > 11 {
        joined(t.skip(11))
    } else {
        "Unknown"@
    }
}

/// The root file system in the output of the memory command.
#[derive(Debug, Clone, PartialEq, Eq)]
pub struct RootDisk {
    pub total: String,
    pub used: String,
    pub available: String,
    /// The share in use, as it is written, without its percent sign;
    /// nothing where it is missing.
    pub use_percent: String,
}

/// The shares of the processor and the load averages in the output of the
/// processor command, as they are written.
#[derive(Debug, Clone, PartialEq, Eq)]
pub struct CpuTexts {
    pub user: String,
    pub system: String,
    pub iowait: String,
    pub load_1m: String,
    pub load_5m: String,
    pub load_15m: String,
}

/// The text of token `k` without the commas at its end, or nothing where
/// there are fewer tokens.
pub open spec fn share_at(t: Seq<Seq<char>>, k: int) -> Seq<char> {
    if 0 <= k < t.len() {
        without_trailing(t[k], ',')
    } else {
        Seq::empty()
    }
}

/// The text of token `k`, or nothing where there are fewer tokens.
pub open spec fn plain_at(t: Seq<Seq<char>>, k: int) -> Seq<char> {
    if 0 <= k < t.len() {
        t[k]
    } else {
        Seq::empty()
    }
}

fn read_plain_at(v: &Vec<char>, t: &Vec<Span>, k: usize) -> (r: String)
    requires
        all_fit(t@, v@.len()),
    ensures
        r@ == plain_at(texts(v@, t@), k as int),
{
    if k < t.len() {
        assert(t@[k as int].fits(v@.len()));
        span_string(v, t[k])
    } else {
        String::new()
    }
}

fn read_share_at(v: &Vec<char>, t: &Vec<Span>, k: usize) -> (r: String)
    requires
        all_fit(t@, v@.len()),
    ensures
        r@ == share_at(texts(v@, t@), k as int),
{
    if k < t.len() {
        assert(t@[k as int].fits(v@.len()));
        let text = copy_span(v, t[k]);
        let w = whole(&text);
        let s = strip_end(&text, w, ',');
        span_string(&text, s)
    } else {
        String::new()
    }
}

/// Reads the shares of the processor and the load averages from the output
/// of the processor command: its first six tokens, the load averages
/// without the commas at their ends. What is missing is empty.
pub fn parse_cpu_texts(output: &str) -> (r: CpuTexts)
    ensures
        ({
            let t = tokens(output@);
            &&& r.user@ == plain_at(t, 0)
            &&& r.system@ == plain_at(t, 1)
            &&& r.iowait@ == plain_at(t, 2)
            &&& r.load_1m@ == share_at(t, 3)
            &&& r.load_5m@ == share_at(t, 4)
            &&& r.load_15m@ == share_at(t, 5)
        }),
{
    let v = to_chars(output);
    let t = split_tokens(&v);
    CpuTexts {
        user: read_plain_at(&v, &t, 0),
        system: read_plain_at(&v, &t, 1),
        iowait: read_plain_at(&v, &t, 2),
        load_1m: read_share_at(&v, &t, 3),
        load_5m: read_share_at(&v, &t, 4),
        load_15m: read_share_at(&v, &t, 5),
    }
}

fn read_number_at(v: &Vec<char>, t: &Vec<Span>, k: usize) -> (r: u64)
    requires
        all_fit(t@, v@.len()),
    ensures
        r == number_at(texts(v@, t@), k as int),
{
    if k < t.len() {
        assert(t@[k as int].fits(v@.len()));
        parse_u64_or_zero(v, t[k])
    } else {
        0
    }
}

fn read_text_at(v: &Vec<char>, t: &Vec<Span>, k: usize) -> (r: String)
    requires
        all_fit(t@, v@.len()),
    ensures
        r@ == text_at(texts(v@, t@), k as int),
{
    if k < t.len() {
        assert(t@[k as int].fits(v@.len()));
        span_string(v, t[k])
    } else {
        let zero = to_chars("0");
        chars_to_string(&zero)
    }
}

/// Reads the number of cores from the output of the processor command.
pub fn parse_cores(output: &str) -> (r: u32)
    ensures
        r == cores_of(output@),
{
    let v = to_chars(output);
    let t = split_tokens(&v);
    if t.len() > 6 {
        assert(t@[6].fits(v@.len()));
        match parse_u32(&v, t[6]) {
            Some(n) => n,
            None => 1,
        }
    } else {
        1
    }
}

/// Reads the memory from the output of the memory command.
pub fn parse_memory(output: &str) -> (r: MemoryStats)
    ensures
        r == memory_of(output@),
{
    let v = to_chars(output);
    let t = split_tokens(&v);
    MemoryStats {
        total: read_number_at(&v, &t, 0),
        used: read_number_at(&v, &t, 1),
        free: read_number_at(&v, &t, 2),
        available: read_number_at(&v, &t, 3),
    }
}

/// Reads the swap space from the output of the memory command.
pub fn parse_swap(output: &str) -> (r: MemoryStats)
    ensures
        r == swap_of(output@),
{
    let v = to_chars(output);
    let t = split_tokens(&v);
    MemoryStats {
        total: read_number_at(&v, &t, 4),
        used: read_number_at(&v, &t, 5),
        free: read_number_at(&v, &t, 6),
        available: 0,
    }
}

/// Reads the root file system from the output of the memory command: its
/// eighth to eleventh token. A size that is missing is `0`.
pub fn parse_root_disk(output: &str) -> (r: RootDisk)
    ensures
        ({
            let t = tokens(output@);
            &&& r.total@ == text_at(t, 7)
            &&& r.used@ == text_at(t, 8)
            &&& r.available@ == text_at(t, 9)
            &&& r.use_percent@ == if t.len() > 10 {
                without_trailing(t[10], '%')
            } else {
                Seq::<char>::empty()
            }
        }),
{
    let v = to_chars(output);
    let t = split_tokens(&v);
    let use_percent = if t.len() > 10 {
        assert(t@[10].fits(v@.len()));
        let text = copy_span(&v, t[10]);
        let w = whole(&text);
        let s = strip_end(&text, w, '%');
        span_string(&text, s)
    } else {
        String::new()
    };
    RootDisk {
        total: read_text_at(&v, &t, 7),
        used: read_text_at(&v, &t, 8),
        available: read_text_at(&v, &t, 9),
        use_percent,
    }
}

/// Reads the uptime from the output of the memory command.
pub fn parse_uptime(output: &str) -> (r: String)
    ensures
        r@ == uptime_of(output@),
{
    let v = to_chars(output);
    let t = split_tokens(&v);
    if t.len() > 11 {
        join_from(&v, &t, 11)
    } else {
        let unknown = to_chars("Unknown");
        chars_to_string(&unknown)
    }
}

/// `output` without the white space at its two ends.
pub fn trimmed_output(output: &str) -> (r: String)
    ensures
        r@ == trimmed(output@),
{
    let v = to_chars(output);
    let t = trimmed_copy(&v);
    chars_to_string(&t)
}

/// The command that prints the name of the operating system.
pub fn os_command() -> (r: &'static str)
    ensures
        r@ == "uname -s 2>/dev/null || echo 'Unknown'"@,
{
    "uname -s 2>/dev/null || echo 'Unknown'"
}

/// The command that prints the release of the kernel.
pub fn kernel_command() -> (r: &'static str)
    ensures
        r@ == "uname -r 2>/dev/null || echo 'Unknown'"@,
{
    "uname -r 2>/dev/null || echo 'Unknown'"
}

/// The command that prints the name of the host.
pub fn hostname_command() -> (r: &'static str)
    ensures
        r@ == "hostname 2>/dev/null || uname -n 2>/dev/null || echo 'Unknown'"@,
{
    "hostname 2>/dev/null || uname -n 2>/dev/null || echo 'Unknown'"
}

/// The command that prints the architecture of the machine.
pub fn architecture_command() -> (r: &'static str)
    ensures
        r@ == "uname -m 2>/dev/null || echo 'Unknown'"@,
{
    "uname -m 2>/dev/null || echo 'Unknown'"
}

/// What a command that asks the host about itself says: its output
/// without the white space at its ends, or `Unknown` where it failed.
pub open spec fn info_of(result: Result<String, SshError>) -> Seq<char> {
    match result {
        Ok(output) => trimmed(output@),
        Err(_) => trimmed("Unknown"@),
    }
}

/// Reads what a command that asks the host about itself said.
pub fn system_info_field(result: Result<String, SshError>) -> (r: String)
    ensures
        r@ == info_of(result),
{
    match result {
        Ok(output) => trimmed_output(output.as_str()),
        Err(_) => trimmed_output("Unknown"),
    }
}

/// The answer for what the four commands said.
pub fn system_info_response(
    os: Result<String, SshError>,
    kernel: Result<String, SshError>,
    hostname: Result<String, SshError>,
    architecture: Result<String, SshError>,
) -> (r: SystemInfoResponse)
    ensures
        r.success,
        r.os@ == info_of(os),
        r.kernel@ == info_of(kernel),
        r.hostname@ == info_of(hostname),
        r.architecture@ == info_of(architecture),
{
    SystemInfoResponse {
        success: true,
        os: system_info_field(os),
        kernel: system_info_field(kernel),
        hostname: system_info_field(hostname),
        architecture: system_info_field(architecture),
    }
}

} // verus!
