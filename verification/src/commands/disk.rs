//! The file systems of the remote host.

use vstd::prelude::*;
use crate::error::{message_text, SshError};
use crate::number::{parse_u32_or_zero, u32_or_zero};
use crate::scan::{
    all_fit, copy_span, fields, find, find_sub, line_spans, lines, span_is, span_string,
    split_fields, split_lines, strip_end, trimmed, trimmed_copy, views, whole, without_trailing,
    Span,
};
use crate::text::{chars_eq, chars_to_string, to_chars};

verus! {

/// One file system, as `df` lists it.
#[derive(Debug, Clone, PartialEq, Eq)]
pub struct DiskInfo {
    pub filesystem: String,
    pub path: String,
    pub total: String,
    pub available: String,
    pub usage: u32,
    pub inodes_total: String,
    pub inodes_usage: u32,
}

/// A file system as contracts see it.
pub struct DiskInfoView {
    pub filesystem: Seq<char>,
    pub path: Seq<char>,
    pub total: Seq<char>,
    pub available: Seq<char>,
    pub usage: u32,
    pub inodes_total: Seq<char>,
    pub inodes_usage: u32,
}

impl View for DiskInfo {
    type V = DiskInfoView;

    open spec fn view(&self) -> DiskInfoView {
        DiskInfoView {
            filesystem: self.filesystem@,
            path: self.path@,
            total: self.total@,
            available: self.available@,
            usage: self.usage,
            inodes_total: self.inodes_total@,
            inodes_usage: self.inodes_usage,
        }
    }
}

/// The answer to a request for the file systems.
#[derive(Debug, Clone, PartialEq, Eq)]
pub struct DiskUsageResponse {
    pub success: bool,
    pub disks: Vec<DiskInfo>,
    pub error: Option<String>,
}

/// The most file systems that an answer lists.
pub const MAX_DISKS: usize = 20;

/// The command that lists the file systems: first their sizes, then a line
/// of three hyphens, then their inodes, with bars between the columns.
pub fn disk_usage_command() -> (r: &'static str)
    ensures
        r@ == "df -hT | awk 'NR>1 {print $1\"|\"$2\"|\"$3\"|\"$5\"|\"$6\"|\"$7}'; echo '---'; df -iT | awk 'NR>1 {print $1\"|\"$3\"|\"$6\"|\"$7}'"@,
{
    "df -hT | awk 'NR>1 {print $1\"|\"$2\"|\"$3\"|\"$5\"|\"$6\"|\"$7}'; echo '---'; df -iT | awk 'NR>1 {print $1\"|\"$3\"|\"$6\"|\"$7}'"
}

/// The line that parts the sizes from the inodes.
pub open spec fn part_mark() -> Seq<char> {
    "---"@
}

/// The inodes of one file system.
pub struct InodeView {
    /// The file system and the path, with a colon between them.
    pub key: Seq<char>,
    pub total: Seq<char>,
    pub usage: u32,
}

/// The percentage that `s` writes, with or without percent signs at its
/// end, or 0.
pub open spec fn percent_of(s: Seq<char>) -> u32 {
    u32_or_zero(without_trailing(s, '%'))
}

/// The key under which the inodes of a file system are found.
pub open spec fn inode_key(filesystem: Seq<char>, path: Seq<char>) -> Seq<char> {
    filesystem + seq![':'] + path
}

/// The inodes that a line describes: at least four columns, which are the
/// file system, the number of inodes, the share in use, and the path.
pub open spec fn inodes_of_line(raw: Seq<char>) -> Option<InodeView> {
    let f = fields(trimmed(raw), '|');
    if f.len() >= 4 {
        Some(InodeView { key: inode_key(f[0], f[3]), total: f[1], usage: percent_of(f[2]) })
    } else {
        None
    }
}

/// The inodes that the lines from `k` on describe.
pub open spec fn inodes_from(ls: Seq<Seq<char>>, k: int) -> Seq<InodeView>
    decreases ls.len() - k,
{
    if 0 <= k < ls.len() {
        match inodes_of_line(ls[k]) {
            Some(p) => seq![p] + inodes_from(ls, k + 1),
            None => inodes_from(ls, k + 1),
        }
    } else {
        Seq::empty()
    }
}

/// The inodes that are found under `key`: where several lines gave the key,
/// the last of them counts.
pub open spec fn find_inodes(entries: Seq<InodeView>, key: Seq<char>) -> Option<InodeView>
    decreases entries.len(),
{
    if entries.len() == 0 {
        None
    } else if entries.last().key == key {
        Some(entries.last())
    } else {
        find_inodes(entries.drop_last(), key)
    }
}

/// Whether a size says that a file system holds nothing.
pub open spec fn is_no_size(total: Seq<char>) -> bool {
    total == "0"@ || total == "0K"@ || total == "0M"@
}

/// The file system that a line describes: at least six columns, which are
/// the file system, its type, its size, what is free, the share in use, and
/// the path; one without a size is passed over. Its inodes are those found
/// under its key, or unknown.
pub open spec fn disk_of_line(raw: Seq<char>, inodes: Seq<InodeView>) -> Option<DiskInfoView> {
    let f = fields(trimmed(raw), '|');
    if f.len() >= 6 && !is_no_size(f[2]) {
        let found = find_inodes(inodes, inode_key(f[0], f[5]));
        Some(
            DiskInfoView {
                filesystem: f[0],
                path: f[5],
                total: f[2],
                available: f[3],
                usage: percent_of(f[4]),
                inodes_total: match found {
                    Some(e) => e.total,
                    None => "N/A"@,
                },
                inodes_usage: match found {
                    Some(e) => e.usage,
                    None => 0,
                },
            },
        )
    } else {
        None
    }
}

/// The file systems that the lines from `k` on describe.
pub open spec fn disks_from(ls: Seq<Seq<char>>, k: int, inodes: Seq<InodeView>) -> Seq<
    DiskInfoView,
>
    decreases ls.len() - k,
{
    if 0 <= k < ls.len() {
        match disk_of_line(ls[k], inodes) {
            Some(p) => seq![p] + disks_from(ls, k + 1, inodes),
            None => disks_from(ls, k + 1, inodes),
        }
    } else {
        Seq::empty()
    }
}

/// The part of the output that lists the sizes, if the output has the line
/// that ends it.
pub open spec fn sizes_part(output: Seq<char>) -> Option<Seq<char>> {
    match find_sub(output, 0, part_mark()) {
        Some(p) => Some(output.subrange(0, p)),
        None => None,
    }
}

/// The part of the output that lists the inodes: from the mark to the
/// next one, or to the end.
pub open spec fn inodes_part(output: Seq<char>) -> Seq<char> {
    match find_sub(output, 0, part_mark()) {
        Some(p) => {
            let start = p + part_mark().len();
            match find_sub(output, start, part_mark()) {
                Some(q) => output.subrange(start, q),
                None => output.subrange(start, output.len() as int),
            }
        },
        None => Seq::empty(),
    }
}

/// All the file systems that the output describes.
pub open spec fn all_disks_of(output: Seq<char>) -> Seq<DiskInfoView> {
    match sizes_part(output) {
        Some(sizes) => disks_from(lines(sizes), 0, inodes_from(lines(inodes_part(output)), 0)),
        None => Seq::empty(),
    }
}

/// The file systems that an answer lists for the output: the first twenty.
pub open spec fn disks_of(output: Seq<char>) -> Seq<DiskInfoView> {
    let all = all_disks_of(output);
    if all.len() > MAX_DISKS {
        all.take(MAX_DISKS as int)
    } else {
        all
    }
}

struct Inodes {
    key: Vec<char>,
    total: String,
    usage: u32,
}

impl View for Inodes {
    type V = InodeView;

    closed spec fn view(&self) -> InodeView {
        InodeView { key: self.key@, total: self.total@, usage: self.usage }
    }
}

fn make_key(line: &Vec<char>, filesystem: Span, path: Span) -> (r: Vec<char>)
    requires
        filesystem.fits(line@.len()),
        path.fits(line@.len()),
    ensures
        r@ == inode_key(filesystem.of(line@), path.of(line@)),
{
    let mut r = copy_span(line, filesystem);
    r.push(':');
    let p = copy_span(line, path);
    let mut i: usize = 0;
    while i < p.len()
        invariant
            i <= p@.len(),
            r@ == filesystem.of(line@) + seq![':'] + p@.take(i as int),
        decreases p@.len() - i,
    {
        r.push(p[i]);
        assert(p@.take(i + 1) == p@.take(i as int).push(p@[i as int]));
        i += 1;
    }
    assert(p@.take(p@.len() as int) == p@);
    r
}

fn read_percent(line: &Vec<char>, field: Span) -> (r: u32)
    requires
        field.fits(line@.len()),
    ensures
        r == percent_of(field.of(line@)),
{
    let text = copy_span(line, field);
    let w = whole(&text);
    let s = strip_end(&text, w, '%');
    parse_u32_or_zero(&text, s)
}

fn parse_inodes_line(raw: &Vec<char>) -> (r: Option<Inodes>)
    ensures
        match r {
            Some(p) => inodes_of_line(raw@) == Some(p@),
            None => inodes_of_line(raw@) is None,
        },
{
    let line = trimmed_copy(raw);
    let w = whole(&line);
    let f = split_fields(&line, w, '|');
    if f.len() < 4 {
        return None;
    }
    assert(f@[0].fits(line@.len()) && f@[1].fits(line@.len()) && f@[2].fits(line@.len())
        && f@[3].fits(line@.len()));
    Some(
        Inodes {
            key: make_key(&line, f[0], f[3]),
            total: span_string(&line, f[1]),
            usage: read_percent(&line, f[2]),
        },
    )
}

fn lookup<'a>(entries: &'a Vec<Inodes>, key: &Vec<char>) -> (r: Option<&'a Inodes>)
    ensures
        match r {
            Some(e) => find_inodes(views(entries@), key@) == Some(e@),
            None => find_inodes(views(entries@), key@) is None,
        },
{
    let ghost all = views(entries@);
    let mut n: usize = entries.len();
    assert(all.take(n as int) == all);
    while n > 0
        invariant
            n <= entries@.len(),
            all == views(entries@),
            find_inodes(all.take(n as int), key@) == find_inodes(all, key@),
        decreases n,
    {
        assert(all.take(n as int).last() == entries@[n - 1]@);
        assert(all.take(n as int).drop_last() == all.take(n - 1));
        if chars_eq(&entries[n - 1].key, key) {
            return Some(&entries[n - 1]);
        }
        n -= 1;
    }
    assert(all.take(0int).len() == 0);
    None
}

fn parse_disk_line(raw: &Vec<char>, inodes: &Vec<Inodes>) -> (r: Option<DiskInfo>)
    ensures
        match r {
            Some(p) => disk_of_line(raw@, views(inodes@)) == Some(p@),
            None => disk_of_line(raw@, views(inodes@)) is None,
        },
{
    let line = trimmed_copy(raw);
    let w = whole(&line);
    let f = split_fields(&line, w, '|');
    if f.len() < 6 {
        return None;
    }
    assert(f@[0].fits(line@.len()) && f@[2].fits(line@.len()) && f@[3].fits(line@.len())
        && f@[4].fits(line@.len()) && f@[5].fits(line@.len()));
    if span_is(&line, f[2], "0") || span_is(&line, f[2], "0K") || span_is(&line, f[2], "0M") {
        return None;
    }
    let key = make_key(&line, f[0], f[5]);
    let (inodes_total, inodes_usage) = match lookup(inodes, &key) {
        Some(e) => (e.total.clone(), e.usage),
        None => {
            let na = to_chars("N/A");
            (chars_to_string(&na), 0)
        },
    };
    Some(
        DiskInfo {
            filesystem: span_string(&line, f[0]),
            path: span_string(&line, f[5]),
            total: span_string(&line, f[2]),
            available: span_string(&line, f[3]),
            usage: read_percent(&line, f[4]),
            inodes_total,
            inodes_usage,
        },
    )
}

fn parse_inodes(part: &Vec<char>) -> (r: Vec<Inodes>)
    ensures
        views(r@) == inodes_from(lines(part@), 0),
{
    let ls = split_lines(part);
    let ghost all = lines(part@);
    let mut r: Vec<Inodes> = Vec::new();
    let mut k: usize = 0;
    assert(views(r@) + inodes_from(all, 0) == inodes_from(all, 0));
    while k < ls.len()
        invariant
            k <= ls@.len(),
            ls@ == line_spans(part@),
            all == lines(part@),
            all_fit(ls@, part@.len()),
            views(r@) + inodes_from(all, k as int) == inodes_from(all, 0),
        decreases ls@.len() - k,
    {
        assert(ls@[k as int].fits(part@.len()));
        let line = copy_span(part, ls[k]);
        assert(line@ == all[k as int]);
        let ghost before = views(r@);
        match parse_inodes_line(&line) {
            Some(p) => {
                r.push(p);
                assert(views(r@) =~= before.push(p@));
                assert(before.push(p@) + inodes_from(all, k + 1) == before + (seq![p@]
                    + inodes_from(all, k + 1)));
            },
            None => {},
        }
        k += 1;
    }
    assert(inodes_from(all, k as int) == Seq::<InodeView>::empty());
    assert(views(r@) + Seq::<InodeView>::empty() == views(r@));
    r
}

fn parse_sizes(part: &Vec<char>, inodes: &Vec<Inodes>) -> (r: Vec<DiskInfo>)
    ensures
        views(r@) == disks_from(lines(part@), 0, views(inodes@)),
{
    let ls = split_lines(part);
    let ghost all = lines(part@);
    let ghost table = views(inodes@);
    let mut r: Vec<DiskInfo> = Vec::new();
    let mut k: usize = 0;
    assert(views(r@) + disks_from(all, 0, table) == disks_from(all, 0, table));
    while k < ls.len()
        invariant
            k <= ls@.len(),
            ls@ == line_spans(part@),
            all == lines(part@),
            table == views(inodes@),
            all_fit(ls@, part@.len()),
            views(r@) + disks_from(all, k as int, table) == disks_from(all, 0, table),
        decreases ls@.len() - k,
    {
        assert(ls@[k as int].fits(part@.len()));
        let line = copy_span(part, ls[k]);
        assert(line@ == all[k as int]);
        let ghost before = views(r@);
        match parse_disk_line(&line, inodes) {
            Some(p) => {
                r.push(p);
                assert(views(r@) =~= before.push(p@));
                assert(before.push(p@) + disks_from(all, k + 1, table) == before + (seq![p@]
                    + disks_from(all, k + 1, table)));
            },
            None => {},
        }
        k += 1;
    }
    assert(disks_from(all, k as int, table) == Seq::<DiskInfoView>::empty());
    assert(views(r@) + Seq::<DiskInfoView>::empty() == views(r@));
    r
}

/// Reads the output of the command that lists the file systems. The result
/// is empty where the output lacks the line that parts sizes from inodes.
pub fn parse_disks(output: &str) -> (r: Option<Vec<DiskInfo>>)
    ensures
        r is Some <==> sizes_part(output@) is Some,
        r is Some ==> views(r->0@) == disks_of(output@),
{
    let v = to_chars(output);
    let mark = to_chars("---");
    match find(&v, 0, &mark) {
        None => None,
        Some(p) => {
            let sizes = copy_span(&v, Span { start: 0, end: p });
            let start = p + mark.len();
            let end = match find(&v, start, &mark) {
                Some(q) => q,
                None => v.len(),
            };
            let inode_text = copy_span(&v, Span { start, end });
            let inodes = parse_inodes(&inode_text);
            let mut disks = parse_sizes(&sizes, &inodes);
            let ghost all = views(disks@);
            if disks.len() > MAX_DISKS {
                disks.truncate(MAX_DISKS);
                assert(views(disks@) =~= all.take(MAX_DISKS as int));
            }
            Some(disks)
        },
    }
}

/// The answer for the output of the command, or for the error that it
/// ended with. Output without the line that parts sizes from inodes gives
/// no file system and says so, yet counts as a success.
pub fn disk_usage_response(result: Result<String, SshError>) -> (r: DiskUsageResponse)
    ensures
        match result {
            Ok(output) => r.success && views(r.disks@) == disks_of(output@) && match sizes_part(
                output@,
            ) {
                Some(_) => r.error is None,
                None => r.error is Some && r.error->0@ == "Failed to parse disk information"@,
            },
            Err(e) => !r.success && r.disks@.len() == 0 && r.error is Some && r.error->0@
                == message_text(e),
        },
{
    match result {
        Ok(output) => match parse_disks(output.as_str()) {
            Some(disks) => DiskUsageResponse { success: true, disks, error: None },
            None => {
                let text = to_chars("Failed to parse disk information");
                let disks: Vec<DiskInfo> = Vec::new();
                assert(views(disks@) =~= disks_of(output@));
                DiskUsageResponse { success: true, disks, error: Some(chars_to_string(&text)) }
            },
        },
        Err(e) => DiskUsageResponse { success: false, disks: Vec::new(), error: Some(e.message()) },
    }
}

} // verus!
