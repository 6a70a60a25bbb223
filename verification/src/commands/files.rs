//! Files and processes of the remote host: the commands that act on them,
//! and the answers to transfers.

use vstd::prelude::*;
use crate::error::{message_text, SshError};
use crate::number::{decimal, push_decimal};
use crate::text::{chars_to_string, push_text};

verus! {

/// A request to move a file.
#[derive(Debug, Clone, PartialEq, Eq)]
pub struct FileTransferRequest {
    pub session_id: String,
    pub local_path: String,
    pub remote_path: String,
    /// For an upload: the contents of the file, where they do not come from
    /// a local file.
    pub data: Option<Vec<u8>>,
}

/// The answer to a request to move a file.
#[derive(Debug, Clone, PartialEq, Eq)]
pub struct FileTransferResponse {
    pub success: bool,
    pub bytes_transferred: Option<u64>,
    /// For a download to memory: the contents of the file.
    pub data: Option<Vec<u8>>,
    pub error: Option<String>,
}

/// A request for the end of a log.
#[derive(Debug, Clone, PartialEq, Eq)]
pub struct TailLogRequest {
    pub session_id: String,
    pub log_path: String,
    /// How many lines to show; 50 where nothing is said.
    pub lines: Option<u32>,
}

/// `path` between single quotes.
pub open spec fn quoted(path: Seq<char>) -> Seq<char> {
    seq!['\''] + path + seq!['\'']
}

fn push_quoted(out: &mut Vec<char>, path: &str)
    ensures
        final(out)@ == old(out)@ + quoted(path@),
{
    out.push('\'');
    push_text(out, path);
    out.push('\'');
    assert(final(out)@ =~= old(out)@ + quoted(path@));
}

fn recipe_one(head: &str, path: &str) -> (r: String)
    ensures
        r@ == head@ + quoted(path@),
{
    let mut out: Vec<char> = Vec::new();
    push_text(&mut out, head);
    push_quoted(&mut out, path);
    chars_to_string(&out)
}

fn recipe_two(head: &str, first: &str, second: &str) -> (r: String)
    ensures
        r@ == head@ + quoted(first@) + seq![' '] + quoted(second@),
{
    let mut out: Vec<char> = Vec::new();
    push_text(&mut out, head);
    push_quoted(&mut out, first);
    out.push(' ');
    push_quoted(&mut out, second);
    chars_to_string(&out)
}

/// The command that lists the files at `path`.
pub fn list_files_command(path: &str) -> (r: String)
    ensures
        r@ == "ls -la --time-style=long-iso "@ + quoted(path@),
{
    recipe_one("ls -la --time-style=long-iso ", path)
}

/// The command that makes the directory `path` and those above it. It
/// succeeds where the directory is there already.
pub fn create_directory_command(path: &str) -> (r: String)
    ensures
        r@ == "mkdir -p "@ + quoted(path@),
{
    recipe_one("mkdir -p ", path)
}

/// The command that deletes `path`: a directory with all that is in it.
pub fn delete_file_command(path: &str, is_directory: bool) -> (r: String)
    ensures
        r@ == if is_directory {
            "rm -rf "@ + quoted(path@)
        } else {
            "rm -f "@ + quoted(path@)
        },
{
    if is_directory {
        recipe_one("rm -rf ", path)
    } else {
        recipe_one("rm -f ", path)
    }
}

/// The command that moves `old_path` to `new_path`.
pub fn rename_file_command(old_path: &str, new_path: &str) -> (r: String)
    ensures
        r@ == "mv "@ + quoted(old_path@) + seq![' '] + quoted(new_path@),
{
    recipe_two("mv ", old_path, new_path)
}

/// The command that prints the file at `path`.
pub fn read_file_content_command(path: &str) -> (r: String)
    ensures
        r@ == "cat "@ + quoted(path@),
{
    recipe_one("cat ", path)
}

/// The command that copies `source_path` to `dest_path`, a directory with
/// all that is in it.
pub fn copy_file_command(source_path: &str, dest_path: &str) -> (r: String)
    ensures
        r@ == "cp -r "@ + quoted(source_path@) + seq![' '] + quoted(dest_path@),
{
    recipe_two("cp -r ", source_path, dest_path)
}

/// The signal that a process is sent where none is named.
pub open spec fn default_signal() -> Seq<char> {
    "15"@
}

/// The command that sends a signal to the process `pid`.
pub fn kill_process_command(pid: &str, signal: Option<&str>) -> (r: String)
    ensures
        r@ == "kill -"@ + (match signal {
            Some(s) => s@,
            None => default_signal(),
        }) + seq![' '] + pid@,
{
    let mut out: Vec<char> = Vec::new();
    push_text(&mut out, "kill -");
    match signal {
        Some(s) => push_text(&mut out, s),
        None => push_text(&mut out, "15"),
    }
    out.push(' ');
    push_text(&mut out, pid);
    chars_to_string(&out)
}

/// How many lines of a log are shown where no number is given.
pub const DEFAULT_LOG_LINES: u32 = 50;

/// The command that prints the last lines of the log at `log_path`.
pub fn tail_log_command(log_path: &str, lines: Option<u32>) -> (r: String)
    ensures
        r@ == "tail -n "@ + decimal(
            (match lines {
                Some(n) => n,
                None => DEFAULT_LOG_LINES,
            }) as nat,
        ) + seq![' '] + quoted(log_path@),
{
    let count = match lines {
        Some(n) => n,
        None => DEFAULT_LOG_LINES,
    };
    let mut out: Vec<char> = Vec::new();
    push_text(&mut out, "tail -n ");
    push_decimal(&mut out, count as u64);
    out.push(' ');
    push_quoted(&mut out, log_path);
    chars_to_string(&out)
}

/// The command that lists the log files.
pub fn list_log_files_command() -> (r: &'static str)
    ensures
        r@ == "find /var/log -type f -name '*.log' 2>/dev/null | head -50"@,
{
    "find /var/log -type f -name '*.log' 2>/dev/null | head -50"
}

/// Whether a download goes to memory: it does where no local path is
/// named.
pub fn downloads_to_memory(request: &FileTransferRequest) -> (b: bool)
    ensures
        b == (request.local_path@.len() == 0),
{
    request.local_path.as_str().unicode_len() == 0
}

/// Whether an upload takes its bytes from the request, not from a local
/// file.
pub fn uploads_from_memory(request: &FileTransferRequest) -> (b: bool)
    ensures
        b == request.data is Some,
{
    request.data.is_some()
}

/// The answer for a transfer that moved so many bytes, or failed.
pub fn transfer_response(result: Result<u64, SshError>) -> (r: FileTransferResponse)
    ensures
        r.data is None,
        match result {
            Ok(bytes) => r.success && r.bytes_transferred == Some(bytes) && r.error is None,
            Err(e) => !r.success && r.bytes_transferred is None && r.error is Some
                && r.error->0@ == message_text(e),
        },
{
    match result {
        Ok(bytes) => FileTransferResponse {
            success: true,
            bytes_transferred: Some(bytes),
            data: None,
            error: None,
        },
        Err(e) => FileTransferResponse {
            success: false,
            bytes_transferred: None,
            data: None,
            error: Some(e.message()),
        },
    }
}

/// The answer for a download to memory that gave these bytes, or failed.
pub fn download_response(result: Result<Vec<u8>, SshError>) -> (r: FileTransferResponse)
    ensures
        match result {
            Ok(data) => r.success && r.bytes_transferred == Some(data@.len() as u64) && r.data
                == Some(data) && r.error is None,
            Err(e) => !r.success && r.bytes_transferred is None && r.data is None
                && r.error is Some && r.error->0@ == message_text(e),
        },
{
    match result {
        Ok(data) => {
            let bytes = data.len() as u64;
            FileTransferResponse {
                success: true,
                bytes_transferred: Some(bytes),
                data: Some(data),
                error: None,
            }
        },
        Err(e) => FileTransferResponse {
            success: false,
            bytes_transferred: None,
            data: None,
            error: Some(e.message()),
        },
    }
}

} // verus!
