//! Requests from the desktop shell: what is sent to the remote host for each
//! of them, and how the answer is read.

use vstd::prelude::*;

pub mod completion;
pub mod disk;
pub mod files;
pub mod network;
pub mod probe;
pub mod process;
pub mod system;

pub use crate::commands::completion::{TabCompletionRequest, TabCompletionResponse};
pub use crate::commands::disk::{DiskInfo, DiskUsageResponse};
pub use crate::commands::files::{FileTransferRequest, FileTransferResponse, TailLogRequest};
pub use crate::commands::network::{
    ConnectionsResponse, NetworkConnection, NetworkInterface, NetworkSocketResponse,
    NetworkSocketStats, NetworkStatsResponse,
};
pub use crate::commands::process::{ProcessInfo, ProcessListResponse};
pub use crate::commands::system::{MemoryStats, SystemInfoResponse};
use crate::error::{message_text, SshError};
use crate::scan::{Span, span, split_tokens, starts_with, span_is, tokens, trim, trimmed};
use crate::ssh::{AuthMethod, ForwardPort, SshConfig};
use crate::text::{chars_to_string, push_text, slice_to_string, to_chars};

verus! {

/// The answer to a request that runs one command.
#[derive(Debug, Clone, PartialEq, Eq)]
pub struct CommandResponse {
    pub success: bool,
    pub output: Option<String>,
    pub error: Option<String>,
}

/// A request to connect.
#[derive(Debug, Clone, PartialEq, Eq)]
pub struct ConnectRequest {
    pub session_id: String,
    pub host: String,
    pub port: u16,
    pub username: String,
    /// `password` or `publickey`.
    pub auth_method: String,
    pub password: Option<String>,
    pub key_path: Option<String>,
    pub passphrase: Option<String>,
    pub forward_ports: Option<Vec<ForwardPort>>,
}

/// What is wrong with a request to connect.
#[derive(Clone, Copy, Debug, PartialEq, Eq, Structural)]
pub enum RequestError {
    /// Password authentication without a password.
    PasswordRequired,
    /// Public-key authentication without the path of a key.
    KeyPathRequired,
    /// An authentication method that is neither of the two.
    InvalidAuthMethod,
}

impl RequestError {
    /// The text of the error.
    pub fn message(&self) -> (r: &'static str)
        ensures
            r@ == match *self {
                RequestError::PasswordRequired => "Password required"@,
                RequestError::KeyPathRequired => "Key path required"@,
                RequestError::InvalidAuthMethod => "Invalid auth method"@,
            },
    {
        match self {
            RequestError::PasswordRequired => "Password required",
            RequestError::KeyPathRequired => "Key path required",
            RequestError::InvalidAuthMethod => "Invalid auth method",
        }
    }
}

/// What a request to connect asks for, or what is wrong with it.
pub open spec fn requested_auth(request: ConnectRequest) -> Result<AuthMethod, RequestError> {
    if request.auth_method@ == "password"@ {
        match request.password {
            Some(password) => Ok(AuthMethod::Password { password }),
            None => Err(RequestError::PasswordRequired),
        }
    } else if request.auth_method@ == "publickey"@ {
        match request.key_path {
            Some(key_path) => Ok(
                AuthMethod::PublicKey { key_path, passphrase: request.passphrase },
            ),
            None => Err(RequestError::KeyPathRequired),
        }
    } else {
        Err(RequestError::InvalidAuthMethod)
    }
}

/// The configuration that a request to connect asks for: the host, the
/// port, the user, the ports to forward, and the way to authenticate, which
/// must come with what it needs.
pub fn connect_config(request: ConnectRequest) -> (r: Result<SshConfig, RequestError>)
    ensures
        match requested_auth(request) {
            Ok(auth_method) => r == Ok::<SshConfig, RequestError>(
                SshConfig {
                    host: request.host,
                    port: request.port,
                    username: request.username,
                    auth_method,
                    forward_ports: request.forward_ports,
                },
            ),
            Err(e) => r == Err::<SshConfig, RequestError>(e),
        },
{
    let method = to_chars(request.auth_method.as_str());
    proof {
        assert(method@.subrange(0, method@.len() as int) == method@);
    }
    let auth_method = if crate::text::slice_is(&method, 0, method.len(), "password") {
        match request.password {
            Some(password) => AuthMethod::Password { password },
            None => {
                return Err(RequestError::PasswordRequired);
            },
        }
    } else if crate::text::slice_is(&method, 0, method.len(), "publickey") {
        match request.key_path {
            Some(key_path) => AuthMethod::PublicKey { key_path, passphrase: request.passphrase },
            None => {
                return Err(RequestError::KeyPathRequired);
            },
        }
    } else {
        return Err(RequestError::InvalidAuthMethod);
    };
    Ok(
        SshConfig {
            host: request.host,
            port: request.port,
            username: request.username,
            auth_method,
            forward_ports: request.forward_ports,
        },
    )
}

fn text_of(lit: &str) -> (r: String)
    ensures
        r@ == lit@,
{
    let v = to_chars(lit);
    chars_to_string(&v)
}

/// The answer to a connect that succeeded or failed.
pub fn connect_response(session_id: &str, result: Result<(), SshError>) -> (r: CommandResponse)
    ensures
        match result {
            Ok(_) => r.success && r.error is None && r.output is Some && r.output->0@
                == "Connected: "@ + session_id@,
            Err(e) => !r.success && r.output is None && r.error is Some && r.error->0@
                == message_text(e),
        },
{
    match result {
        Ok(_) => {
            let mut out: Vec<char> = Vec::new();
            push_text(&mut out, "Connected: ");
            push_text(&mut out, session_id);
            CommandResponse { success: true, output: Some(chars_to_string(&out)), error: None }
        },
        Err(e) => CommandResponse { success: false, output: None, error: Some(e.message()) },
    }
}

/// The answer to a request to cancel a connect; `cancelled` says whether
/// one was under way.
pub fn cancel_response(cancelled: bool) -> (r: CommandResponse)
    ensures
        r.success == cancelled,
        cancelled ==> r.error is None && r.output is Some && r.output->0@
            == "Connection cancelled"@,
        !cancelled ==> r.output is None && r.error is Some && r.error->0@
            == "No pending connection to cancel"@,
{
    if cancelled {
        CommandResponse { success: true, output: Some(text_of("Connection cancelled")), error: None }
    } else {
        CommandResponse {
            success: false,
            output: None,
            error: Some(text_of("No pending connection to cancel")),
        }
    }
}

/// The answer to a disconnect that succeeded or failed.
pub fn disconnect_response(result: Result<(), SshError>) -> (r: CommandResponse)
    ensures
        match result {
            Ok(_) => r.success && r.error is None && r.output is Some && r.output->0@
                == "Disconnected"@,
            Err(e) => !r.success && r.output is None && r.error is Some && r.error->0@
                == message_text(e),
        },
{
    match result {
        Ok(_) => CommandResponse { success: true, output: Some(text_of("Disconnected")), error: None },
        Err(e) => CommandResponse { success: false, output: None, error: Some(e.message()) },
    }
}

/// The answer for the output of a command, or for the error that it ended
/// with.
pub fn command_response(result: Result<String, SshError>) -> (r: CommandResponse)
    ensures
        match result {
            Ok(output) => r.success && r.output == Some(output) && r.error is None,
            Err(e) => !r.success && r.output is None && r.error is Some && r.error->0@
                == message_text(e),
        },
{
    match result {
        Ok(output) => CommandResponse { success: true, output: Some(output), error: None },
        Err(e) => CommandResponse { success: false, output: None, error: Some(e.message()) },
    }
}

/// The name of a command line: its first token, or nothing.
pub open spec fn command_name(command: Seq<char>) -> Seq<char> {
    let t = tokens(command);
    if t.len() > 0 {
        t[0]
    } else {
        Seq::empty()
    }
}

/// The name of the command that a command line runs.
pub fn get_command_name(command: &str) -> (name: String)
    ensures
        name@ == command_name(command@),
{
    let v = to_chars(command);
    let t = split_tokens(&v);
    if t.len() > 0 {
        slice_to_string(&v, t[0].start, t[0].end)
    } else {
        String::new()
    }
}

/// Whether `name` is a program that takes over the terminal.
pub open spec fn is_interactive_name(name: Seq<char>) -> bool {
    ||| name == "top"@
    ||| name == "htop"@
    ||| name == "vim"@
    ||| name == "vi"@
    ||| name == "nano"@
    ||| name == "emacs"@
    ||| name == "less"@
    ||| name == "more"@
    ||| name == "man"@
    ||| name == "tmux"@
    ||| name == "screen"@
}

/// Whether a command line runs a program that takes over the terminal.
pub fn is_interactive_command(command: &str) -> (r: bool)
    ensures
        r == is_interactive_name(command_name(command@)),
{
    let v = to_chars(command);
    let t = split_tokens(&v);
    if t.len() == 0 {
        proof {
            reveal_strlit("top");
            reveal_strlit("htop");
            reveal_strlit("vim");
            reveal_strlit("vi");
            reveal_strlit("nano");
            reveal_strlit("emacs");
            reveal_strlit("less");
            reveal_strlit("more");
            reveal_strlit("man");
            reveal_strlit("tmux");
            reveal_strlit("screen");
            let e = command_name(command@);
            assert(e.len() == 0);
            assert("top"@.len() == 3 && "htop"@.len() == 4 && "vim"@.len() == 3);
            assert("vi"@.len() == 2 && "nano"@.len() == 4 && "emacs"@.len() == 5);
            assert("less"@.len() == 4 && "more"@.len() == 4 && "man"@.len() == 3);
            assert("tmux"@.len() == 4 && "screen"@.len() == 6);
        }
        return false;
    }
    let n = t[0];
    span_is(&v, n, "top") || span_is(&v, n, "htop") || span_is(&v, n, "vim") || span_is(&v, n, "vi")
        || span_is(&v, n, "nano") || span_is(&v, n, "emacs") || span_is(&v, n, "less") || span_is(
        &v,
        n,
        "more",
    ) || span_is(&v, n, "man") || span_is(&v, n, "tmux") || span_is(&v, n, "screen")
}

/// Whether a trimmed command line is the program `name` alone or with
/// arguments.
pub open spec fn runs(cmd: Seq<char>, name: Seq<char>) -> bool {
    cmd == name || (name + seq![' ']).is_prefix_of(cmd)
}

/// What is run in place of a command line: `top` and `htop`, alone or with
/// arguments, become one batch run of `top`; any other line is kept as it is.
pub open spec fn batch_form(command: Seq<char>) -> Seq<char> {
    let cmd = trimmed(command);
    if runs(cmd, "top"@) || runs(cmd, "htop"@) {
        "top -bn1"@
    } else {
        command
    }
}

/// The command line that is run in place of `command`.
pub fn transform_interactive_command(command: &str) -> (r: String)
    ensures
        r@ == batch_form(command@),
{
    let v = to_chars(command);
    let whole = Span { start: 0, end: v.len() };
    let cmd = trim(&v, whole);
    proof {
        reveal_strlit("top");
        reveal_strlit("top ");
        reveal_strlit("htop");
        reveal_strlit("htop ");
        assert("top "@ == "top"@ + seq![' ']);
        assert("htop "@ == "htop"@ + seq![' ']);
        assert(whole == span(0, v@.len() as int));
    }
    if span_is(&v, cmd, "top") || starts_with(&v, cmd, "top ") || span_is(&v, cmd, "htop")
        || starts_with(&v, cmd, "htop ") {
        let b = to_chars("top -bn1");
        chars_to_string(&b)
    } else {
        chars_to_string(&v)
    }
}

/// The words of an error for a command that failed: for a program that
/// takes over the terminal, a note is added that such programs do not work
/// here.
pub open spec fn failure_text(command: Seq<char>, error: SshError) -> Seq<char> {
    if is_interactive_name(command_name(command)) {
        message_text(error) + "\n\nNote: Interactive commands like '"@ + command_name(command)
            + "' may not work in this terminal. Try using batch mode alternatives."@
    } else {
        message_text(error)
    }
}

/// The answer for the command line `command` that the user typed, given
/// the output of what was run in its place or the error that it ended with.
pub fn execute_response(command: &str, result: Result<String, SshError>) -> (r: CommandResponse)
    ensures
        match result {
            Ok(output) => r.success && r.output == Some(output) && r.error is None,
            Err(e) => !r.success && r.output is None && r.error is Some && r.error->0@
                == failure_text(command@, e),
        },
{
    match result {
        Ok(output) => CommandResponse { success: true, output: Some(output), error: None },
        Err(e) => {
            let text = e.message();
            let error = if is_interactive_command(command) {
                let name = get_command_name(command);
                let mut out: Vec<char> = Vec::new();
                push_text(&mut out, text.as_str());
                push_text(&mut out, "\n\nNote: Interactive commands like '");
                push_text(&mut out, name.as_str());
                push_text(
                    &mut out,
                    "' may not work in this terminal. Try using batch mode alternatives.",
                );
                chars_to_string(&out)
            } else {
                text
            };
            CommandResponse { success: false, output: None, error: Some(error) }
        },
    }
}

/// The texts of a sequence of strings.
pub open spec fn string_views(v: Seq<String>) -> Seq<Seq<char>> {
    Seq::new(v.len(), |i: int| v[i]@)
}

/// Whether every text has position `k` and they all hold there what the
/// first one holds.
pub open spec fn agree_at(texts: Seq<Seq<char>>, k: int) -> bool {
    forall|i: int| 0 <= i < texts.len() ==> k < (#[trigger] texts[i]).len() && texts[i][k] == texts[0][k]
}

/// The number of leading positions, counted from `k` on, at which all texts
/// agree.
pub open spec fn agreed_len(texts: Seq<Seq<char>>, k: int) -> int
    decreases texts[0].len() - k,
{
    if texts.len() > 0 && 0 <= k < texts[0].len() && agree_at(texts, k) {
        agreed_len(texts, k + 1)
    } else {
        k
    }
}

/// The longest text that every one of `texts` begins with.
pub open spec fn longest_common_prefix(texts: Seq<Seq<char>>) -> Seq<char> {
    texts[0].take(agreed_len(texts, 0))
}

/// What is offered as the common prefix of some completions: nothing for no
/// completion, the completion itself where there is one, and else the longest
/// common prefix, unless that is empty or is the first completion.
pub open spec fn offered_prefix(texts: Seq<Seq<char>>) -> Option<Seq<char>> {
    if texts.len() == 0 {
        None
    } else if texts.len() == 1 {
        Some(texts[0])
    } else {
        let p = longest_common_prefix(texts);
        if p.len() == 0 || p == texts[0] {
            None
        } else {
            Some(p)
        }
    }
}

proof fn lemma_longest_common_prefix(texts: Seq<Seq<char>>, k: int)
    requires
        texts.len() > 0,
        0 <= k <= texts[0].len(),
        forall|j: int| 0 <= j < k ==> agree_at(texts, j),
    ensures
        k <= agreed_len(texts, k) <= texts[0].len(),
        forall|i: int|
            0 <= i < texts.len() ==> texts[0].take(agreed_len(texts, k)).is_prefix_of(
                #[trigger] texts[i],
            ),
        forall|p: Seq<char>|
            (forall|i: int| 0 <= i < texts.len() ==> p.is_prefix_of(#[trigger] texts[i]))
                ==> p.len() <= agreed_len(texts, k),
    decreases texts[0].len() - k,
{
    if k < texts[0].len() && agree_at(texts, k) {
        assert forall|j: int| 0 <= j < k + 1 implies agree_at(texts, j) by {}
        lemma_longest_common_prefix(texts, k + 1);
    } else {
        let n = agreed_len(texts, k);
        assert(n == k);
        assert forall|i: int| 0 <= i < texts.len() implies texts[0].take(n).is_prefix_of(
            #[trigger] texts[i],
        ) by {
            assert forall|j: int| 0 <= j < n implies j < texts[i].len() && texts[i][j]
                == texts[0][j] by {
                assert(agree_at(texts, j));
            }
            if n > 0 {
                assert(agree_at(texts, n - 1));
            }
            assert(texts[0].take(n) =~= texts[i].subrange(0, n));
        }
        assert forall|p: Seq<char>|
            (forall|i: int| 0 <= i < texts.len() ==> p.is_prefix_of(
                #[trigger] texts[i],
            )) implies p.len() <= n by {
            if p.len() > n {
                assert(p.is_prefix_of(texts[0]));
                assert(n < texts[0].len());
                assert(!agree_at(texts, n));
                let i = choose|i: int|
                    0 <= i < texts.len() && !(n < (#[trigger] texts[i]).len() && texts[i][n]
                        == texts[0][n]);
                assert(p.is_prefix_of(texts[i]));
                assert(p[n] == texts[i].subrange(0, p.len() as int)[n]);
                assert(p[n] == texts[0].subrange(0, p.len() as int)[n]);
            }
        }
    }
}

/// The longest common prefix is what its name says: every text begins
/// with it, and with no longer text.
pub proof fn law_common_prefix(texts: Seq<Seq<char>>, p: Seq<char>)
    requires
        texts.len() > 0,
    ensures
        forall|i: int|
            0 <= i < texts.len() ==> longest_common_prefix(texts).is_prefix_of(#[trigger] texts[i]),
        (forall|i: int| 0 <= i < texts.len() ==> p.is_prefix_of(#[trigger] texts[i])) ==> p.len()
            <= longest_common_prefix(texts).len(),
{
    lemma_longest_common_prefix(texts, 0);
}

/// The common prefix that is offered for some completions.
pub fn find_common_prefix(strings: &[String]) -> (r: Option<String>)
    ensures
        match r {
            Some(p) => offered_prefix(string_views(strings@)) == Some(p@),
            None => offered_prefix(string_views(strings@)) is None,
        },
{
    let ghost texts = string_views(strings@);
    if strings.len() == 0 {
        return None;
    }
    if strings.len() == 1 {
        return Some(strings[0].clone());
    }
    let mut cs: Vec<Vec<char>> = Vec::new();
    let mut i: usize = 0;
    while i < strings.len()
        invariant
            i <= strings.len(),
            cs.len() == i,
            forall|j: int| 0 <= j < i ==> (#[trigger] cs[j])@ == strings[j]@,
        decreases strings.len() - i,
    {
        cs.push(to_chars(strings[i].as_str()));
        i += 1;
    }
    let mut k: usize = 0;
    let first_len = cs[0].len();
    let mut stop: bool = false;
    while k < first_len && !stop
        invariant
            texts == string_views(strings@),
            stop ==> k < first_len && !agree_at(texts, k as int),
            strings.len() > 1,
            cs.len() == strings.len(),
            forall|j: int| 0 <= j < cs.len() ==> (#[trigger] cs[j])@ == strings[j]@,
            first_len == cs[0].len(),
            k <= first_len,
            agreed_len(texts, k as int) == agreed_len(texts, 0),
        decreases first_len - k, if stop { 0int } else { 1int },
    {
        let ch = cs[0][k];
        let mut all: bool = true;
        let mut j: usize = 0;
        while j < cs.len()
            invariant
                texts == string_views(strings@),
                cs.len() == strings.len(),
                forall|j: int| 0 <= j < cs.len() ==> (#[trigger] cs[j])@ == strings[j]@,
                k < cs[0].len(),
                ch == cs[0][k as int],
                j <= cs.len(),
                all ==> forall|i: int|
                    0 <= i < j ==> k < (#[trigger] texts[i]).len() && texts[i][k as int]
                        == texts[0][k as int],
                !all ==> !agree_at(texts, k as int),
            decreases cs.len() - j,
        {
            if all {
                if k >= cs[j].len() || cs[j][k] != ch {
                    all = false;
                    assert(!(k < texts[j as int].len() && texts[j as int][k as int]
                        == texts[0][k as int]));
                }
            }
            j += 1;
        }
        if !all {
            stop = true;
        } else {
            assert(agree_at(texts, k as int));
            assert(texts[0] == cs[0]@);
            k += 1;
        }
    }
    assert(texts[0] == cs[0]@);
    assert(k == agreed_len(texts, k as int));
    if k == 0 || k == first_len {
        assert(k == first_len ==> texts[0].take(k as int) == texts[0]);
        None
    } else {
        let p = slice_to_string(&cs[0], 0, k);
        assert(longest_common_prefix(texts).len() == k);
        Some(p)
    }
}

} // verus!
