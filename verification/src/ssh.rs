//! One client: what it connects with, how it authenticates, how the result
//! of a command is gathered, and how a transfer is cut into chunks.

use vstd::prelude::*;
use crate::error::SshError;
use crate::number::{decimal, push_decimal};
use crate::scan::{contains_sub, find, Span, starts_with};
use crate::pty_session::ChannelEvent;
use crate::text::{chars_to_string, lossy_string, push_text, to_chars, utf8_lossy};

verus! {

/// A local port that is forwarded to a host and port on the remote side.
#[derive(Debug, Clone, PartialEq, Eq)]
pub struct ForwardPort {
    pub local_port: u16,
    pub remote_host: String,
    pub remote_port: u16,
}

/// How the user proves who they are.
#[derive(Debug, Clone, PartialEq, Eq)]
pub enum AuthMethod {
    Password { password: String },
    PublicKey { key_path: String, passphrase: Option<String> },
}

/// What a connection is made with.
#[derive(Debug, Clone, PartialEq, Eq)]
pub struct SshConfig {
    pub host: String,
    pub port: u16,
    pub username: String,
    pub auth_method: AuthMethod,
    pub forward_ports: Option<Vec<ForwardPort>>,
}

/// A session as it is listed.
#[derive(Debug, Clone, PartialEq, Eq)]
pub struct SshSession {
    pub id: String,
    pub config: SshConfig,
    pub connected: bool,
}

/// The address that the local listeners bind to, and that is named as the
/// origin of forwarded connections.
pub open spec fn loopback() -> Seq<char> {
    "127.0.0.1"@
}

/// The path of a private key with a leading `~` replaced by the home
/// directory, where the path begins with `~/` and the home directory is
/// known.
pub open spec fn expanded_path(key_path: Seq<char>, home: Option<Seq<char>>) -> Seq<char> {
    match home {
        Some(h) => if seq!['~', '/'].is_prefix_of(key_path) {
            h + key_path.subrange(1, key_path.len() as int)
        } else {
            key_path
        },
        None => key_path,
    }
}

/// The path at which the private key is looked for.
pub fn expand_key_path(key_path: &str, home: Option<&str>) -> (r: String)
    ensures
        r@ == expanded_path(
            key_path@,
            match home {
                Some(h) => Some(h@),
                None => None,
            },
        ),
{
    let v = to_chars(key_path);
    let whole = Span { start: 0, end: v.len() };
    proof {
        reveal_strlit("~/");
        assert("~/"@ == seq!['~', '/']);
        assert(whole.of(v@) == v@);
    }
    match home {
        Some(h) => {
            if starts_with(&v, whole, "~/") {
                let mut out: Vec<char> = Vec::new();
                push_text(&mut out, h);
                let mut i: usize = 1;
                while i < v.len()
                    invariant
                        1 <= i <= v.len(),
                        out@ == h@ + v@.subrange(1, i as int),
                    decreases v.len() - i,
                {
                    out.push(v[i]);
                    assert(v@.subrange(1, i + 1) == v@.subrange(1, i as int).push(v@[i as int]));
                    i += 1;
                }
                chars_to_string(&out)
            } else {
                chars_to_string(&v)
            }
        },
        None => chars_to_string(&v),
    }
}

/// Whether the words of a key loader's error speak of an encrypted key.
pub open spec fn speaks_of_encryption(detail: Seq<char>) -> bool {
    contains_sub(detail, "encrypted"@) || contains_sub(detail, "passphrase"@) || contains_sub(
        detail,
        "decrypt"@,
    )
}

/// The error for a private key that could not be loaded: where the loader's
/// words speak of encryption, a passphrase is needed or wrong; else the key
/// is not valid.
pub fn key_load_error(key_path: &str, detail: &str) -> (e: SshError)
    ensures
        speaks_of_encryption(detail@) ==> e == SshError::KeyDecrypt,
        !speaks_of_encryption(detail@) ==> (e matches SshError::KeyInvalid { path, detail: d }
            && path@ == key_path@ && d@ == detail@),
{
    let v = to_chars(detail);
    let a = to_chars("encrypted");
    let b = to_chars("passphrase");
    let c = to_chars("decrypt");
    if find(&v, 0, &a).is_some() || find(&v, 0, &b).is_some() || find(&v, 0, &c).is_some() {
        SshError::KeyDecrypt
    } else {
        SshError::KeyInvalid { path: key_path.to_owned(), detail: detail.to_owned() }
    }
}

/// The error for a private key whose file does not exist.
pub fn key_missing_error(key_path: &str) -> (e: SshError)
    ensures
        e matches SshError::KeyNotFound { path } && path@ == key_path@,
{
    SshError::KeyNotFound { path: key_path.to_owned() }
}

/// What is handed to the server to authenticate.
#[derive(Debug, Clone, PartialEq, Eq)]
pub enum AuthPlan {
    /// The user name and the password.
    Password { username: String, password: String },
    /// The user name and the private key at `key_file`, opened with the
    /// passphrase, and signed with SHA-256.
    PublicKey { username: String, key_path: String, key_file: String, passphrase: Option<String> },
}

/// How a client authenticates with `config`, given the home directory.
pub fn plan_auth(config: &SshConfig, home: Option<&str>) -> (plan: AuthPlan)
    ensures
        match config.auth_method {
            AuthMethod::Password { password } => (plan matches AuthPlan::Password {
                username,
                password: p,
            } && username@ == config.username@ && p@ == password@),
            AuthMethod::PublicKey { key_path, passphrase } => (plan matches AuthPlan::PublicKey {
                username,
                key_path: k,
                key_file,
                passphrase: p,
            } && username@ == config.username@ && k@ == key_path@ && key_file@ == expanded_path(
                key_path@,
                match home {
                    Some(h) => Some(h@),
                    None => None,
                },
            ) && p == passphrase),
        },
{
    match &config.auth_method {
        AuthMethod::Password { password } => AuthPlan::Password {
            username: config.username.clone(),
            password: password.clone(),
        },
        AuthMethod::PublicKey { key_path, passphrase } => AuthPlan::PublicKey {
            username: config.username.clone(),
            key_path: key_path.clone(),
            key_file: expand_key_path(key_path.as_str(), home),
            passphrase: clone_text(passphrase),
        },
    }
}

fn clone_text(t: &Option<String>) -> (r: Option<String>)
    ensures
        r == *t,
{
    match t {
        Some(s) => Some(s.clone()),
        None => None,
    }
}

/// What the server said to an authentication.
#[derive(Clone, Copy, Debug, PartialEq, Eq, Structural)]
pub enum AuthReply {
    Success,
    /// Refused, or accepted in part only.
    Failure,
}

/// Whether the client is authenticated after the server's reply.
pub fn check_auth(reply: AuthReply) -> (r: Result<(), SshError>)
    ensures
        r == match reply {
            AuthReply::Success => Ok::<(), SshError>(()),
            AuthReply::Failure => Err::<(), SshError>(SshError::AuthFailed),
        },
{
    match reply {
        AuthReply::Success => Ok(()),
        AuthReply::Failure => Err(SshError::AuthFailed),
    }
}

/// The ports that are forwarded once the client is authenticated.
pub open spec fn forwards_of(config: SshConfig) -> Seq<ForwardPort> {
    match config.forward_ports {
        Some(ports) => ports@,
        None => Seq::empty(),
    }
}

/// How many ports `config` forwards.
pub fn forward_count(config: &SshConfig) -> (n: usize)
    ensures
        n == forwards_of(*config).len(),
{
    match &config.forward_ports {
        Some(ports) => ports.len(),
        None => 0,
    }
}

/// The address of a local port.
pub open spec fn local_address(port: u16) -> Seq<char> {
    loopback() + seq![':'] + decimal(port as nat)
}

/// The address that the listener of a forwarded port binds to.
pub fn bind_address(forward: &ForwardPort) -> (r: String)
    ensures
        r@ == local_address(forward.local_port),
{
    let mut out: Vec<char> = Vec::new();
    push_text(&mut out, "127.0.0.1");
    out.push(':');
    push_decimal(&mut out, forward.local_port as u64);
    chars_to_string(&out)
}

/// The error for a local port that could not be bound.
pub fn bind_error(forward: &ForwardPort, detail: &str) -> (e: SshError)
    ensures
        e matches SshError::BindFailed { port, detail: d } && port == forward.local_port && d@
            == detail@,
{
    SshError::BindFailed { port: forward.local_port, detail: detail.to_owned() }
}

/// What a disconnect took out of a client: the forwarders, which are to be
/// stopped first, and the transport, which is to be disconnected then.
pub struct Disconnected<H, F> {
    pub forwarders: Vec<F>,
    pub session: Option<H>,
}

/// One client: the transport, once it is authenticated, and the forwarders
/// that live on it.
pub struct SshClient<H, F> {
    session: Option<H>,
    forwarding_tasks: Vec<F>,
}

/// A client as contracts see it.
pub struct ClientView<H, F> {
    pub session: Option<H>,
    pub forwarders: Seq<F>,
}

impl<H, F> ClientView<H, F> {
    /// The client after a disconnect: no transport and no forwarder.
    pub open spec fn after_disconnect(self) -> ClientView<H, F> {
        ClientView { session: None, forwarders: Seq::empty() }
    }
}

impl<H, F> View for SshClient<H, F> {
    type V = ClientView<H, F>;

    closed spec fn view(&self) -> ClientView<H, F> {
        ClientView { session: self.session, forwarders: self.forwarding_tasks@ }
    }
}

impl<H, F> SshClient<H, F> {
    /// A client without a transport.
    pub fn new() -> (c: SshClient<H, F>)
        ensures
            c@.session is None,
            c@.forwarders.len() == 0,
    {
        SshClient { session: None, forwarding_tasks: Vec::new() }
    }

    /// Whether the client holds a transport.
    pub fn is_connected(&self) -> (b: bool)
        ensures
            b == self@.session is Some,
    {
        self.session.is_some()
    }

    /// Takes the authenticated transport.
    pub fn attach(&mut self, session: H)
        ensures
            final(self)@ == (ClientView { session: Some(session), ..old(self)@ }),
    {
        self.session = Some(session);
    }

    /// Takes a forwarder that was started on the transport.
    pub fn add_forwarder(&mut self, task: F)
        ensures
            final(self)@ == (ClientView {
                forwarders: old(self)@.forwarders.push(task),
                ..old(self)@
            }),
    {
        self.forwarding_tasks.push(task);
    }

    /// The transport, on which channels are opened. Many may use it at once.
    pub fn session(&self) -> (r: Result<&H, SshError>)
        ensures
            match self@.session {
                Some(h) => r == Ok::<&H, SshError>(&h),
                None => r == Err::<&H, SshError>(SshError::NotConnected),
            },
    {
        match &self.session {
            Some(h) => Ok(h),
            None => Err(SshError::NotConnected),
        }
    }

    /// How many forwarders live on the transport.
    pub fn forwarder_count(&self) -> (n: usize)
        ensures
            n == self@.forwarders.len(),
    {
        self.forwarding_tasks.len()
    }

    /// Disconnects: hands out all forwarders and the transport, and keeps
    /// none. On a client that is disconnected already there is nothing to
    /// hand out.
    pub fn disconnect(&mut self) -> (d: Disconnected<H, F>)
        ensures
            final(self)@ == old(self)@.after_disconnect(),
            d.session == old(self)@.session,
            d.forwarders@ == old(self)@.forwarders,
    {
        let mut forwarders: Vec<F> = Vec::new();
        std::mem::swap(&mut self.forwarding_tasks, &mut forwarders);
        let session = self.session.take();
        Disconnected { forwarders, session }
    }
}

/// Disconnecting twice is disconnecting once: after the first time the
/// client holds no transport and no forwarder, so that the second time
/// nothing is handed out and nothing changes.
pub proof fn law_disconnect_idempotent<H, F>(v: ClientView<H, F>)
    ensures
        v.after_disconnect().session is None,
        v.after_disconnect().forwarders.len() == 0,
        v.after_disconnect().after_disconnect() == v.after_disconnect(),
{
}

/// What the run of one command has gathered.
pub struct ExecState {
    output: Vec<char>,
    code: Option<u32>,
    eof: bool,
    done: bool,
}

/// The run of a command as contracts see it.
pub struct ExecView {
    pub output: Seq<char>,
    pub code: Option<u32>,
    pub eof: bool,
    pub done: bool,
}

impl ExecView {
    /// The run at its start.
    pub open spec fn start() -> ExecView {
        ExecView { output: Seq::empty(), code: None, eof: false, done: false }
    }

    /// The run after the channel handed over `ev`. Output is gathered; the
    /// run is done once both the end of the output and the exit status were
    /// seen, or when the channel closes.
    pub open spec fn after(self, ev: ChannelEvent) -> ExecView {
        if self.done {
            self
        } else {
            match ev {
                ChannelEvent::Data { data } => ExecView {
                    output: self.output + utf8_lossy(data@),
                    ..self
                },
                ChannelEvent::ExitStatus { code } => ExecView {
                    code: Some(code),
                    done: self.eof,
                    ..self
                },
                ChannelEvent::Eof => ExecView { eof: true, done: self.code is Some, ..self },
                ChannelEvent::Close => ExecView { done: true, ..self },
                ChannelEvent::Gone => ExecView { done: true, ..self },
                _ => self,
            }
        }
    }

    /// The run after the events `evs`, in order.
    pub open spec fn after_all(self, evs: Seq<ChannelEvent>) -> ExecView
        decreases evs.len(),
    {
        if evs.len() == 0 {
            self
        } else {
            self.after_all(evs.drop_last()).after(evs.last())
        }
    }

    /// Whether the command counts as having succeeded: with status 0, or
    /// without a status but with output.
    pub open spec fn succeeded(self) -> bool {
        self.code == Some(0u32) || (self.code is None && self.output.len() > 0)
    }
}

impl View for ExecState {
    type V = ExecView;

    closed spec fn view(&self) -> ExecView {
        ExecView { output: self.output@, code: self.code, eof: self.eof, done: self.done }
    }
}

impl ExecState {
    /// The run of a command that has just been sent.
    pub fn new() -> (s: ExecState)
        ensures
            s@ == ExecView::start(),
    {
        ExecState { output: Vec::new(), code: None, eof: false, done: false }
    }

    /// Takes what the channel handed over. The result says whether the run
    /// is done.
    pub fn on_event(&mut self, ev: &ChannelEvent) -> (done: bool)
        ensures
            final(self)@ == old(self)@.after(*ev),
            done == final(self)@.done,
    {
        if self.done {
            return true;
        }
        match ev {
            ChannelEvent::Data { data } => {
                let text = lossy_string(data.as_slice());
                push_text(&mut self.output, text.as_str());
            },
            ChannelEvent::ExitStatus { code } => {
                self.code = Some(*code);
                self.done = self.eof;
            },
            ChannelEvent::Eof => {
                self.eof = true;
                self.done = self.code.is_some();
            },
            ChannelEvent::Close => {
                self.done = true;
            },
            ChannelEvent::Gone => {
                self.done = true;
            },
            _ => {},
        }
        self.done
    }

    /// The result of the command: its output where it succeeded, else the
    /// status that it ended with.
    pub fn finish(self) -> (r: Result<String, SshError>)
        ensures
            self@.succeeded() ==> r is Ok && r->Ok_0@ == self@.output,
            !self@.succeeded() ==> r == Err::<String, SshError>(
                SshError::CommandFailed { code: self@.code },
            ),
    {
        match self.code {
            Some(c) => {
                if c == 0 {
                    Ok(chars_to_string(&self.output))
                } else {
                    Err(SshError::CommandFailed { code: Some(c) })
                }
            },
            None => {
                if self.output.len() > 0 {
                    Ok(chars_to_string(&self.output))
                } else {
                    Err(SshError::CommandFailed { code: None })
                }
            },
        }
    }
}

/// The result of a command whose channel handed over `events`, in order.
/// Events after the one that ends the run are not looked at.
pub fn execute_result(events: &Vec<ChannelEvent>) -> (r: Result<String, SshError>)
    ensures
        ({
            let end = ExecView::start().after_all(events@);
            &&& end.succeeded() ==> r is Ok && r->Ok_0@ == end.output
            &&& !end.succeeded() ==> r == Err::<String, SshError>(
                SshError::CommandFailed { code: end.code },
            )
        }),
{
    let mut state = ExecState::new();
    let mut i: usize = 0;
    while i < events.len()
        invariant
            i <= events.len(),
            state@ == ExecView::start().after_all(events@.take(i as int)),
        decreases events.len() - i,
    {
        let _ = state.on_event(&events[i]);
        assert(events@.take(i + 1).drop_last() == events@.take(i as int));
        i += 1;
    }
    assert(events@.take(events.len() as int) == events@);
    state.finish()
}

/// What a forwarded connection does with a message of its channel.
#[derive(Debug, Clone, PartialEq, Eq)]
pub enum RelayStep {
    /// Write the bytes to the local socket.
    Write { data: Vec<u8> },
    /// The remote side has ended: stop.
    Stop,
    /// Pass over the message.
    Skip,
}

/// What a forwarded connection does with `ev`: bytes of either stream go
/// to the local socket, the end of the stream ends the connection, and
/// anything else is passed over.
pub fn relay_step(ev: ChannelEvent) -> (r: RelayStep)
    ensures
        match ev {
            ChannelEvent::Data { data } => r == (RelayStep::Write { data }),
            ChannelEvent::ExtendedData { data } => r == (RelayStep::Write { data }),
            ChannelEvent::Eof => r == RelayStep::Stop,
            ChannelEvent::Close => r == RelayStep::Stop,
            ChannelEvent::Gone => r == RelayStep::Stop,
            _ => r == RelayStep::Skip,
        },
{
    match ev {
        ChannelEvent::Data { data } => RelayStep::Write { data },
        ChannelEvent::ExtendedData { data } => RelayStep::Write { data },
        ChannelEvent::Eof | ChannelEvent::Close | ChannelEvent::Gone => RelayStep::Stop,
        _ => RelayStep::Skip,
    }
}

/// The most bytes that one step of a file transfer moves.
pub const CHUNK_SIZE: usize = 8192;

/// The end of the chunk that begins at `offset` in a file of `len` bytes.
pub open spec fn chunk_end(len: int, offset: int) -> int {
    if offset + CHUNK_SIZE <= len {
        offset + CHUNK_SIZE
    } else {
        len
    }
}

/// The chunk of a file of `len` bytes that begins at `offset`: up to 8192
/// bytes, or nothing at the end of the file.
pub fn next_chunk(len: usize, offset: usize) -> (r: Option<(usize, usize)>)
    ensures
        offset >= len ==> r is None,
        offset < len ==> r == Some((offset, chunk_end(len as int, offset as int) as usize)),
{
    if offset >= len {
        None
    } else if len - offset >= CHUNK_SIZE {
        Some((offset, offset + CHUNK_SIZE))
    } else {
        Some((offset, len))
    }
}

/// The bytes that an upload of `data` writes from `offset` on, chunk after
/// chunk.
pub open spec fn chunked(data: Seq<u8>, offset: int) -> Seq<u8>
    decreases data.len() - offset,
{
    if 0 <= offset < data.len() {
        let end = chunk_end(data.len() as int, offset);
        data.subrange(offset, end) + chunked(data, end)
    } else {
        Seq::empty()
    }
}

/// An upload writes the bytes of the file, all of them, once and in order.
pub proof fn law_chunks_cover(data: Seq<u8>, offset: int)
    requires
        0 <= offset <= data.len(),
    ensures
        chunked(data, offset) == data.subrange(offset, data.len() as int),
    decreases data.len() - offset,
{
    if offset < data.len() {
        let end = chunk_end(data.len() as int, offset);
        law_chunks_cover(data, end);
        assert(data.subrange(offset, end) + data.subrange(end, data.len() as int)
            == data.subrange(offset, data.len() as int));
    } else {
        assert(data.subrange(offset, data.len() as int) == Seq::<u8>::empty());
    }
}

/// What a download gathers from the reads `reads`, in order.
pub open spec fn gathered(reads: Seq<Seq<u8>>) -> Seq<u8>
    decreases reads.len(),
{
    if reads.len() == 0 {
        Seq::empty()
    } else {
        gathered(reads.drop_last()) + reads.last()
    }
}

/// A file comes back as it went: where the reads of a download hand over,
/// in whatever pieces, the bytes that an upload of `data` wrote, the download
/// gathers `data`.
pub proof fn law_transfer_round_trip(data: Seq<u8>, reads: Seq<Seq<u8>>)
    requires
        gathered(reads) == chunked(data, 0),
    ensures
        gathered(reads) == data,
{
    law_chunks_cover(data, 0);
    assert(data.subrange(0, data.len() as int) == data);
}

/// What a download has gathered.
pub struct Download {
    buffer: Vec<u8>,
}

impl View for Download {
    type V = Seq<u8>;

    closed spec fn view(&self) -> Seq<u8> {
        self.buffer@
    }
}

impl Download {
    /// A download that has gathered nothing.
    pub fn new() -> (d: Download)
        ensures
            d@ == Seq::<u8>::empty(),
    {
        Download { buffer: Vec::new() }
    }

    /// Takes the bytes that one read of the remote file gave. The result
    /// says whether the download goes on: a read of no bytes is the end of
    /// the file.
    pub fn on_read(&mut self, chunk: &[u8]) -> (more: bool)
        ensures
            final(self)@ == old(self)@ + chunk@,
            more == (chunk@.len() > 0),
    {
        crate::bytes::append_range(&mut self.buffer, chunk, 0, chunk.len());
        assert(chunk@.subrange(0, chunk@.len() as int) == chunk@);
        chunk.len() > 0
    }

    /// How many bytes were gathered.
    pub fn total_bytes(&self) -> (n: usize)
        ensures
            n == self@.len(),
    {
        self.buffer.len()
    }

    /// The bytes of the file.
    pub fn finish(self) -> (data: Vec<u8>)
        ensures
            data@ == self@,
    {
        self.buffer
    }
}

} // verus!
