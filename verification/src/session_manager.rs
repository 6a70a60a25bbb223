//! The sessions of the process: which identifiers have a client, a terminal
//! or a connect under way, and what each request does to them.

use vstd::prelude::*;
use crate::error::SshError;
use crate::pty_session::{
    valid_size, ChannelEvent, InputStep, Pump, PtySession, PtyView, PumpStep, WriteOutcome,
    WriteVerdict, event_bytes, event_ends, OUTPUT_CAPACITY,
};
use crate::table::Table;

verus! {

/// How a connect ended.
pub enum ConnectOutcome<C> {
    /// The client is connected and authenticated.
    Connected { client: C },
    /// The connect was cancelled.
    Cancelled,
    /// The connect failed.
    Failed { error: SshError },
}

/// What a close took out of the manager: the terminal, closed, and the
/// client, which is still to be disconnected.
pub struct ClosedSession<C> {
    pub pty: Option<PtySession>,
    pub client: Option<C>,
}

/// The terminals of a table as contracts see them.
pub open spec fn pty_views(m: Map<Seq<char>, PtySession>) -> Map<Seq<char>, PtyView> {
    Map::new(|k: Seq<char>| m.contains_key(k), |k: Seq<char>| m[k]@)
}

/// Whether a terminal can be reached under an identifier.
pub enum PtyAccess {
    /// No session under the identifier.
    NoSession,
    /// A session, but no terminal.
    NoPty,
    /// A session with a terminal.
    Found,
}

/// The manager as contracts see it: three maps keyed by the session
/// identifier.
pub struct ManagerView<C, T> {
    /// The connected clients.
    pub sessions: Map<Seq<char>, C>,
    /// The terminals.
    pub ptys: Map<Seq<char>, PtyView>,
    /// The handles that cancel a connect under way.
    pub pending: Map<Seq<char>, T>,
}

impl<C, T> ManagerView<C, T> {
    /// What holds of every manager: a terminal belongs to a session.
    pub open spec fn wf(self) -> bool {
        forall|k: Seq<char>| self.ptys.contains_key(k) ==> self.sessions.contains_key(k)
    }

    /// The manager after the session `id` was closed: first its terminal
    /// goes, then its client.
    pub open spec fn after_close_session(self, id: Seq<char>) -> Self {
        ManagerView { sessions: self.sessions.remove(id), ptys: self.ptys.remove(id), ..self }
    }

    /// The manager after a connect for `id` began: what was there under `id`
    /// is closed, and `token` cancels the connect.
    pub open spec fn after_begin_connect(self, id: Seq<char>, token: T) -> Self {
        ManagerView {
            sessions: self.sessions.remove(id),
            ptys: self.ptys.remove(id),
            pending: self.pending.insert(id, token),
        }
    }

    /// The manager after the connect for `id` ended with `outcome`: the
    /// handle is gone, and a connected client stands under `id`.
    pub open spec fn after_connect(self, id: Seq<char>, outcome: ConnectOutcome<C>) -> Self {
        ManagerView {
            sessions: match outcome {
                ConnectOutcome::Connected { client } => self.sessions.insert(id, client),
                _ => self.sessions,
            },
            pending: self.pending.remove(id),
            ..self
        }
    }

    /// The manager after the connect for `id` was cancelled.
    pub open spec fn after_cancel(self, id: Seq<char>) -> Self {
        ManagerView { pending: self.pending.remove(id), ..self }
    }

    /// Whether the terminal `id` can be reached.
    pub open spec fn access(self, id: Seq<char>) -> PtyAccess {
        if !self.sessions.contains_key(id) {
            PtyAccess::NoSession
        } else if !self.ptys.contains_key(id) {
            PtyAccess::NoPty
        } else {
            PtyAccess::Found
        }
    }

    /// Whether a terminal of the given size can be started under `id`.
    pub open spec fn can_start_pty(self, id: Seq<char>, cols: u32, rows: u32) -> bool {
        self.sessions.contains_key(id) && valid_size(cols, rows)
    }

    /// Why a terminal of the given size cannot be started under `id`, if it
    /// cannot: a missing session is reported before a bad size.
    pub open spec fn start_pty_error(self, id: Seq<char>, cols: u32, rows: u32) -> Option<
        SshError,
    > {
        if !self.sessions.contains_key(id) {
            Some(SshError::SessionNotFound)
        } else if !valid_size(cols, rows) {
            Some(SshError::BadTerminalSize { cols, rows })
        } else {
            None
        }
    }

    /// The manager after a terminal of the given size was asked for under
    /// `id`.
    pub open spec fn after_start_pty(self, id: Seq<char>, cols: u32, rows: u32) -> Self {
        if self.can_start_pty(id, cols, rows) {
            ManagerView {
                ptys: self.ptys.insert(
                    id,
                    PtyView {
                        input: Seq::empty(),
                        output: Seq::empty(),
                        closed: false,
                        cols,
                        rows,
                        input_pump: true,
                        output_pump: true,
                    },
                ),
                ..self
            }
        } else {
            self
        }
    }

    /// The manager with the terminal `id`, where it can be reached, changed
    /// to `pty`.
    pub open spec fn with_pty(self, id: Seq<char>, pty: PtyView) -> Self {
        if self.access(id) is Found {
            ManagerView { ptys: self.ptys.insert(id, pty), ..self }
        } else {
            self
        }
    }

    /// The manager after the terminal `id` was closed and removed.
    pub open spec fn after_close_pty(self, id: Seq<char>) -> Self {
        ManagerView { ptys: self.ptys.remove(id), ..self }
    }
}

/// The sessions of the process.
pub struct SessionManager<C, T> {
    sessions: Table<C>,
    pty_sessions: Table<PtySession>,
    pending_connections: Table<T>,
}

impl<C, T> View for SessionManager<C, T> {
    type V = ManagerView<C, T>;

    closed spec fn view(&self) -> ManagerView<C, T> {
        ManagerView {
            sessions: self.sessions@,
            ptys: pty_views(self.pty_sessions@),
            pending: self.pending_connections@,
        }
    }
}

impl<C, T> SessionManager<C, T> {
    #[verifier::type_invariant]
    spec fn inv(self) -> bool {
        &&& self.sessions.wf()
        &&& self.pty_sessions.wf()
        &&& self.pending_connections.wf()
        &&& forall|k: Seq<char>| #[trigger]
            self.pty_sessions@.contains_key(k) ==> self.sessions@.contains_key(k)
    }

    /// A manager without sessions.
    pub fn new() -> (m: SessionManager<C, T>)
        ensures
            m@.sessions == Map::<Seq<char>, C>::empty(),
            m@.ptys == Map::<Seq<char>, PtyView>::empty(),
            m@.pending == Map::<Seq<char>, T>::empty(),
    {
        let m = SessionManager {
            sessions: Table::new(),
            pty_sessions: Table::new(),
            pending_connections: Table::new(),
        };
        assert(m@.ptys =~= Map::<Seq<char>, PtyView>::empty());
        m
    }

    /// Every terminal of a manager belongs to one of its sessions.
    pub fn check(&self)
        ensures
            self@.wf(),
    {
        proof {
            use_type_invariant(self);
        }
    }

    fn take_parts(&mut self) -> (parts: (Table<C>, Table<PtySession>, Table<T>))
        ensures
            parts.0.wf(),
            parts.1.wf(),
            parts.2.wf(),
            parts.0@ == old(self)@.sessions,
            pty_views(parts.1@) == old(self)@.ptys,
            parts.2@ == old(self)@.pending,
            parts.0 == old(self).sessions,
            forall|k: Seq<char>| #[trigger] parts.1@.contains_key(k) ==> parts.0@.contains_key(k),
    {
        proof {
            use_type_invariant(&*self);
        }
        let mut taken: SessionManager<C, T> = SessionManager::new();
        std::mem::swap(self, &mut taken);
        let SessionManager { sessions, pty_sessions, pending_connections } = taken;
        (sessions, pty_sessions, pending_connections)
    }

    /// The client of the session `session_id`.
    pub fn get_session(&self, session_id: &str) -> (r: Option<&C>)
        ensures
            match r {
                Some(c) => self@.sessions.contains_key(session_id@) && *c
                    == self@.sessions[session_id@],
                None => !self@.sessions.contains_key(session_id@),
            },
    {
        proof {
            use_type_invariant(self);
        }
        self.sessions.get(session_id)
    }

    /// The identifiers of the sessions, each once.
    pub fn list_sessions(&self) -> (r: Vec<String>)
        ensures
            forall|k: Seq<char>|
                self@.sessions.contains_key(k) <==> exists|i: int|
                    0 <= i < r@.len() && (#[trigger] r@[i])@ == k,
            forall|i: int, j: int|
                0 <= i < j < r@.len() ==> (#[trigger] r@[i])@ != (#[trigger] r@[j])@,
    {
        proof {
            use_type_invariant(self);
            self.sessions.lemma_keys();
        }
        let r = self.sessions.keys();
        proof {
            let texts = self.sessions.key_texts();
            assert forall|k: Seq<char>|
                self@.sessions.contains_key(k) <==> exists|i: int|
                    0 <= i < r@.len() && (#[trigger] r@[i])@ == k by {
                if self@.sessions.contains_key(k) {
                    assert(texts.contains(k));
                    let i = choose|i: int| 0 <= i < texts.len() && texts[i] == k;
                    assert(r@[i]@ == k);
                }
                if exists|i: int| 0 <= i < r@.len() && (#[trigger] r@[i])@ == k {
                    let i = choose|i: int| 0 <= i < r@.len() && (#[trigger] r@[i])@ == k;
                    assert(texts[i] == k);
                    assert(texts.contains(k));
                }
            }
            assert forall|i: int, j: int| 0 <= i < j < r@.len() implies (#[trigger] r@[i])@ != (
            #[trigger] r@[j])@ by {
                assert(texts[i] != texts[j]);
            }
        }
        r
    }

    /// Whether a connect for `session_id` is under way.
    pub fn is_pending(&self, session_id: &str) -> (b: bool)
        ensures
            b == self@.pending.contains_key(session_id@),
    {
        proof {
            use_type_invariant(self);
        }
        self.pending_connections.contains_key(session_id)
    }

    /// Whether `session_id` has a terminal.
    pub fn has_pty(&self, session_id: &str) -> (b: bool)
        ensures
            b == self@.ptys.contains_key(session_id@),
    {
        proof {
            use_type_invariant(self);
        }
        self.pty_sessions.contains_key(session_id)
    }

    /// Closes the session `session_id`: its terminal is closed and removed,
    /// then its client is removed. The result holds what was removed; where
    /// nothing was there, nothing changes.
    pub fn close_session(&mut self, session_id: &str) -> (closed: ClosedSession<C>)
        ensures
            final(self)@ == old(self)@.after_close_session(session_id@),
            closed.client == if old(self)@.sessions.contains_key(session_id@) {
                Some(old(self)@.sessions[session_id@])
            } else {
                None::<C>
            },
            closed.pty is Some <==> old(self)@.ptys.contains_key(session_id@),
            closed.pty is Some ==> closed.pty->0@ == old(self)@.ptys[session_id@].after_close(),
    {
        let (mut sessions, mut ptys, pending) = self.take_parts();
        let ghost ptys_before = ptys@;
        let pty = match ptys.remove(session_id) {
            Some(mut p) => {
                let _ = p.close();
                Some(p)
            },
            None => None,
        };
        let client = sessions.remove(session_id);
        proof {
            assert(pty_views(ptys@) =~= pty_views(ptys_before).remove(session_id@));
        }
        *self = SessionManager { sessions, pty_sessions: ptys, pending_connections: pending };
        ClosedSession { pty, client }
    }

    /// Begins a connect for `session_id`: what was there under the
    /// identifier is closed as by `close_session`, and `token`, the handle
    /// that cancels the connect, is registered in place of any earlier one.
    pub fn begin_connect(&mut self, session_id: &str, token: T) -> (closed: ClosedSession<C>)
        ensures
            final(self)@ == old(self)@.after_begin_connect(session_id@, token),
            closed.client == if old(self)@.sessions.contains_key(session_id@) {
                Some(old(self)@.sessions[session_id@])
            } else {
                None::<C>
            },
            closed.pty is Some <==> old(self)@.ptys.contains_key(session_id@),
            closed.pty is Some ==> closed.pty->0@ == old(self)@.ptys[session_id@].after_close(),
    {
        let closed = self.close_session(session_id);
        let (sessions, ptys, mut pending) = self.take_parts();
        let _ = pending.insert(session_id.to_owned(), token);
        *self = SessionManager { sessions, pty_sessions: ptys, pending_connections: pending };
        closed
    }

    /// Ends the connect for `session_id` with `outcome`. The handle that
    /// cancels it is removed whatever the outcome. A connected client is put
    /// under the identifier, and a client that stood there is handed back; a
    /// cancelled or failed connect is an error and leaves the sessions as
    /// they are.
    pub fn create_session(&mut self, session_id: String, outcome: ConnectOutcome<C>) -> (r: Result<
        Option<C>,
        SshError,
    >)
        ensures
            final(self)@ == old(self)@.after_connect(session_id@, outcome),
            match outcome {
                ConnectOutcome::Connected { client } => r == Ok::<Option<C>, SshError>(
                    if old(self)@.sessions.contains_key(session_id@) {
                        Some(old(self)@.sessions[session_id@])
                    } else {
                        None::<C>
                    },
                ),
                ConnectOutcome::Cancelled => r == Err::<Option<C>, SshError>(SshError::Cancelled),
                ConnectOutcome::Failed { error } => r == Err::<Option<C>, SshError>(error),
            },
    {
        let (mut sessions, ptys, mut pending) = self.take_parts();
        let _ = pending.remove(session_id.as_str());
        let r = match outcome {
            ConnectOutcome::Connected { client } => Ok(sessions.insert(session_id, client)),
            ConnectOutcome::Cancelled => Err(SshError::Cancelled),
            ConnectOutcome::Failed { error } => Err(error),
        };
        *self = SessionManager { sessions, pty_sessions: ptys, pending_connections: pending };
        r
    }

    /// Cancels the connect for `session_id`: its handle is removed and
    /// handed back, to be signalled. The result is empty where no connect was
    /// under way.
    pub fn cancel_pending_connection(&mut self, session_id: &str) -> (token: Option<T>)
        ensures
            final(self)@ == old(self)@.after_cancel(session_id@),
            token == if old(self)@.pending.contains_key(session_id@) {
                Some(old(self)@.pending[session_id@])
            } else {
                None::<T>
            },
    {
        let (sessions, ptys, mut pending) = self.take_parts();
        let token = pending.remove(session_id);
        *self = SessionManager { sessions, pty_sessions: ptys, pending_connections: pending };
        token
    }

    /// Tests whether a terminal of the given size can be started under
    /// `session_id`, and hands out the client on which its channel is to be
    /// opened. A missing session is reported before a bad size.
    pub fn check_pty_start(&self, session_id: &str, cols: u32, rows: u32) -> (r: Result<
        &C,
        SshError,
    >)
        ensures
            match self@.start_pty_error(session_id@, cols, rows) {
                Some(e) => r == Err::<&C, SshError>(e),
                None => r == Ok::<&C, SshError>(&self@.sessions[session_id@]),
            },
    {
        proof {
            use_type_invariant(self);
        }
        match self.sessions.get(session_id) {
            None => Err(SshError::SessionNotFound),
            Some(client) => match crate::pty_session::check_size(cols, rows) {
                Err(e) => Err(e),
                Ok(_) => Ok(client),
            },
        }
    }

    /// Puts a new terminal of the given size under `session_id`, in place of
    /// any that was there. Without a session under the identifier, or with a
    /// size outside 1 to 1000 columns and rows, it fails and stores nothing.
    pub fn start_pty_session(&mut self, session_id: &str, cols: u32, rows: u32) -> (r: Result<
        (),
        SshError,
    >)
        ensures
            final(self)@ == old(self)@.after_start_pty(session_id@, cols, rows),
            match old(self)@.start_pty_error(session_id@, cols, rows) {
                Some(e) => r == Err::<(), SshError>(e),
                None => r is Ok,
            },
    {
        let (sessions, mut ptys, pending) = self.take_parts();
        let r = if !sessions.contains_key(session_id) {
            Err(SshError::SessionNotFound)
        } else {
            match PtySession::create(cols, rows) {
                Err(e) => Err(e),
                Ok(pty) => {
                    let ghost before = ptys@;
                    let _ = ptys.insert(session_id.to_owned(), pty);
                    assert(pty_views(ptys@) =~= pty_views(before).insert(session_id@, pty@));
                    Ok(())
                },
            }
        };
        *self = SessionManager { sessions, pty_sessions: ptys, pending_connections: pending };
        r
    }

    /// Closes the terminal of `session_id` and removes it. The result says
    /// whether there was one.
    pub fn close_pty_session(&mut self, session_id: &str) -> (found: bool)
        ensures
            final(self)@ == old(self)@.after_close_pty(session_id@),
            found == old(self)@.ptys.contains_key(session_id@),
    {
        let (sessions, mut ptys, pending) = self.take_parts();
        let ghost before = ptys@;
        let found = match ptys.remove(session_id) {
            Some(mut p) => {
                let _ = p.close();
                true
            },
            None => false,
        };
        assert(pty_views(ptys@) =~= pty_views(before).remove(session_id@));
        *self = SessionManager { sessions, pty_sessions: ptys, pending_connections: pending };
        found
    }

    /// Writes `data` to the terminal of `session_id`. Without a session the
    /// write fails as having no session, and with a session but no terminal
    /// as having no terminal; else the terminal decides, as its own `write`
    /// says.
    pub fn write_to_pty(&mut self, session_id: &str, data: Vec<u8>) -> (r: Result<
        WriteOutcome,
        SshError,
    >)
        ensures
            match old(self)@.access(session_id@) {
                PtyAccess::NoSession => final(self)@ == old(self)@ && (r matches Err(
                    SshError::NoSshSession { session_id: id },
                ) && id@ == session_id@),
                PtyAccess::NoPty => final(self)@ == old(self)@ && (r matches Err(
                    SshError::PtyNotFound { session_id: id },
                ) && id@ == session_id@),
                PtyAccess::Found => {
                    let pty = old(self)@.ptys[session_id@];
                    &&& final(self)@ == old(self)@.with_pty(session_id@, pty.after_write(data@))
                    &&& match pty.write_verdict(data@) {
                        WriteVerdict::Closed => r == Err::<WriteOutcome, SshError>(
                            SshError::PtyClosed,
                        ),
                        WriteVerdict::Ignored => r == Ok::<WriteOutcome, SshError>(
                            WriteOutcome::Ignored,
                        ),
                        WriteVerdict::TooLarge => r == Err::<WriteOutcome, SshError>(
                            SshError::PayloadTooLarge { len: data.len() },
                        ),
                        WriteVerdict::Queued => r == Ok::<WriteOutcome, SshError>(
                            WriteOutcome::Queued,
                        ),
                        WriteVerdict::Full => r == Ok::<WriteOutcome, SshError>(
                            WriteOutcome::Full { data },
                        ),
                    }
                },
            },
    {
        let (sessions, mut ptys, pending) = self.take_parts();
        let ghost before = ptys@;
        let r = if !sessions.contains_key(session_id) {
            Err(SshError::NoSshSession { session_id: session_id.to_owned() })
        } else {
            match ptys.remove(session_id) {
                None => {
                    assert(ptys@ =~= before);
                    Err(SshError::PtyNotFound { session_id: session_id.to_owned() })
                },
                Some(mut pty) => {
                    let r = pty.write(data);
                    let _ = ptys.insert(session_id.to_owned(), pty);
                    assert(ptys@ =~= before.insert(session_id@, pty));
                    assert(pty_views(ptys@) =~= pty_views(before).insert(session_id@, pty@));
                    r
                },
            }
        };
        *self = SessionManager { sessions, pty_sessions: ptys, pending_connections: pending };
        r
    }

    /// Reads from the terminal of `session_id`. Without a session the read
    /// fails as having no session, and with a session but no terminal as
    /// having no terminal; else the terminal decides, as its own `read` says:
    /// the oldest chunk of output, or nothing where none waits.
    pub fn read_from_pty(&mut self, session_id: &str) -> (r: Result<Vec<u8>, SshError>)
        ensures
            match old(self)@.access(session_id@) {
                PtyAccess::NoSession => final(self)@ == old(self)@ && (r matches Err(
                    SshError::NoSshSession { session_id: id },
                ) && id@ == session_id@),
                PtyAccess::NoPty => final(self)@ == old(self)@ && (r matches Err(
                    SshError::PtyNotFound { session_id: id },
                ) && id@ == session_id@),
                PtyAccess::Found => {
                    let pty = old(self)@.ptys[session_id@];
                    &&& final(self)@ == old(self)@.with_pty(session_id@, pty.after_read())
                    &&& pty.closed ==> r == Err::<Vec<u8>, SshError>(SshError::PtyClosed)
                    &&& !pty.closed && pty.output.len() == 0 ==> r is Ok && r->Ok_0@
                        == Seq::<u8>::empty()
                    &&& !pty.closed && pty.output.len() > 0 ==> r is Ok && r->Ok_0@
                        == pty.output[0]
                },
            },
    {
        let (sessions, mut ptys, pending) = self.take_parts();
        let ghost before = ptys@;
        let r = if !sessions.contains_key(session_id) {
            Err(SshError::NoSshSession { session_id: session_id.to_owned() })
        } else {
            match ptys.remove(session_id) {
                None => {
                    assert(ptys@ =~= before);
                    Err(SshError::PtyNotFound { session_id: session_id.to_owned() })
                },
                Some(mut pty) => {
                    let r = pty.read();
                    let _ = ptys.insert(session_id.to_owned(), pty);
                    assert(ptys@ =~= before.insert(session_id@, pty));
                    assert(pty_views(ptys@) =~= pty_views(before).insert(session_id@, pty@));
                    r
                },
            }
        };
        *self = SessionManager { sessions, pty_sessions: ptys, pending_connections: pending };
        r
    }

    /// The next step of the input pump of the terminal of `session_id`, as
    /// the terminal's own `next_input` says. Without a terminal the pump
    /// ends.
    pub fn pump_input(&mut self, session_id: &str) -> (r: InputStep)
        ensures
            !old(self)@.ptys.contains_key(session_id@) ==> r == InputStep::Stop && final(self)@
                == old(self)@,
            old(self)@.ptys.contains_key(session_id@) ==> {
                let pty = old(self)@.ptys[session_id@];
                &&& final(self)@ == old(self)@.with_pty(session_id@, pty.after_input_step())
                &&& pty.closed ==> r == InputStep::Stop
                &&& !pty.closed && pty.input.len() == 0 ==> r == InputStep::Wait
                &&& !pty.closed && pty.input.len() > 0 ==> (r matches InputStep::Deliver { data }
                    && data@ == pty.input[0])
            },
    {
        let (sessions, mut ptys, pending) = self.take_parts();
        let ghost before = ptys@;
        let r = match ptys.remove(session_id) {
            None => {
                assert(ptys@ =~= before);
                InputStep::Stop
            },
            Some(mut pty) => {
                let r = pty.next_input();
                let _ = ptys.insert(session_id.to_owned(), pty);
                assert(ptys@ =~= before.insert(session_id@, pty));
                assert(pty_views(ptys@) =~= pty_views(before).insert(session_id@, pty@));
                r
            },
        };
        *self = SessionManager { sessions, pty_sessions: ptys, pending_connections: pending };
        r
    }

    /// The step of the output pump of the terminal of `session_id` on `ev`,
    /// as the terminal's own `on_channel_event` says. Without a terminal the
    /// pump ends.
    pub fn pump_output(&mut self, session_id: &str, ev: ChannelEvent) -> (r: PumpStep)
        ensures
            !old(self)@.ptys.contains_key(session_id@) ==> r == PumpStep::Stop && final(self)@
                == old(self)@,
            old(self)@.ptys.contains_key(session_id@) ==> {
                let pty = old(self)@.ptys[session_id@];
                &&& final(self)@ == old(self)@.with_pty(session_id@, pty.after_event(ev))
                &&& pty.closed || event_ends(ev) ==> r == PumpStep::Stop
                &&& !pty.closed && !event_ends(ev) && event_bytes(ev) is None ==> r
                    == PumpStep::Continue
                &&& !pty.closed && event_bytes(ev) is Some && pty.output.len() < OUTPUT_CAPACITY
                    ==> r == PumpStep::Continue
                &&& !pty.closed && event_bytes(ev) is Some && pty.output.len() >= OUTPUT_CAPACITY
                    ==> (r matches PumpStep::Full { data } && data@ == event_bytes(ev)->0)
            },
    {
        let (sessions, mut ptys, pending) = self.take_parts();
        let ghost before = ptys@;
        let r = match ptys.remove(session_id) {
            None => {
                assert(ptys@ =~= before);
                PumpStep::Stop
            },
            Some(mut pty) => {
                let r = pty.on_channel_event(ev);
                let _ = ptys.insert(session_id.to_owned(), pty);
                assert(ptys@ =~= before.insert(session_id@, pty));
                assert(pty_views(ptys@) =~= pty_views(before).insert(session_id@, pty@));
                r
            },
        };
        *self = SessionManager { sessions, pty_sessions: ptys, pending_connections: pending };
        r
    }

    /// Records that a pump of the terminal of `session_id` has ended.
    pub fn pump_ended(&mut self, session_id: &str, pump: Pump)
        ensures
            !old(self)@.ptys.contains_key(session_id@) ==> final(self)@ == old(self)@,
            old(self)@.ptys.contains_key(session_id@) ==> final(self)@ == old(self)@.with_pty(
                session_id@,
                old(self)@.ptys[session_id@].after_pump_end(pump),
            ),
    {
        let (sessions, mut ptys, pending) = self.take_parts();
        let ghost before = ptys@;
        match ptys.remove(session_id) {
            None => {
                assert(ptys@ =~= before);
            },
            Some(mut pty) => {
                pty.pump_ended(pump);
                let _ = ptys.insert(session_id.to_owned(), pty);
                assert(ptys@ =~= before.insert(session_id@, pty));
                assert(pty_views(ptys@) =~= pty_views(before).insert(session_id@, pty@));
            },
        }
        *self = SessionManager { sessions, pty_sessions: ptys, pending_connections: pending };
    }
}

/// After a session was closed, it is not found, and its terminal cannot be
/// reached: reading and writing fail as having no session.
pub proof fn law_closed_session_is_gone<C, T>(v: ManagerView<C, T>, id: Seq<char>)
    ensures
        !v.after_close_session(id).sessions.contains_key(id),
        !v.after_close_session(id).ptys.contains_key(id),
        v.after_close_session(id).access(id) is NoSession,
        v.wf() ==> v.after_close_session(id).wf(),
{
}

/// After a terminal was closed, but not its session, reading and writing
/// fail as having no terminal.
pub proof fn law_closed_pty_is_gone<C, T>(v: ManagerView<C, T>, id: Seq<char>)
    requires
        v.sessions.contains_key(id),
    ensures
        v.after_close_pty(id).access(id) is NoPty,
        v.wf() ==> v.after_close_pty(id).wf(),
{
}

/// A connect leaves no handle behind, whatever its outcome; one that was
/// cancelled leaves no session under its identifier either.
pub proof fn law_connect_clears_pending<C, T>(
    v: ManagerView<C, T>,
    id: Seq<char>,
    token: T,
    outcome: ConnectOutcome<C>,
)
    ensures
        v.after_begin_connect(id, token).pending.contains_key(id),
        !v.after_begin_connect(id, token).after_connect(id, outcome).pending.contains_key(id),
        !v.after_begin_connect(id, token).after_cancel(id).pending.contains_key(id),
        outcome is Cancelled ==> !v.after_begin_connect(id, token).after_connect(
            id,
            outcome,
        ).sessions.contains_key(id),
        outcome is Connected ==> v.after_begin_connect(id, token).after_connect(
            id,
            outcome,
        ).sessions[id] == outcome->client,
{
}

/// A terminal of a size outside 1 to 1000 columns and rows is not started:
/// the manager stays as it is, and no terminal is stored.
pub proof fn law_bad_size_stores_nothing<C, T>(
    v: ManagerView<C, T>,
    id: Seq<char>,
    cols: u32,
    rows: u32,
)
    requires
        !valid_size(cols, rows),
    ensures
        v.start_pty_error(id, cols, rows) is Some,
        v.after_start_pty(id, cols, rows) == v,
{
}

/// Under a session, a terminal of a size outside 1 to 1000 columns and
/// rows fails as having a bad size.
pub proof fn law_bad_size_is_reported<C, T>(
    v: ManagerView<C, T>,
    id: Seq<char>,
    cols: u32,
    rows: u32,
)
    requires
        v.sessions.contains_key(id),
        !valid_size(cols, rows),
    ensures
        v.start_pty_error(id, cols, rows) == Some(SshError::BadTerminalSize { cols, rows }),
{
}

/// What the manager holds stays well formed through every request.
pub proof fn law_manager_stays_well_formed<C, T>(
    v: ManagerView<C, T>,
    id: Seq<char>,
    token: T,
    outcome: ConnectOutcome<C>,
    cols: u32,
    rows: u32,
    pty: PtyView,
)
    requires
        v.wf(),
    ensures
        v.after_close_session(id).wf(),
        v.after_begin_connect(id, token).wf(),
        v.after_connect(id, outcome).wf(),
        v.after_cancel(id).wf(),
        v.after_start_pty(id, cols, rows).wf(),
        v.with_pty(id, pty).wf(),
        v.after_close_pty(id).wf(),
{
}

} // verus!