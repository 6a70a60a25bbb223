//! The ways in which a request can fail.

use vstd::prelude::*;
use crate::number::{decimal, push_decimal};
use crate::text::{chars_to_string, push_text};

verus! {

/// A stage of setting up an interactive channel.
#[derive(Clone, Copy, Debug, PartialEq, Eq, Structural)]
pub enum SetupStage {
    OpenChannel,
    RequestPty,
    StartShell,
}

/// Why a request failed.
#[derive(Clone, Debug, PartialEq, Eq)]
pub enum SshError {
    /// A pending connect was cancelled.
    Cancelled,
    /// The server refused the credentials.
    AuthFailed,
    /// No file at the path of the private key.
    KeyNotFound { path: String },
    /// The private key is encrypted and the passphrase is missing or wrong.
    KeyDecrypt,
    /// The private key could not be read for another reason.
    KeyInvalid { path: String, detail: String },
    /// The transport failed.
    TransportError { detail: String },
    /// The client holds no transport.
    NotConnected,
    /// No session under the identifier.
    SessionNotFound,
    /// The session that a terminal belongs to is gone.
    NoSshSession { session_id: String },
    /// The terminal is closed.
    PtyClosed,
    /// No terminal under the identifier.
    PtyNotFound { session_id: String },
    /// A terminal size outside 1 to 1000 columns and rows.
    BadTerminalSize { cols: u32, rows: u32 },
    /// More input than one write may carry.
    PayloadTooLarge { len: usize },
    /// The input queue stayed full.
    WriteTimeout,
    /// A stage of the channel setup took too long.
    ChannelSetupTimeout { stage: SetupStage },
    /// A command ended with a status other than success.
    CommandFailed { code: Option<u32> },
    /// A local port could not be bound.
    BindFailed { port: u16, detail: String },
    /// A malformed frame.
    ProtocolError { detail: String },
}

/// The text of an error.
pub open spec fn message_text(e: SshError) -> Seq<char> {
    match e {
        SshError::Cancelled => "Connection cancelled by user"@,
        SshError::AuthFailed => "Authentication failed. Please check your credentials and try again."@,
        SshError::KeyNotFound { path } => "SSH key file not found: "@ + path@
            + ". Please check the file path and try again."@,
        SshError::KeyDecrypt => "Failed to decrypt SSH key. The key may be encrypted. Please provide the correct passphrase."@,
        SshError::KeyInvalid { path, detail } => "Failed to load SSH key from "@ + path@ + ": "@
            + detail@
            + ". Ensure the file is a valid SSH private key (RSA, Ed25519, or ECDSA)."@,
        SshError::TransportError { detail } => detail@,
        SshError::NotConnected => "Not connected"@,
        SshError::SessionNotFound => "Session not found"@,
        SshError::NoSshSession { session_id } => "SSH session not found: "@ + session_id@,
        SshError::PtyClosed => "PTY session is closed"@,
        SshError::PtyNotFound { session_id } => "PTY session not found: "@ + session_id@,
        SshError::BadTerminalSize { cols, rows } => "Invalid terminal size: "@ + decimal(
            cols as nat,
        ) + "x"@ + decimal(rows as nat) + ". Must be between 1-1000"@,
        SshError::PayloadTooLarge { len } => "Data too large: "@ + decimal(len as nat)
            + " bytes (max 1MB)"@,
        SshError::WriteTimeout => "Write timeout: input buffer full"@,
        SshError::ChannelSetupTimeout { stage } => match stage {
            SetupStage::OpenChannel => "Timeout opening SSH channel"@,
            SetupStage::RequestPty => "Timeout requesting PTY"@,
            SetupStage::StartShell => "Timeout starting shell"@,
        },
        SshError::CommandFailed { code } => match code {
            Some(c) => "Command failed with code: Some("@ + decimal(c as nat) + ")"@,
            None => "Command failed with code: None"@,
        },
        SshError::BindFailed { port, detail } => "Failed to bind to local port "@ + decimal(
            port as nat,
        ) + ": "@ + detail@,
        SshError::ProtocolError { detail } => detail@,
    }
}

impl SshError {
    /// The text of the error, as it is shown to the user.
    pub fn message(&self) -> (r: String)
        ensures
            r@ == message_text(*self),
    {
        let mut out: Vec<char> = Vec::new();
        match self {
            SshError::Cancelled => {
                push_text(&mut out, "Connection cancelled by user");
            },
            SshError::AuthFailed => {
                push_text(
                    &mut out,
                    "Authentication failed. Please check your credentials and try again.",
                );
            },
            SshError::KeyNotFound { path } => {
                push_text(&mut out, "SSH key file not found: ");
                push_text(&mut out, path.as_str());
                push_text(&mut out, ". Please check the file path and try again.");
            },
            SshError::KeyDecrypt => {
                push_text(
                    &mut out,
                    "Failed to decrypt SSH key. The key may be encrypted. Please provide the correct passphrase.",
                );
            },
            SshError::KeyInvalid { path, detail } => {
                push_text(&mut out, "Failed to load SSH key from ");
                push_text(&mut out, path.as_str());
                push_text(&mut out, ": ");
                push_text(&mut out, detail.as_str());
                push_text(
                    &mut out,
                    ". Ensure the file is a valid SSH private key (RSA, Ed25519, or ECDSA).",
                );
            },
            SshError::TransportError { detail } => {
                push_text(&mut out, detail.as_str());
            },
            SshError::NotConnected => {
                push_text(&mut out, "Not connected");
            },
            SshError::SessionNotFound => {
                push_text(&mut out, "Session not found");
            },
            SshError::NoSshSession { session_id } => {
                push_text(&mut out, "SSH session not found: ");
                push_text(&mut out, session_id.as_str());
            },
            SshError::PtyClosed => {
                push_text(&mut out, "PTY session is closed");
            },
            SshError::PtyNotFound { session_id } => {
                push_text(&mut out, "PTY session not found: ");
                push_text(&mut out, session_id.as_str());
            },
            SshError::BadTerminalSize { cols, rows } => {
                push_text(&mut out, "Invalid terminal size: ");
                push_decimal(&mut out, *cols as u64);
                push_text(&mut out, "x");
                push_decimal(&mut out, *rows as u64);
                push_text(&mut out, ". Must be between 1-1000");
            },
            SshError::PayloadTooLarge { len } => {
                push_text(&mut out, "Data too large: ");
                push_decimal(&mut out, *len as u64);
                push_text(&mut out, " bytes (max 1MB)");
            },
            SshError::WriteTimeout => {
                push_text(&mut out, "Write timeout: input buffer full");
            },
            SshError::ChannelSetupTimeout { stage } => {
                match stage {
                    SetupStage::OpenChannel => push_text(&mut out, "Timeout opening SSH channel"),
                    SetupStage::RequestPty => push_text(&mut out, "Timeout requesting PTY"),
                    SetupStage::StartShell => push_text(&mut out, "Timeout starting shell"),
                }
            },
            SshError::CommandFailed { code } => {
                match code {
                    Some(c) => {
                        push_text(&mut out, "Command failed with code: Some(");
                        push_decimal(&mut out, *c as u64);
                        push_text(&mut out, ")");
                    },
                    None => push_text(&mut out, "Command failed with code: None"),
                }
            },
            SshError::BindFailed { port, detail } => {
                push_text(&mut out, "Failed to bind to local port ");
                push_decimal(&mut out, *port as u64);
                push_text(&mut out, ": ");
                push_text(&mut out, detail.as_str());
            },
            SshError::ProtocolError { detail } => {
                push_text(&mut out, detail.as_str());
            },
        }
        chars_to_string(&out)
    }
}

} // verus!
