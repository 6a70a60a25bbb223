use ssh_gateway::commands::files::{
    copy_file_command, create_directory_command, delete_file_command, download_response,
    downloads_to_memory, kill_process_command, list_files_command, list_log_files_command,
    read_file_content_command, rename_file_command, tail_log_command, transfer_response,
    uploads_from_memory,
};
use ssh_gateway::commands::{
    cancel_response, command_response, connect_config, connect_response, disconnect_response,
    execute_response, CommandResponse, ConnectRequest, FileTransferRequest, FileTransferResponse,
    RequestError, TailLogRequest,
};
use ssh_gateway::error::{SetupStage, SshError};
use ssh_gateway::ssh::{AuthMethod, ForwardPort, SshConfig};

fn request(method: &str) -> ConnectRequest {
    ConnectRequest {
        session_id: "s".to_string(),
        host: "127.0.0.1".to_string(),
        port: 22,
        username: "u".to_string(),
        auth_method: method.to_string(),
        password: Some("p".to_string()),
        key_path: Some("~/.ssh/id_rsa".to_string()),
        passphrase: Some("pp".to_string()),
        forward_ports: Some(vec![ForwardPort {
            local_port: 8080,
            remote_host: "db".to_string(),
            remote_port: 5432,
        }]),
    }
}

#[test]
fn a_request_to_connect_names_its_authentication() {
    let config = connect_config(request("password")).expect("a password");
    assert_eq!(
        config,
        SshConfig {
            host: "127.0.0.1".to_string(),
            port: 22,
            username: "u".to_string(),
            auth_method: AuthMethod::Password { password: "p".to_string() },
            forward_ports: request("password").forward_ports,
        }
    );
    let config = connect_config(request("publickey")).expect("a key");
    assert_eq!(
        config.auth_method,
        AuthMethod::PublicKey {
            key_path: "~/.ssh/id_rsa".to_string(),
            passphrase: Some("pp".to_string()),
        }
    );
}

#[test]
fn a_request_to_connect_must_come_with_what_it_needs() {
    let mut r = request("password");
    r.password = None;
    assert_eq!(connect_config(r), Err(RequestError::PasswordRequired));
    let mut r = request("publickey");
    r.key_path = None;
    assert_eq!(connect_config(r), Err(RequestError::KeyPathRequired));
    for method in ["", "Password", "public-key", "none", "password "] {
        assert_eq!(connect_config(request(method)), Err(RequestError::InvalidAuthMethod));
    }
    assert_eq!(RequestError::PasswordRequired.message(), "Password required");
    assert_eq!(RequestError::KeyPathRequired.message(), "Key path required");
    assert_eq!(RequestError::InvalidAuthMethod.message(), "Invalid auth method");
    let mut r = request("publickey");
    r.passphrase = None;
    r.password = None;
    assert!(connect_config(r).is_ok());
}

#[test]
fn the_answers_to_connect_cancel_and_disconnect() {
    assert_eq!(
        connect_response("s1", Ok(())),
        CommandResponse { success: true, output: Some("Connected: s1".to_string()), error: None }
    );
    let cancelled = connect_response("s1", Err(SshError::Cancelled));
    assert!(!cancelled.success);
    assert!(cancelled.error.expect("an error").contains("cancel"));
    let refused = connect_response("s1", Err(SshError::AuthFailed));
    assert!(refused.error.expect("an error").contains("Authentication"));
    assert_eq!(
        cancel_response(true),
        CommandResponse {
            success: true,
            output: Some("Connection cancelled".to_string()),
            error: None,
        }
    );
    assert_eq!(
        cancel_response(false),
        CommandResponse {
            success: false,
            output: None,
            error: Some("No pending connection to cancel".to_string()),
        }
    );
    assert_eq!(
        disconnect_response(Ok(())),
        CommandResponse { success: true, output: Some("Disconnected".to_string()), error: None }
    );
    assert_eq!(
        disconnect_response(Err(SshError::TransportError { detail: "gone".to_string() })),
        CommandResponse { success: false, output: None, error: Some("gone".to_string()) }
    );
}

#[test]
fn connect_then_echo() {
    let r = execute_response("echo hello", Ok("hello\n".to_string()));
    assert!(r.success);
    assert!(r.output.expect("output").contains("hello"));
    assert_eq!(r.error, None);
    assert_eq!(
        command_response(Ok("x".to_string())),
        CommandResponse { success: true, output: Some("x".to_string()), error: None }
    );
    assert_eq!(
        command_response(Err(SshError::NotConnected)),
        CommandResponse { success: false, output: None, error: Some("Not connected".to_string()) }
    );
}

#[test]
fn a_failed_interactive_command_gets_a_note() {
    let r = execute_response("vim notes.txt", Err(SshError::CommandFailed { code: Some(1) }));
    assert!(!r.success);
    assert_eq!(r.output, None);
    assert_eq!(
        r.error,
        Some(
            "Command failed with code: Some(1)\n\nNote: Interactive commands like 'vim' may not work in this terminal. Try using batch mode alternatives."
                .to_string()
        )
    );
    let r = execute_response("ls /nope", Err(SshError::CommandFailed { code: Some(2) }));
    assert_eq!(r.error, Some("Command failed with code: Some(2)".to_string()));
    let r = execute_response("  top", Err(SshError::NotConnected));
    assert!(r.error.expect("an error").contains("like 'top'"));
}

#[test]
fn the_commands_for_files() {
    assert_eq!(list_files_command("/var/log"), "ls -la --time-style=long-iso '/var/log'");
    assert_eq!(create_directory_command("/tmp/a b"), "mkdir -p '/tmp/a b'");
    assert_eq!(delete_file_command("/tmp/x", false), "rm -f '/tmp/x'");
    assert_eq!(delete_file_command("/tmp/x", true), "rm -rf '/tmp/x'");
    assert_eq!(rename_file_command("/a", "/b"), "mv '/a' '/b'");
    assert_eq!(read_file_content_command("/etc/hosts"), "cat '/etc/hosts'");
    assert_eq!(copy_file_command("/a", "/b c"), "cp -r '/a' '/b c'");
    assert_eq!(list_files_command(""), "ls -la --time-style=long-iso ''");
    assert_eq!(
        create_directory_command("/tmp/dir"),
        create_directory_command("/tmp/dir"),
    );
    assert!(create_directory_command("/tmp/dir").starts_with("mkdir -p "));
}

#[test]
fn the_commands_for_processes_and_logs() {
    assert_eq!(kill_process_command("1234", None), "kill -15 1234");
    assert_eq!(kill_process_command("1234", Some("9")), "kill -9 1234");
    assert_eq!(kill_process_command("1", Some("KILL")), "kill -KILL 1");
    assert_eq!(tail_log_command("/var/log/syslog", None), "tail -n 50 '/var/log/syslog'");
    assert_eq!(tail_log_command("/var/log/syslog", Some(200)), "tail -n 200 '/var/log/syslog'");
    assert_eq!(tail_log_command("x", Some(0)), "tail -n 0 'x'");
    assert_eq!(tail_log_command("x", Some(u32::MAX)), "tail -n 4294967295 'x'");
    assert_eq!(
        list_log_files_command(),
        "find /var/log -type f -name '*.log' 2>/dev/null | head -50"
    );
    let request = TailLogRequest {
        session_id: "s".to_string(),
        log_path: "/var/log/auth.log".to_string(),
        lines: None,
    };
    assert_eq!(
        tail_log_command(&request.log_path, request.lines),
        "tail -n 50 '/var/log/auth.log'"
    );
}

#[test]
fn the_answers_to_transfers() {
    assert_eq!(
        transfer_response(Ok(42)),
        FileTransferResponse {
            success: true,
            bytes_transferred: Some(42),
            data: None,
            error: None,
        }
    );
    assert_eq!(
        transfer_response(Err(SshError::NotConnected)),
        FileTransferResponse {
            success: false,
            bytes_transferred: None,
            data: None,
            error: Some("Not connected".to_string()),
        }
    );
    assert_eq!(
        download_response(Ok(b"abc".to_vec())),
        FileTransferResponse {
            success: true,
            bytes_transferred: Some(3),
            data: Some(b"abc".to_vec()),
            error: None,
        }
    );
    assert_eq!(download_response(Ok(Vec::new())).bytes_transferred, Some(0));
    assert!(!download_response(Err(SshError::NotConnected)).success);
}

#[test]
fn where_a_transfer_takes_its_bytes() {
    let mut request = FileTransferRequest {
        session_id: "s".to_string(),
        local_path: String::new(),
        remote_path: "/r".to_string(),
        data: None,
    };
    assert!(downloads_to_memory(&request));
    assert!(!uploads_from_memory(&request));
    request.local_path = "/tmp/l".to_string();
    request.data = Some(Vec::new());
    assert!(!downloads_to_memory(&request));
    assert!(uploads_from_memory(&request));
}

#[test]
fn every_error_has_its_words() {
    let cases: Vec<(SshError, &str)> = vec![
        (SshError::Cancelled, "Connection cancelled by user"),
        (
            SshError::AuthFailed,
            "Authentication failed. Please check your credentials and try again.",
        ),
        (
            SshError::KeyNotFound { path: "~/k".to_string() },
            "SSH key file not found: ~/k. Please check the file path and try again.",
        ),
        (
            SshError::KeyDecrypt,
            "Failed to decrypt SSH key. The key may be encrypted. Please provide the correct passphrase.",
        ),
        (
            SshError::KeyInvalid { path: "~/k".to_string(), detail: "bad".to_string() },
            "Failed to load SSH key from ~/k: bad. Ensure the file is a valid SSH private key (RSA, Ed25519, or ECDSA).",
        ),
        (SshError::TransportError { detail: "reset".to_string() }, "reset"),
        (SshError::NotConnected, "Not connected"),
        (SshError::SessionNotFound, "Session not found"),
        (SshError::NoSshSession { session_id: "s".to_string() }, "SSH session not found: s"),
        (SshError::PtyClosed, "PTY session is closed"),
        (SshError::PtyNotFound { session_id: "s".to_string() }, "PTY session not found: s"),
        (
            SshError::BadTerminalSize { cols: 0, rows: 1001 },
            "Invalid terminal size: 0x1001. Must be between 1-1000",
        ),
        (SshError::PayloadTooLarge { len: 1_000_001 }, "Data too large: 1000001 bytes (max 1MB)"),
        (SshError::WriteTimeout, "Write timeout: input buffer full"),
        (
            SshError::ChannelSetupTimeout { stage: SetupStage::OpenChannel },
            "Timeout opening SSH channel",
        ),
        (SshError::ChannelSetupTimeout { stage: SetupStage::RequestPty }, "Timeout requesting PTY"),
        (SshError::ChannelSetupTimeout { stage: SetupStage::StartShell }, "Timeout starting shell"),
        (SshError::CommandFailed { code: Some(127) }, "Command failed with code: Some(127)"),
        (SshError::CommandFailed { code: None }, "Command failed with code: None"),
        (
            SshError::BindFailed { port: 8080, detail: "in use".to_string() },
            "Failed to bind to local port 8080: in use",
        ),
        (SshError::ProtocolError { detail: "short frame".to_string() }, "short frame"),
    ];
    for (error, words) in cases {
        assert_eq!(error.message(), words);
    }
}
