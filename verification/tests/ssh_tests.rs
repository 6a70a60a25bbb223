use ssh_gateway::error::SshError;
use ssh_gateway::pty_session::ChannelEvent;
use ssh_gateway::ssh::{
    bind_address, bind_error, check_auth, execute_result, expand_key_path, forward_count,
    key_load_error, key_missing_error, next_chunk, plan_auth, relay_step, AuthMethod, AuthPlan,
    AuthReply, Download, ExecState, ForwardPort, RelayStep, SshClient, SshConfig, SshSession,
    CHUNK_SIZE,
};

const TEST_HOST: &str = "localhost";
const TEST_USERNAME: &str = "testuser";
const TEST_PASSWORD: &str = "testpass";
const TEST_PORT: u16 = 22;

fn create_test_config() -> SshConfig {
    SshConfig {
        host: TEST_HOST.to_string(),
        port: TEST_PORT,
        username: TEST_USERNAME.to_string(),
        auth_method: AuthMethod::Password { password: TEST_PASSWORD.to_string() },
        forward_ports: None,
    }
}

#[test]
fn test_ssh_config_creation() {
    let config = create_test_config();
    assert_eq!(config.host, "localhost");
    assert_eq!(config.port, 22);
    assert_eq!(config.username, "testuser");
}

#[test]
fn a_session_holds_its_config() {
    let session = SshSession { id: "s".to_string(), config: create_test_config(), connected: true };
    assert_eq!(session.clone(), session);
    assert!(session.connected);
}

#[test]
fn a_leading_tilde_is_the_home_directory() {
    assert_eq!(expand_key_path("~/.ssh/id_ed25519", Some("/home/u")), "/home/u/.ssh/id_ed25519");
    assert_eq!(expand_key_path("~/", Some("/root")), "/root/");
    assert_eq!(expand_key_path("~/.ssh/id_rsa", None), "~/.ssh/id_rsa");
    assert_eq!(expand_key_path("~other/key", Some("/home/u")), "~other/key");
    assert_eq!(expand_key_path("~", Some("/home/u")), "~");
    assert_eq!(expand_key_path("/etc/key", Some("/home/u")), "/etc/key");
    assert_eq!(expand_key_path("dir/~/key", Some("/home/u")), "dir/~/key");
    assert_eq!(expand_key_path("", Some("/home/u")), "");
    assert_eq!(expand_key_path("~/a/~/b", Some("/h")), "/h/a/~/b");
}

#[test]
fn key_errors_tell_encryption_from_the_rest() {
    for detail in [
        "The key is encrypted",
        "wrong passphrase",
        "could not decrypt",
        "xxdecryptxx",
    ] {
        assert_eq!(key_load_error("~/k", detail), SshError::KeyDecrypt, "{}", detail);
    }
    for detail in ["invalid format", "", "Encrypted", "PASSPHRASE"] {
        assert_eq!(
            key_load_error("~/k", detail),
            SshError::KeyInvalid { path: "~/k".to_string(), detail: detail.to_string() }
        );
    }
    assert_eq!(key_missing_error("~/k"), SshError::KeyNotFound { path: "~/k".to_string() });
}

#[test]
fn authentication_is_planned_from_the_config() {
    let mut config = create_test_config();
    assert_eq!(
        plan_auth(&config, Some("/home/u")),
        AuthPlan::Password { username: "testuser".to_string(), password: "testpass".to_string() }
    );
    config.auth_method = AuthMethod::PublicKey {
        key_path: "~/.ssh/id_rsa".to_string(),
        passphrase: Some("secret".to_string()),
    };
    assert_eq!(
        plan_auth(&config, Some("/home/u")),
        AuthPlan::PublicKey {
            username: "testuser".to_string(),
            key_path: "~/.ssh/id_rsa".to_string(),
            key_file: "/home/u/.ssh/id_rsa".to_string(),
            passphrase: Some("secret".to_string()),
        }
    );
    config.auth_method = AuthMethod::PublicKey { key_path: "/k".to_string(), passphrase: None };
    assert_eq!(
        plan_auth(&config, None),
        AuthPlan::PublicKey {
            username: "testuser".to_string(),
            key_path: "/k".to_string(),
            key_file: "/k".to_string(),
            passphrase: None,
        }
    );
}

#[test]
fn a_refused_authentication_is_an_error() {
    assert_eq!(check_auth(AuthReply::Success), Ok(()));
    assert_eq!(check_auth(AuthReply::Failure), Err(SshError::AuthFailed));
    assert!(SshError::AuthFailed.message().contains("Authentication failed"));
}

#[test]
fn forwarded_ports_bind_to_the_loopback() {
    let forward = ForwardPort { local_port: 8080, remote_host: "db".to_string(), remote_port: 5432 };
    assert_eq!(bind_address(&forward), "127.0.0.1:8080");
    assert_eq!(
        bind_error(&forward, "in use"),
        SshError::BindFailed { port: 8080, detail: "in use".to_string() }
    );
    let mut config = create_test_config();
    assert_eq!(forward_count(&config), 0);
    config.forward_ports = Some(Vec::new());
    assert_eq!(forward_count(&config), 0);
    config.forward_ports = Some(vec![forward.clone(), forward]);
    assert_eq!(forward_count(&config), 2);
    let low = ForwardPort { local_port: 0, remote_host: String::new(), remote_port: 0 };
    assert_eq!(bind_address(&low), "127.0.0.1:0");
    let high = ForwardPort { local_port: 65535, remote_host: String::new(), remote_port: 0 };
    assert_eq!(bind_address(&high), "127.0.0.1:65535");
}

#[test]
fn a_client_hands_out_everything_on_disconnect() {
    let mut client: SshClient<&str, u32> = SshClient::new();
    assert!(!client.is_connected());
    assert_eq!(client.session(), Err(SshError::NotConnected));
    client.attach("transport");
    client.add_forwarder(1);
    client.add_forwarder(2);
    assert!(client.is_connected());
    assert_eq!(client.session(), Ok(&"transport"));
    assert_eq!(client.forwarder_count(), 2);
    let first = client.disconnect();
    assert_eq!(first.session, Some("transport"));
    assert_eq!(first.forwarders, vec![1, 2]);
    assert!(!client.is_connected());
    assert_eq!(client.forwarder_count(), 0);
    let second = client.disconnect();
    assert_eq!(second.session, None);
    assert!(second.forwarders.is_empty());
    assert!(!client.is_connected());
}

fn data(bytes: &[u8]) -> ChannelEvent {
    ChannelEvent::Data { data: bytes.to_vec() }
}

#[test]
fn a_command_with_status_zero_gives_its_output() {
    let events = vec![data(b"hel"), data(b"lo\n"), ChannelEvent::Eof, ChannelEvent::ExitStatus { code: 0 }];
    assert_eq!(execute_result(&events), Ok("hello\n".to_string()));
    let events = vec![ChannelEvent::ExitStatus { code: 0 }, data(b"late"), ChannelEvent::Eof];
    assert_eq!(execute_result(&events), Ok("late".to_string()));
    let events = vec![ChannelEvent::ExitStatus { code: 0 }, ChannelEvent::Eof];
    assert_eq!(execute_result(&events), Ok(String::new()));
}

#[test]
fn a_command_with_another_status_fails() {
    let events = vec![data(b"boom"), ChannelEvent::ExitStatus { code: 2 }, ChannelEvent::Eof];
    assert_eq!(execute_result(&events), Err(SshError::CommandFailed { code: Some(2) }));
    assert_eq!(
        SshError::CommandFailed { code: Some(2) }.message(),
        "Command failed with code: Some(2)"
    );
}

#[test]
fn a_command_without_status_succeeds_with_output_only() {
    assert_eq!(execute_result(&vec![data(b"x"), ChannelEvent::Close]), Ok("x".to_string()));
    assert_eq!(execute_result(&vec![data(b"x"), ChannelEvent::Gone]), Ok("x".to_string()));
    assert_eq!(
        execute_result(&vec![ChannelEvent::Close]),
        Err(SshError::CommandFailed { code: None })
    );
    assert_eq!(execute_result(&Vec::new()), Err(SshError::CommandFailed { code: None }));
    assert_eq!(SshError::CommandFailed { code: None }.message(), "Command failed with code: None");
}

#[test]
fn what_follows_the_end_of_a_run_is_not_looked_at() {
    let events = vec![
        data(b"a"),
        ChannelEvent::Eof,
        ChannelEvent::ExitStatus { code: 0 },
        data(b"b"),
        ChannelEvent::ExitStatus { code: 9 },
    ];
    assert_eq!(execute_result(&events), Ok("a".to_string()));
    let events = vec![data(b"a"), ChannelEvent::Close, ChannelEvent::ExitStatus { code: 1 }];
    assert_eq!(execute_result(&events), Ok("a".to_string()));
}

#[test]
fn other_streams_are_not_output() {
    let events = vec![
        ChannelEvent::ExtendedData { data: b"warning".to_vec() },
        ChannelEvent::Other,
        ChannelEvent::Idle,
        data(b"out"),
        ChannelEvent::Eof,
        ChannelEvent::ExitStatus { code: 0 },
    ];
    assert_eq!(execute_result(&events), Ok("out".to_string()));
}

#[test]
fn output_that_is_not_utf8_is_read_with_replacements() {
    let events = vec![data(&[b'a', 0xff, b'b']), ChannelEvent::Close];
    assert_eq!(execute_result(&events), Ok("a\u{fffd}b".to_string()));
    let events = vec![data("h\u{e9}".as_bytes()), ChannelEvent::Close];
    assert_eq!(execute_result(&events), Ok("h\u{e9}".to_string()));
}

#[test]
fn a_run_is_done_after_both_eof_and_status() {
    let mut run = ExecState::new();
    assert!(!run.on_event(&data(b"x")));
    assert!(!run.on_event(&ChannelEvent::Eof));
    assert!(run.on_event(&ChannelEvent::ExitStatus { code: 0 }));
    assert!(run.on_event(&data(b"y")));
    assert_eq!(run.finish(), Ok("x".to_string()));
    let mut run = ExecState::new();
    assert!(!run.on_event(&ChannelEvent::ExitStatus { code: 1 }));
    assert!(run.on_event(&ChannelEvent::Eof));
    assert_eq!(run.finish(), Err(SshError::CommandFailed { code: Some(1) }));
}

#[test]
fn a_forwarded_connection_relays_both_streams() {
    assert_eq!(relay_step(data(b"x")), RelayStep::Write { data: b"x".to_vec() });
    assert_eq!(
        relay_step(ChannelEvent::ExtendedData { data: b"e".to_vec() }),
        RelayStep::Write { data: b"e".to_vec() }
    );
    assert_eq!(relay_step(ChannelEvent::Eof), RelayStep::Stop);
    assert_eq!(relay_step(ChannelEvent::Close), RelayStep::Stop);
    assert_eq!(relay_step(ChannelEvent::Gone), RelayStep::Stop);
    assert_eq!(relay_step(ChannelEvent::ExitStatus { code: 0 }), RelayStep::Skip);
    assert_eq!(relay_step(ChannelEvent::Idle), RelayStep::Skip);
    assert_eq!(relay_step(ChannelEvent::Other), RelayStep::Skip);
}

#[test]
fn a_file_is_cut_into_chunks_of_8192_bytes() {
    assert_eq!(CHUNK_SIZE, 8192);
    assert_eq!(next_chunk(0, 0), None);
    assert_eq!(next_chunk(1, 0), Some((0, 1)));
    assert_eq!(next_chunk(8192, 0), Some((0, 8192)));
    assert_eq!(next_chunk(8193, 0), Some((0, 8192)));
    assert_eq!(next_chunk(8193, 8192), Some((8192, 8193)));
    assert_eq!(next_chunk(8193, 8193), None);
    assert_eq!(next_chunk(10, 11), None);
    assert_eq!(next_chunk(usize::MAX, usize::MAX - 1), Some((usize::MAX - 1, usize::MAX)));
}

#[test]
fn what_is_uploaded_in_chunks_is_downloaded_whole() {
    for len in [0usize, 1, 8191, 8192, 8193, 20_000, 65_536] {
        let data: Vec<u8> = (0..len).map(|i| (i * 31 % 251) as u8).collect();
        let mut remote: Vec<u8> = Vec::new();
        let mut offset = 0;
        let mut writes = 0;
        while let Some((from, to)) = next_chunk(data.len(), offset) {
            assert_eq!(from, offset);
            assert!(to > from && to - from <= 8192);
            remote.extend_from_slice(&data[from..to]);
            offset = to;
            writes += 1;
        }
        assert_eq!(writes, (len + 8191) / 8192);
        assert_eq!(remote, data);
        let mut download = Download::new();
        let mut at = 0;
        loop {
            let n = std::cmp::min(8192, remote.len() - at);
            let more = download.on_read(&remote[at..at + n]);
            at += n;
            if !more {
                break;
            }
        }
        assert_eq!(download.total_bytes(), len);
        assert_eq!(download.finish(), data);
    }
}
