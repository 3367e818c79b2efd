use mysql_passwordless_proxy::orchestrator::{Action, Event, HandshakeState, Orchestrator};
use mysql_passwordless_proxy::response::{build_handshake_response, Credentials};
use mysql_passwordless_proxy::error::AuthError;
use mysql_passwordless_proxy::greeting::parse_initial_handshake;

fn reference_greeting() -> Vec<u8> {
    vec![
        74, 0, 0, 0, 10, 56, 46, 48, 46, 51, 51, 0, 11, 0, 0, 0, 1, 2, 3, 4, 5, 6, 7, 8, 0, 255,
        247, 33, 2, 0, 255, 223, 21, 0, 0, 0, 0, 0, 0, 0, 0, 0, 0, 9, 10, 11, 12, 13, 14, 15, 16,
        17, 18, 19, 20, 0, 109, 121, 115, 113, 108, 95, 110, 97, 116, 105, 118, 101, 95, 112, 97,
        115, 115, 119, 111, 114, 100, 0,
    ]
}

fn proxy_credentials() -> Credentials {
    Credentials { username: b"root".to_vec(), password: b"password".to_vec() }
}

#[test]
fn linear_exchange_reaches_relay() {
    let mut o = Orchestrator::new(proxy_credentials());
    assert!(matches!(o.start(), Action::ReadServer));

    // server greeting arrives, padded as a bounded read would return it
    let mut read = reference_greeting();
    read.extend_from_slice(&[0u8; 16]);
    let a = o.step(Event::ServerBytes(read));
    // the greeting is forwarded to the client, trimmed to its frame
    match a {
        Action::WriteClient(v) => assert_eq!(v, reference_greeting()),
        _ => panic!("expected a client write"),
    }
    assert!(matches!(o.state, HandshakeState::ForwardGreetingToClient));

    let a = o.step(Event::WriteDone);
    assert!(matches!(a, Action::ReadClient));

    // the client's own response is discarded; the substituted one goes out
    let a = o.step(Event::ClientBytes(vec![9, 9, 9]));
    let expected = {
        let h = parse_initial_handshake(&reference_greeting()).unwrap();
        build_handshake_response(&h, &proxy_credentials()).unwrap()
    };
    match a {
        Action::WriteServer(v) => assert_eq!(v, expected),
        _ => panic!("expected a server write"),
    }

    let a = o.step(Event::WriteDone);
    assert!(matches!(a, Action::ReadServer));

    // the server's result frame is forwarded to the client unchanged
    let result_frame = vec![7, 0, 0, 2, 0, 0, 0, 2, 0, 0, 0];
    let a = o.step(Event::ServerBytes(result_frame.clone()));
    match a {
        Action::WriteClient(v) => assert_eq!(v, result_frame),
        _ => panic!("expected a client write"),
    }

    let a = o.step(Event::WriteDone);
    assert!(matches!(a, Action::Relay));
    assert!(matches!(o.state, HandshakeState::HandoffToRelay));
    assert!(o.failure.is_none());
}

#[test]
fn io_failure_aborts() {
    let mut o = Orchestrator::new(proxy_credentials());
    let a = o.step(Event::IoFailed);
    assert!(matches!(a, Action::CloseBoth));
    assert!(matches!(o.state, HandshakeState::Aborted));
    assert_eq!(o.failure, Some(AuthError::IoError));
    // terminal: further events change nothing
    let a = o.step(Event::WriteDone);
    assert!(matches!(a, Action::CloseBoth));
    assert!(matches!(o.state, HandshakeState::Aborted));
}

#[test]
fn malformed_greeting_aborts() {
    let mut o = Orchestrator::new(proxy_credentials());
    let a = o.step(Event::ServerBytes(vec![10, 0, 0, 0, 10, 65, 66, 67, 68, 69, 70, 71, 72, 73]));
    assert!(matches!(a, Action::CloseBoth));
    assert!(matches!(o.state, HandshakeState::Aborted));
    assert_eq!(o.failure, Some(AuthError::ParseError));
}

#[test]
fn unsupported_server_aborts() {
    let mut buf = reference_greeting();
    buf[30] = 0xf7; // no plugin-auth capability
    let mut o = Orchestrator::new(proxy_credentials());
    let a = o.step(Event::ServerBytes(buf));
    assert!(matches!(a, Action::CloseBoth));
    assert_eq!(o.failure, Some(AuthError::ProtocolUnsupported));
}

#[test]
fn unexpected_event_aborts() {
    let mut o = Orchestrator::new(proxy_credentials());
    let a = o.step(Event::WriteDone); // nothing was being written
    assert!(matches!(a, Action::CloseBoth));
    assert!(matches!(o.state, HandshakeState::Aborted));
    assert_eq!(o.failure, Some(AuthError::IoError));
}

#[test]
fn truncated_server_result_aborts() {
    let mut o = Orchestrator::new(proxy_credentials());
    o.step(Event::ServerBytes(reference_greeting()));
    o.step(Event::WriteDone);
    o.step(Event::ClientBytes(vec![0]));
    o.step(Event::WriteDone);
    // the result frame declares more payload than was read
    let a = o.step(Event::ServerBytes(vec![9, 0, 0, 2, 1]));
    assert!(matches!(a, Action::CloseBoth));
    assert_eq!(o.failure, Some(AuthError::ParseError));
}
