use udp_relay::address::SocketAddress;
use udp_relay::error::{Endpoint, RelayError, Stage};
use udp_relay::startup::{SocketOutcome, Startup, StartupAction, StartupPhase};

fn listen() -> SocketAddress {
    SocketAddress::V4 { ip: 0, port: 12345 }
}

fn upstream() -> SocketAddress {
    SocketAddress::V4 { ip: 0x0808_0808, port: 53 }
}

fn begun() -> Startup {
    match Startup::begin(Some(listen()), Some(upstream())) {
        Ok((startup, _)) => startup,
        Err(error) => panic!("well-formed addresses were refused: {:?}", error),
    }
}

#[test]
fn begin_names_the_listener_bind_first() {
    match Startup::begin(Some(listen()), Some(upstream())) {
        Ok((startup, action)) => {
            assert_eq!(action, StartupAction::BindListener { local: listen() });
            assert_eq!(startup.phase(), StartupPhase::BindingListener);
            assert_eq!(startup.upstream(), upstream());
        }
        Err(error) => panic!("well-formed addresses were refused: {:?}", error),
    }
}

#[test]
fn malformed_upstream_address_is_an_address_parse_error() {
    match Startup::begin(Some(listen()), None) {
        Err(error) => assert_eq!(error, RelayError::AddressParse(Endpoint::Upstream)),
        Ok(_) => panic!("a malformed upstream address was accepted"),
    }
}

#[test]
fn malformed_listener_address_is_an_address_parse_error() {
    match Startup::begin(None, Some(upstream())) {
        Err(error) => assert_eq!(error, RelayError::AddressParse(Endpoint::Listener)),
        Ok(_) => panic!("a malformed listener address was accepted"),
    }
}

#[test]
fn listener_address_is_checked_before_the_upstream_address() {
    match Startup::begin(None, None) {
        Err(error) => assert_eq!(error, RelayError::AddressParse(Endpoint::Listener)),
        Ok(_) => panic!("malformed addresses were accepted"),
    }
}

#[test]
fn successful_startup_binds_connects_and_runs() {
    let mut startup = begun();
    assert_eq!(
        startup.step(SocketOutcome::Done),
        Some(StartupAction::BindSender { local: SocketAddress::V4 { ip: 0, port: 0 } })
    );
    assert_eq!(startup.phase(), StartupPhase::BindingSender);
    assert_eq!(
        startup.step(SocketOutcome::Done),
        Some(StartupAction::ConnectSender { peer: upstream() })
    );
    assert_eq!(startup.phase(), StartupPhase::ConnectingSender);
    assert_eq!(startup.step(SocketOutcome::Done), Some(StartupAction::Run));
    assert_eq!(startup.phase(), StartupPhase::Ready);
}

#[test]
fn listener_bind_failure_is_a_fatal_bind_error() {
    let mut startup = begun();
    let error = RelayError::Bind(Endpoint::Listener);
    assert_eq!(startup.step(SocketOutcome::Failed), Some(StartupAction::Abort { error }));
    assert_eq!(startup.phase(), StartupPhase::Failed { error });
}

#[test]
fn failed_startup_never_reaches_the_relay_loop() {
    let mut startup = begun();
    startup.step(SocketOutcome::Failed);
    let failed = startup.phase();
    for _ in 0..4 {
        assert_eq!(startup.step(SocketOutcome::Done), None);
        assert_eq!(startup.step(SocketOutcome::Failed), None);
        assert_eq!(startup.phase(), failed);
    }
}

#[test]
fn sender_bind_failure_is_a_fatal_bind_error() {
    let mut startup = begun();
    startup.step(SocketOutcome::Done);
    let error = RelayError::Bind(Endpoint::Upstream);
    assert_eq!(startup.step(SocketOutcome::Failed), Some(StartupAction::Abort { error }));
    assert_eq!(startup.phase(), StartupPhase::Failed { error });
    assert_eq!(startup.step(SocketOutcome::Done), None);
}

#[test]
fn sender_connect_failure_is_a_fatal_bind_error() {
    let mut startup = begun();
    startup.step(SocketOutcome::Done);
    startup.step(SocketOutcome::Done);
    let error = RelayError::Bind(Endpoint::Upstream);
    assert_eq!(startup.step(SocketOutcome::Failed), Some(StartupAction::Abort { error }));
    assert_eq!(startup.phase(), StartupPhase::Failed { error });
}

#[test]
fn ready_startup_has_nothing_pending() {
    let mut startup = begun();
    startup.step(SocketOutcome::Done);
    startup.step(SocketOutcome::Done);
    startup.step(SocketOutcome::Done);
    assert_eq!(startup.step(SocketOutcome::Done), None);
    assert_eq!(startup.step(SocketOutcome::Failed), None);
    assert_eq!(startup.phase(), StartupPhase::Ready);
}

#[test]
fn upstream_address_may_be_ipv6() {
    let peer = SocketAddress::V6 { ip: 0x2001_4860_4860_0000_0000_0000_0000_8888, port: 53, flowinfo: 0, scope_id: 0 };
    match Startup::begin(Some(listen()), Some(peer)) {
        Ok((mut startup, _)) => {
            startup.step(SocketOutcome::Done);
            assert_eq!(
                startup.step(SocketOutcome::Done),
                Some(StartupAction::ConnectSender { peer })
            );
        }
        Err(error) => panic!("well-formed addresses were refused: {:?}", error),
    }
}

#[test]
fn ephemeral_address_is_all_zero() {
    assert_eq!(SocketAddress::ephemeral(), SocketAddress::V4 { ip: 0, port: 0 });
    assert_eq!(SocketAddress::ephemeral().port(), 0);
}

#[test]
fn port_is_read_from_either_family() {
    assert_eq!(SocketAddress::V4 { ip: 1, port: 53 }.port(), 53);
    assert_eq!(SocketAddress::V6 { ip: 1, port: 5353, flowinfo: 7, scope_id: 9 }.port(), 5353);
}

#[test]
fn startup_errors_are_told_from_running_errors() {
    assert!(RelayError::AddressParse(Endpoint::Upstream).at_startup());
    assert!(RelayError::Bind(Endpoint::Listener).at_startup());
    assert!(!RelayError::Io(Stage::Forward).at_startup());
}

#[test]
fn every_error_names_its_socket() {
    assert_eq!(RelayError::AddressParse(Endpoint::Upstream).endpoint(), Endpoint::Upstream);
    assert_eq!(RelayError::Bind(Endpoint::Listener).endpoint(), Endpoint::Listener);
    assert_eq!(RelayError::Io(Stage::ReceiveRequest).endpoint(), Endpoint::Listener);
    assert_eq!(RelayError::Io(Stage::Forward).endpoint(), Endpoint::Upstream);
    assert_eq!(RelayError::Io(Stage::Reply).endpoint(), Endpoint::Listener);
    assert_eq!(Stage::Forward.endpoint(), Endpoint::Upstream);
}
