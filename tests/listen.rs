use dyndnsd::config::{IpAddress, Listen};
use dyndnsd::listen::{listen_plan, ListenError, ListenPlan};

fn tcp() -> Listen {
    Listen {
        ip: IpAddress::V6(1),
        port: 8080,
    }
}

#[test]
fn configured_address_alone_listens_on_tcp() {
    assert_eq!(listen_plan(Some(tcp()), 0), Ok(ListenPlan::Tcp(tcp())));
}

#[test]
fn configured_address_and_socket_conflict() {
    assert_eq!(listen_plan(Some(tcp()), 1), Err(ListenError::Conflicting));
    assert_eq!(listen_plan(Some(tcp()), 3), Err(ListenError::Conflicting));
}

#[test]
fn one_inherited_socket_is_used() {
    assert_eq!(listen_plan(None, 1), Ok(ListenPlan::InheritedSocket));
}

#[test]
fn no_address_and_no_socket() {
    assert_eq!(listen_plan(None, 0), Err(ListenError::Nowhere));
}

#[test]
fn several_inherited_sockets() {
    assert_eq!(listen_plan(None, 2), Err(ListenError::TooManySockets));
}
