use wstd::io::IoErrorKind;
use wstd::net::{connect_target, family_of, to_io_err, AddressFamily, ConnectAttempts, NetErrorCode, SocketAddr};

#[test]
fn socket_errors_map_to_io_kinds() {
    assert_eq!(to_io_err(NetErrorCode::AccessDenied).kind, IoErrorKind::PermissionDenied);
    assert_eq!(to_io_err(NetErrorCode::Timeout).kind, IoErrorKind::TimedOut);
    assert_eq!(to_io_err(NetErrorCode::ConcurrencyConflict).kind, IoErrorKind::AlreadyExists);
    assert_eq!(to_io_err(NetErrorCode::NameUnresolvable).kind, IoErrorKind::Other);
}

#[test]
fn families_and_targets() {
    let v4 = SocketAddr::V4 { address: (127, 0, 0, 1), port: 8080 };
    let v6 = SocketAddr::V6 { address: (0, 0, 0, 0, 0, 0, 0, 1), port: 80, flow_info: 0, scope_id: 0 };
    assert_eq!(family_of(&v4), AddressFamily::Ipv4);
    assert_eq!(family_of(&v6), AddressFamily::Ipv6);
    assert!(matches!(connect_target(v4), Ok(SocketAddr::V4 { port: 8080, .. })));
    assert_eq!(connect_target(v6).unwrap_err().kind, IoErrorKind::Unsupported);
}

#[test]
fn connect_reports_last_error() {
    let mut a = ConnectAttempts::new();
    a.failed(to_io_err(NetErrorCode::ConnectionRefused));
    a.failed(to_io_err(NetErrorCode::Timeout));
    assert_eq!(a.into_error().kind, IoErrorKind::TimedOut);
    let none = ConnectAttempts::new().into_error();
    assert_eq!(none.kind, IoErrorKind::InvalidInput);
    assert_eq!(none.message.as_deref(), Some("could not resolve to any address"));
}
