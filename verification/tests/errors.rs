use jacquewm::error::{ComInterfaceId, JacqueError};

#[test]
fn error_messages() {
    assert_eq!(JacqueError::InvalidWorkspaceIndex(12).describe(), "workspace index 12 is out of range (must be 1..=9)");
    assert_eq!(
        JacqueError::from_hresult(-2147467259).describe(),
        "COM call failed on interface Unknown: HRESULT 0x80004005"
    );
    assert_eq!(JacqueError::ExplorerNotReady(Some(30)).describe(), "Explorer.exe was not ready after waiting Some(30) seconds");
    assert_eq!(JacqueError::ExplorerNotReady(None).describe(), "Explorer.exe was not ready after waiting None seconds");
    assert_eq!(
        JacqueError::WindowMove { hwnd: 7, index: 3, reason: "gone".into() }.describe(),
        "failed to move window 7 to desktop index 3: gone"
    );
    assert_eq!(JacqueError::other("plain").describe(), "plain");
    assert_eq!(
        JacqueError::from_hresult(5),
        JacqueError::Com { interface: ComInterfaceId::Unknown, hr: 5 }
    );
}

use jacquewm::logging::{parse_filter, resolve_filter};

#[test]
fn log_filter_resolution_and_parsing() {
    assert_eq!(resolve_filter("", None), "jacquewm=info");
    assert_eq!(resolve_filter("", Some("debug".into())), "debug");
    assert_eq!(resolve_filter("warn", Some("debug".into())), "warn");
    assert!(parse_filter("", None).is_ok());
    assert!(parse_filter("jacquewm=debug", None).is_ok());
    match parse_filter("jacquewm=loud", None) {
        Err(JacqueError::Logging(m)) => {
            assert!(m.starts_with("invalid log filter 'jacquewm=loud': "));
            assert!(m.len() > "invalid log filter 'jacquewm=loud': ".len());
        },
        _ => panic!("an unknown level must not parse"),
    }
}

#[test]
fn directive_with_leading_space_and_non_ascii_is_not_readable() {
    use_readable(" éé=x", false);
    use_readable("éé=x", true);
    use_readable(" jacquewm=info", true);
    use_readable("a=info, éé=x", false);
}

fn use_readable(s: &str, want: bool) {
    assert_eq!(jacquewm::logging::filter_is_readable(s), want, "{s:?}");
}
