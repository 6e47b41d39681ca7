use tchat::config::{credential_name, PlatformKind};
use tchat::error::{ApiError, AppError, AuthError, ChannelError, ConfigError, PbliteError};
use tchat::event::{InboundEvent, OutboundCommand};
use tchat::types::PlatformId;

#[test]
fn app_error_display() {
    let e = AppError::Config(ConfigError::NotFound {
        path: "/tmp/cfg".into(),
    });
    assert!(e.message().contains("configuration error"));
    assert!(e.message().contains("/tmp/cfg"));

    let e = AppError::Terminal(std::io::Error::other("boom").to_string());
    assert!(e.message().contains("terminal error"));
    assert!(e.message().contains("boom"));

    let e = AppError::AllDisconnected;
    assert!(e.message().contains("all platforms disconnected"));
}

#[test]
fn config_error_display() {
    let e = ConfigError::NotFound {
        path: "/etc/app.toml".into(),
    };
    assert!(e.message().contains("config file not found"));
    assert!(e.message().contains("/etc/app.toml"));

    let e = ConfigError::MissingField { field: "token" };
    assert!(e.message().contains("missing required field"));
    assert!(e.message().contains("token"));
}

#[test]
fn config_error_from_toml() {
    let bad = "not valid [[[ toml";
    let toml_err = toml::from_str::<toml::Value>(bad).unwrap_err();
    let e = ConfigError::Parse(toml_err.to_string());
    assert!(e.message().contains("invalid TOML"));
}

#[test]
fn auth_error_display() {
    let cases: Vec<(AuthError, &str)> = vec![
        (
            AuthError::OAuthFailed("timeout".into()),
            "OAuth2 flow failed",
        ),
        (
            AuthError::DynamiteExchange("bad".into()),
            "Dynamite token exchange failed",
        ),
        (
            AuthError::SessionFetch("nope".into()),
            "session token fetch failed",
        ),
        (
            AuthError::RefreshFailed("expired".into()),
            "token refresh failed",
        ),
        (
            AuthError::MissingField("id_token"),
            "missing field in auth response",
        ),
        (AuthError::Http("502".into()), "HTTP error"),
        (
            AuthError::CredentialStorage("locked".into()),
            "credential storage error",
        ),
    ];
    for (e, expected) in cases {
        let msg = e.message();
        assert!(msg.contains(expected), "expected {expected:?} in {msg:?}");
    }
}

#[test]
fn channel_error_display_and_from_impls() {
    let e = ChannelError::SessionExpired;
    assert!(e.message().contains("session expired"));

    let e = ChannelError::MalformedFrame;
    assert!(e.message().contains("malformed BrowserChannel frame"));

    let e = ChannelError::Http("503".into());
    assert!(e.message().contains("HTTP error"));

    // From<serde_json::Error>
    let json_err = serde_json::from_str::<serde_json::Value>("not json").unwrap_err();
    let e = ChannelError::Json(json_err.to_string());
    assert!(e.message().contains("JSON parse error"));

    // From<std::io::Error>
    let io_err = std::io::Error::new(std::io::ErrorKind::BrokenPipe, "pipe");
    let e = ChannelError::Io(io_err.to_string());
    assert!(e.message().contains("IO error"));
}

#[test]
fn api_error_display_and_is_auth_expired() {
    let e = ApiError::HttpStatus {
        status: 404,
        body: "not found".into(),
    };
    assert!(e.message().contains("HTTP 404"));
    assert!(e.message().contains("not found"));
    assert!(!e.is_auth_expired());

    let e = ApiError::Http("conn refused".into());
    assert!(e.message().contains("HTTP error"));
    assert!(!e.is_auth_expired());

    let e = ApiError::AuthExpired;
    assert!(e.message().contains("authentication expired"));
    assert!(e.is_auth_expired());

    // 401 should also be treated as auth expired
    let e = ApiError::HttpStatus {
        status: 401,
        body: "unauthorized".into(),
    };
    assert!(e.is_auth_expired());
}

#[test]
fn api_error_from_prost() {
    let prost_err = prost::DecodeError::new("truncated");
    let e = ApiError::ProtoDecode(prost_err.to_string());
    assert!(e.message().contains("protobuf decode error"));
}

#[test]
fn pblite_error_display() {
    let cases: Vec<(PbliteError, &str)> = vec![
        (PbliteError::ExpectedArray, "expected JSON array"),
        (
            PbliteError::InvalidFieldKey("abc".into()),
            "invalid field key",
        ),
        (
            PbliteError::UnsupportedWireType(7),
            "unsupported wire type: 7",
        ),
        (
            PbliteError::UnexpectedType {
                field: 3,
                detail: "got string".into(),
            },
            "unexpected JSON type at field 3",
        ),
        (PbliteError::VarintOverflow, "varint overflow"),
    ];
    for (e, expected) in cases {
        let msg = e.message();
        assert!(msg.contains(expected), "expected {expected:?} in {msg:?}");
    }
}

#[test]
fn pblite_error_from_base64() {
    let b64_err = base64::DecodeError::InvalidByte(0, b'!');
    let e = PbliteError::Base64(b64_err.to_string());
    assert!(e.message().contains("base64 decode error"));
}

#[test]
fn app_error_from_config_error() {
    let ce = ConfigError::MissingField { field: "key" };
    let ae = AppError::Config(ce);
    assert!(ae.message().contains("configuration error"));
}

#[test]
fn app_error_from_io_error() {
    let io = std::io::Error::new(std::io::ErrorKind::NotFound, "gone");
    let ae = AppError::Terminal(io.to_string());
    assert!(ae.message().contains("terminal error"));
}

#[test]
fn credential_path_sanitizes_key() {
    let filename = credential_name("googlechat_cookies:user@example.com");
    assert!(!filename.contains(':'));
    assert!(!filename.contains('@'));
    assert!(filename.contains("googlechat_cookies_user_example_com"));
}

#[test]
fn platform_kind_maps_to_platform_id() {
    assert_eq!(PlatformKind::GoogleChat.id(), PlatformId::GoogleChat);
    assert_eq!(PlatformKind::Slack.id(), PlatformId::Slack);
}

#[test]
fn inbound_event_is_send() {
    fn assert_send<T: Send>() {}
    assert_send::<InboundEvent>();
}

#[test]
fn outbound_command_is_send() {
    fn assert_send<T: Send>() {}
    assert_send::<OutboundCommand>();
}

#[test]
fn api_error_auth_detection() {
    assert!(ApiError::AuthExpired.is_auth_expired());
    assert!(ApiError::HttpStatus {
        status: 401,
        body: "unauthorized".into()
    }
    .is_auth_expired());
    assert!(!ApiError::HttpStatus {
        status: 500,
        body: "error".into()
    }
    .is_auth_expired());
}
