//! The errors of the library, each with the text that is shown for it.
use vstd::prelude::*;

use crate::text::{decimal, join2, join3, show};

verus! {

/// Errors that reach the top of the program.
#[derive(Debug)]
pub enum AppError {
    Config(ConfigError),
    /// The terminal failed, with the system's message.
    Terminal(String),
    AllDisconnected,
    Auth(AuthError),
    Api(ApiError),
}

/// Errors in reading the configuration.
#[derive(Debug)]
pub enum ConfigError {
    NotFound { path: String },
    /// The text is no TOML, with the parser's message.
    Parse(String),
    MissingField { field: &'static str },
}

/// Errors in signing in and in using the signed-in session.
#[derive(Debug)]
pub enum AuthError {
    OAuthFailed(String),
    DynamiteExchange(String),
    SessionFetch(String),
    RefreshFailed(String),
    MissingField(&'static str),
    Http(String),
    CredentialStorage(String),
}

/// Errors of the event channel.
#[derive(Debug)]
pub enum ChannelError {
    SessionExpired,
    MalformedFrame,
    Http(String),
    /// The frame is no JSON, with the parser's message.
    Json(String),
    /// The connection failed, with the system's message.
    Io(String),
}

/// Errors of a call to the chat service.
#[derive(Debug)]
pub enum ApiError {
    HttpStatus { status: u16, body: String },
    /// The reply is no message of the expected type, with the decoder's message.
    ProtoDecode(String),
    Http(String),
    AuthExpired,
}

/// Errors in converting between pblite and the wire format.
#[derive(Debug)]
pub enum PbliteError {
    ExpectedArray,
    InvalidFieldKey(String),
    UnsupportedWireType(u32),
    UnexpectedType { field: u32, detail: String },
    /// The text is no base64, with the decoder's message.
    Base64(String),
    VarintOverflow,
}

/// The mathematical form of a [`PbliteError`].
pub ghost enum Fault {
    ExpectedArray,
    InvalidFieldKey(Seq<char>),
    UnsupportedWireType(u32),
    UnexpectedType { field: u32, detail: Seq<char> },
    Base64(Seq<char>),
    VarintOverflow,
}

impl View for PbliteError {
    type V = Fault;

    open spec fn view(&self) -> Fault {
        match *self {
            PbliteError::ExpectedArray => Fault::ExpectedArray,
            PbliteError::InvalidFieldKey(k) => Fault::InvalidFieldKey(k@),
            PbliteError::UnsupportedWireType(n) => Fault::UnsupportedWireType(n),
            PbliteError::UnexpectedType { field, detail } => Fault::UnexpectedType {
                field,
                detail: detail@,
            },
            PbliteError::Base64(m) => Fault::Base64(m@),
            PbliteError::VarintOverflow => Fault::VarintOverflow,
        }
    }
}

impl ConfigError {
    pub open spec fn text(self) -> Seq<char> {
        match self {
            ConfigError::NotFound { path } => "config file not found: "@ + path@,
            ConfigError::Parse(m) => "invalid TOML: "@ + m@,
            ConfigError::MissingField { field } => "missing required field: "@ + field@,
        }
    }

    /// The text that is shown for the error.
    pub fn message(&self) -> (r: String)
        ensures
            r@ == self.text(),
    {
        match self {
            ConfigError::NotFound { path } => join2("config file not found: ", path.as_str()),
            ConfigError::Parse(m) => join2("invalid TOML: ", m.as_str()),
            ConfigError::MissingField { field } => join2("missing required field: ", *field),
        }
    }
}

impl AuthError {
    pub open spec fn text(self) -> Seq<char> {
        match self {
            AuthError::OAuthFailed(m) => "OAuth2 flow failed: "@ + m@,
            AuthError::DynamiteExchange(m) => "Dynamite token exchange failed: "@ + m@,
            AuthError::SessionFetch(m) => "session token fetch failed: "@ + m@,
            AuthError::RefreshFailed(m) => "token refresh failed: "@ + m@,
            AuthError::MissingField(m) => "missing field in auth response: "@ + m@,
            AuthError::Http(m) => "HTTP error: "@ + m@,
            AuthError::CredentialStorage(m) => "credential storage error: "@ + m@,
        }
    }

    /// The text that is shown for the error.
    pub fn message(&self) -> (r: String)
        ensures
            r@ == self.text(),
    {
        match self {
            AuthError::OAuthFailed(m) => join2("OAuth2 flow failed: ", m.as_str()),
            AuthError::DynamiteExchange(m) => join2("Dynamite token exchange failed: ", m.as_str()),
            AuthError::SessionFetch(m) => join2("session token fetch failed: ", m.as_str()),
            AuthError::RefreshFailed(m) => join2("token refresh failed: ", m.as_str()),
            AuthError::MissingField(m) => join2("missing field in auth response: ", *m),
            AuthError::Http(m) => join2("HTTP error: ", m.as_str()),
            AuthError::CredentialStorage(m) => join2("credential storage error: ", m.as_str()),
        }
    }
}

/// The result is the failure of a call of the session, with this message.
pub open spec fn fetch_failed<T>(r: Result<T, AuthError>, message: Seq<char>) -> bool {
    r matches Err(AuthError::SessionFetch(m)) && m@ == message
}

/// The result is that a reply lacks this field.
pub open spec fn field_missing<T>(r: Result<T, AuthError>, field: Seq<char>) -> bool {
    r matches Err(AuthError::MissingField(f)) && f@ == field
}

/// The result is a failure of the credential storage, with this message.
pub open spec fn storage_failed<T>(r: Result<T, AuthError>, message: Seq<char>) -> bool {
    r matches Err(AuthError::CredentialStorage(m)) && m@ == message
}

impl ChannelError {
    pub open spec fn text(self) -> Seq<char> {
        match self {
            ChannelError::SessionExpired => "session expired (SID invalid)"@,
            ChannelError::MalformedFrame => "malformed BrowserChannel frame"@,
            ChannelError::Http(m) => "HTTP error: "@ + m@,
            ChannelError::Json(m) => "JSON parse error: "@ + m@,
            ChannelError::Io(m) => "IO error: "@ + m@,
        }
    }

    /// The text that is shown for the error.
    pub fn message(&self) -> (r: String)
        ensures
            r@ == self.text(),
    {
        match self {
            ChannelError::SessionExpired => "session expired (SID invalid)".to_owned(),
            ChannelError::MalformedFrame => "malformed BrowserChannel frame".to_owned(),
            ChannelError::Http(m) => join2("HTTP error: ", m.as_str()),
            ChannelError::Json(m) => join2("JSON parse error: ", m.as_str()),
            ChannelError::Io(m) => join2("IO error: ", m.as_str()),
        }
    }
}

impl ApiError {
    pub open spec fn text(self) -> Seq<char> {
        match self {
            ApiError::HttpStatus { status, body } => "HTTP "@ + decimal(status as nat) + ": "@
                + body@,
            ApiError::ProtoDecode(m) => "protobuf decode error: "@ + m@,
            ApiError::Http(m) => "HTTP error: "@ + m@,
            ApiError::AuthExpired => "authentication expired"@,
        }
    }

    /// The text that is shown for the error.
    pub fn message(&self) -> (r: String)
        ensures
            r@ == self.text(),
    {
        match self {
            ApiError::HttpStatus { status, body } => {
                let n = show(*status as u64);
                let head = join3("HTTP ", n.as_str(), ": ");
                join2(head.as_str(), body.as_str())
            },
            ApiError::ProtoDecode(m) => join2("protobuf decode error: ", m.as_str()),
            ApiError::Http(m) => join2("HTTP error: ", m.as_str()),
            ApiError::AuthExpired => "authentication expired".to_owned(),
        }
    }

    /// True of the errors after which the user has to sign in again.
    pub fn is_auth_expired(&self) -> (r: bool)
        ensures
            r == (*self is AuthExpired || (*self matches ApiError::HttpStatus { status, .. }
                && status == 401)),
    {
        match self {
            ApiError::AuthExpired => true,
            ApiError::HttpStatus { status, .. } => *status == 401,
            _ => false,
        }
    }
}

impl AppError {
    pub open spec fn text(self) -> Seq<char> {
        match self {
            AppError::Config(e) => "configuration error: "@ + e.text(),
            AppError::Terminal(m) => "terminal error: "@ + m@,
            AppError::AllDisconnected => "all platforms disconnected"@,
            AppError::Auth(e) => "authentication: "@ + e.text(),
            AppError::Api(e) => "api: "@ + e.text(),
        }
    }

    /// The text that is shown for the error.
    pub fn message(&self) -> (r: String)
        ensures
            r@ == self.text(),
    {
        match self {
            AppError::Config(e) => join2("configuration error: ", e.message().as_str()),
            AppError::Terminal(m) => join2("terminal error: ", m.as_str()),
            AppError::AllDisconnected => "all platforms disconnected".to_owned(),
            AppError::Auth(e) => join2("authentication: ", e.message().as_str()),
            AppError::Api(e) => join2("api: ", e.message().as_str()),
        }
    }
}

impl Fault {
    pub open spec fn text(self) -> Seq<char> {
        match self {
            Fault::ExpectedArray => "expected JSON array"@,
            Fault::InvalidFieldKey(k) => "invalid field key in sparse map: "@ + k,
            Fault::UnsupportedWireType(n) => "unsupported wire type: "@ + decimal(n as nat),
            Fault::UnexpectedType { field, detail } => "unexpected JSON type at field "@ + decimal(
                field as nat,
            ) + ": "@ + detail,
            Fault::Base64(m) => "base64 decode error: "@ + m,
            Fault::VarintOverflow => "varint overflow"@,
        }
    }
}

impl PbliteError {
    /// The text that is shown for the error.
    pub fn message(&self) -> (r: String)
        ensures
            r@ == self@.text(),
    {
        match self {
            PbliteError::ExpectedArray => "expected JSON array".to_owned(),
            PbliteError::InvalidFieldKey(k) => join2(
                "invalid field key in sparse map: ",
                k.as_str(),
            ),
            PbliteError::UnsupportedWireType(n) => join2(
                "unsupported wire type: ",
                show(*n as u64).as_str(),
            ),
            PbliteError::UnexpectedType { field, detail } => {
                let n = show(*field as u64);
                let head = join3("unexpected JSON type at field ", n.as_str(), ": ");
                join2(head.as_str(), detail.as_str())
            },
            PbliteError::Base64(m) => join2("base64 decode error: ", m.as_str()),
            PbliteError::VarintOverflow => "varint overflow".to_owned(),
        }
    }
}

} // verus!
