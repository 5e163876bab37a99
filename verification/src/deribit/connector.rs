//! The Deribit connector: its configuration, credentials, and the decisions of its
//! `public/auth` handshake.
use super::channel::{DeribitChannel, DeribitInterval};
use crate::error::{SocketError, SubKind};
use vstd::prelude::*;

verus! {

/// API credentials for Deribit authentication (needed for raw feeds).
#[derive(Clone, PartialEq, Eq)]
pub struct DeribitCredentials {
    pub client_id: String,
    pub client_secret: String,
}

/// The text `format!("{:?}", s)` writes for a string: quoted, with escapes.
pub uninterp spec fn str_debug_text(s: Seq<char>) -> Seq<char>;

/// `format!("{:?}", s)` of a `str`: the quoted and escaped text.
#[verifier::external_body]
fn debug_quoted(s: &str) -> (r: String)
    ensures
        r@ == str_debug_text(s@),
{
    format!("{:?}", s)
}

/// The debug text of credentials: the client id shown, the secret masked.
pub open spec fn credentials_debug_text(client_id: Seq<char>) -> Seq<char> {
    "DeribitCredentials { client_id: "@ + str_debug_text(client_id) + ", client_secret: \"<masked>\" }"@
}

/// Law: the debug text of credentials depends on the client id alone, so two
/// credentials differing only in their secret show the same text.
pub proof fn law_debug_text_hides_secret(a: DeribitCredentials, b: DeribitCredentials)
    requires
        a.client_id@ == b.client_id@,
    ensures
        credentials_debug_text(a.client_id@) == credentials_debug_text(b.client_id@),
{
}

impl DeribitCredentials {
    /// Credentials of the given client id and secret.
    pub fn new(client_id: &str, client_secret: &str) -> (r: Self)
        ensures
            r.client_id@ == client_id@,
            r.client_secret@ == client_secret@,
    {
        DeribitCredentials { client_id: String::from_str(client_id), client_secret: String::from_str(client_secret) }
    }

    /// The debug text of the credentials, which never shows the secret.
    pub fn debug_text(&self) -> (r: String)
        ensures
            r@ == credentials_debug_text(self.client_id@),
    {
        let mut r = String::from_str("DeribitCredentials { client_id: ");
        let id = debug_quoted(self.client_id.as_str());
        r.append(id.as_str());
        r.append(", client_secret: \"<masked>\" }");
        r
    }
}

/// The Deribit connector: the interval its subscriptions use by default, and the
/// credentials it authenticates with, if any.
#[derive(Clone, PartialEq, Eq)]
pub struct Deribit {
    pub default_interval: DeribitInterval,
    pub credentials: Option<DeribitCredentials>,
}

/// The former name of the authenticated Deribit connector.
pub type DeribitAuth = Deribit;

impl Deribit {
    /// The channel a subscription of `kind` identifies, at the connector's default
    /// interval: trades for public trades, the ticker for L1 books, the book for L2
    /// books; none for the kinds Deribit does not stream.
    pub fn channel(&self, kind: SubKind) -> (r: Option<DeribitChannel>)
        ensures
            match kind {
                SubKind::PublicTrades => r matches Some(c) && c.spec_base() == "trades"@,
                SubKind::OrderBooksL1 => r matches Some(c) && c.spec_base() == "ticker"@,
                SubKind::OrderBooksL2 => r matches Some(c) && c.spec_base() == "book"@,
                _ => r is None,
            },
            r matches Some(c) ==> c.spec_interval() == self.default_interval,
    {
        match kind {
            SubKind::PublicTrades => Some(DeribitChannel::trades(self.default_interval)),
            SubKind::OrderBooksL1 => Some(DeribitChannel::ticker(self.default_interval)),
            SubKind::OrderBooksL2 => Some(DeribitChannel::book(self.default_interval)),
            _ => None,
        }
    }

    /// The public connector: 100 ms interval, no credentials.
    pub fn default() -> (r: Self)
        ensures
            r.default_interval == DeribitInterval::HundredMs,
            r.credentials is None,
    {
        Deribit { default_interval: DeribitInterval::default(), credentials: None }
    }

    /// A connector with the given interval and no credentials.
    pub fn with_interval(interval: DeribitInterval) -> (r: Self)
        ensures
            r.default_interval == interval,
            r.credentials is None,
    {
        Deribit { default_interval: interval, credentials: None }
    }

    /// A connector for raw feeds: raw interval, with the credentials.
    pub fn raw(credentials: DeribitCredentials) -> (r: Self)
        ensures
            r.default_interval == DeribitInterval::Raw,
            r.credentials == Some(credentials),
    {
        Deribit { default_interval: DeribitInterval::Raw, credentials: Some(credentials) }
    }

    /// This connector with the given credentials.
    pub fn with_credentials(self, credentials: DeribitCredentials) -> (r: Self)
        ensures
            r.default_interval == self.default_interval,
            r.credentials == Some(credentials),
    {
        let mut s = self;
        s.credentials = Some(credentials);
        s
    }

    /// This connector with the given default interval.
    pub fn with_default_interval(self, interval: DeribitInterval) -> (r: Self)
        ensures
            r.default_interval == interval,
            r.credentials == self.credentials,
    {
        let mut s = self;
        s.default_interval = interval;
        s
    }

    /// An authenticated raw-feed connector of the given client id and secret.
    pub fn new(client_id: &str, client_secret: &str) -> (r: Self)
        ensures
            r.default_interval == DeribitInterval::Raw,
            r.credentials matches Some(c) && c.client_id@ == client_id@ && c.client_secret@ == client_secret@,
    {
        Deribit::raw(DeribitCredentials::new(client_id, client_secret))
    }

    /// As `new`: a custom URL is not supported and `url` is ignored.
    pub fn with_url(client_id: &str, client_secret: &str, url: &str) -> (r: Self)
        ensures
            r.default_interval == DeribitInterval::Raw,
            r.credentials matches Some(c) && c.client_id@ == client_id@ && c.client_secret@ == client_secret@,
    {
        let _ = url;
        Deribit::raw(DeribitCredentials::new(client_id, client_secret))
    }

    /// A copy of the connector.
    pub fn copy(&self) -> (r: Self)
        ensures
            r == *self,
    {
        Deribit { default_interval: self.default_interval, credentials: self.auth_request() }
    }

    /// The name the connector displays: "Deribit".
    pub fn display_text(&self) -> (r: &'static str)
        ensures
            r@ == "Deribit"@,
    {
        "Deribit"
    }

    /// The `public/auth` request the connector sends before subscribing: its
    /// credentials, or `None` (no authentication) where it has none.
    pub fn auth_request(&self) -> (r: Option<DeribitCredentials>)
        ensures
            r == self.credentials,
    {
        match &self.credentials {
            Some(c) => Some(DeribitCredentials { client_id: c.client_id.clone(), client_secret: c.client_secret.clone() }),
            None => None,
        }
    }
}

/// How authentication begins: done at once, with nothing sent, for a connector
/// without credentials; else by sending `public/auth` with the credentials.
#[derive(Clone, PartialEq)]
pub enum AuthStart {
    /// Authentication is done: nothing is sent and the connection proceeds.
    Done,
    /// The `public/auth` request with these credentials is sent, and its reply awaited.
    Send(DeribitCredentials),
}

impl Deribit {
    /// How authentication begins for this connector (see `AuthStart`).
    pub fn auth_start(&self) -> (r: AuthStart)
        ensures
            match self.credentials {
                None => r == AuthStart::Done,
                Some(c) => r == AuthStart::Send(c),
            },
    {
        match self.auth_request() {
            Some(c) => AuthStart::Send(c),
            None => AuthStart::Done,
        }
    }
}

/// A frame received while awaiting the authentication reply.
#[derive(Clone, Debug, PartialEq)]
pub enum AuthFrame {
    Text(String),
    Binary(Vec<u8>),
    /// A ping, pong, close or raw frame.
    Other,
    /// The stream ended.
    Ended,
    /// The socket failed, with its error's text.
    Failed(String),
}

/// What to do with a frame received while awaiting the authentication reply.
#[derive(Clone, Debug, PartialEq)]
pub enum AuthFrameStep {
    /// The frame is the reply, whose text follows.
    Reply(String),
    /// Ignore the frame and await the next.
    Skip,
    /// Authentication fails.
    Fail(SocketError),
}

/// Whether a byte sequence is valid UTF-8, and the text it decodes to.
pub open spec fn utf8_text_or_empty(bytes: Seq<u8>) -> Seq<char> {
    if vstd::utf8::valid_utf8(bytes) {
        vstd::utf8::decode_utf8(bytes)
    } else {
        Seq::empty()
    }
}

/// `String::from_utf8(bytes).unwrap_or_default()`: the decoded text, or the empty
/// text where the bytes are not valid UTF-8.
#[verifier::external_body]
fn utf8_or_empty(bytes: Vec<u8>) -> (r: String)
    ensures
        r@ == utf8_text_or_empty(bytes@),
{
    String::from_utf8(bytes).unwrap_or_default()
}

/// The message of authentication cut short by the end of the stream.
pub open spec fn auth_ended_msg() -> Seq<char> {
    "WebSocket stream terminated during auth"@
}

/// What a frame received while awaiting the authentication reply leads to: a text
/// frame is the reply; a binary frame is the reply as UTF-8 (empty if invalid);
/// other frames are skipped; the end of the stream or a socket error fails.
pub fn auth_frame_step(frame: AuthFrame) -> (r: AuthFrameStep)
    ensures
        match frame {
            AuthFrame::Text(t) => r == AuthFrameStep::Reply(t),
            AuthFrame::Binary(b) => r matches AuthFrameStep::Reply(t) && t@ == utf8_text_or_empty(b@),
            AuthFrame::Other => r == AuthFrameStep::Skip,
            AuthFrame::Ended => r matches AuthFrameStep::Fail(SocketError::Subscribe(m)) && m@ == auth_ended_msg(),
            AuthFrame::Failed(e) => r == AuthFrameStep::Fail(SocketError::WebSocket(e)),
        },
{
    match frame {
        AuthFrame::Text(t) => AuthFrameStep::Reply(t),
        AuthFrame::Binary(b) => AuthFrameStep::Reply(utf8_or_empty(b)),
        AuthFrame::Other => AuthFrameStep::Skip,
        AuthFrame::Ended => AuthFrameStep::Fail(
            SocketError::Subscribe(String::from_str("WebSocket stream terminated during auth")),
        ),
        AuthFrame::Failed(e) => AuthFrameStep::Fail(SocketError::WebSocket(e)),
    }
}

/// The message of a refused authentication, with the reply's error in JSON.
pub open spec fn auth_failed_msg(error: Seq<char>) -> Seq<char> {
    "Deribit authentication failed: "@ + error
}

/// The outcome of authentication from the reply text and what reading it as JSON
/// gave: the JSON error (`Err`) fails as a deserialisation error carrying the
/// reply; a non-null `error` field (its JSON text given) fails as refused; else
/// authentication succeeds.
pub fn auth_verdict(reply: String, parsed: Result<Option<String>, String>) -> (r: Result<(), SocketError>)
    ensures
        match parsed {
            Err(e) => r == Err::<(), SocketError>(SocketError::Deserialise { error: e, payload: reply }),
            Ok(Some(err)) => r matches Err(SocketError::Subscribe(m)) && m@ == auth_failed_msg(err@),
            Ok(None) => r is Ok,
        },
{
    match parsed {
        Err(e) => Err(SocketError::Deserialise { error: e, payload: reply }),
        Ok(Some(err)) => {
            let mut m = String::from_str("Deribit authentication failed: ");
            m.append(err.as_str());
            Err(SocketError::Subscribe(m))
        },
        Ok(None) => Ok(()),
    }
}

/// What `serde_json` makes of a reply text: the parse error's text where it is
/// not JSON; else the JSON text of its `"error"` member, `None` where that member
/// is null or absent (or the reply is no object).
pub uninterp spec fn json_error_member(text: Seq<char>) -> Result<Option<Seq<char>>, Seq<char>>;

/// The texts of a parse outcome.
pub open spec fn parsed_texts(p: Result<Option<String>, String>) -> Result<Option<Seq<char>>, Seq<char>> {
    match p {
        Ok(Some(s)) => Ok(Some(s@)),
        Ok(None) => Ok(None),
        Err(e) => Err(e@),
    }
}

/// Reads a reply with `serde_json::from_str` into a `serde_json::Value` and takes
/// its `"error"` member (indexing a `Value`), written out with `to_string` unless null.
#[verifier::external_body]
fn reply_error_member(text: &str) -> (r: Result<Option<String>, String>)
    ensures
        parsed_texts(r) == json_error_member(text@),
{
    match serde_json::from_str::<serde_json::Value>(text) {
        Ok(json) => match &json["error"] {
            serde_json::Value::Null => Ok(None),
            error => Ok(Some(error.to_string())),
        },
        Err(error) => Err(error.to_string()),
    }
}

/// The outcome of authentication from its reply (see `auth_verdict`), read as JSON.
pub fn check_auth_reply(reply: String) -> (r: Result<(), SocketError>)
    ensures
        match json_error_member(reply@) {
            Err(e) => r matches Err(SocketError::Deserialise { error, payload }) && error@ == e && payload@ == reply@,
            Ok(Some(err)) => r matches Err(SocketError::Subscribe(m)) && m@ == auth_failed_msg(err),
            Ok(None) => r is Ok,
        },
{
    let parsed = reply_error_member(reply.as_str());
    auth_verdict(reply, parsed)
}

} // verus!
