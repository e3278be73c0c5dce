//! A webhook relay: a public server captures inbound HTTP requests into
//! envelopes and fans them out over WebSocket sessions to clients that replay
//! them against a local origin.
//!
//! This crate holds the relay's logic: the envelope and its wire encoding,
//! request capture, the fan-out bus, the credential guard, URL handling, the
//! decisions of the client connector and of the server's per-session loop,
//! and the naming rules of the profile and history stores.

pub mod auth;
pub mod codec;
pub mod connector;
pub mod endpoint;
pub mod envelope;
pub mod fanout;
pub mod forward;
pub mod history;
pub mod profiles;
pub mod session;
pub mod text;

pub use auth::{basic_auth_validator, upgrade_status, AuthError};
pub use codec::{decode_message, encode_message, DecodeError};
pub use endpoint::{forward_url, prepare_local_url, prepare_remote_url, Endpoint, UrlError};
pub use connector::{
    authorization_header, Connector, ConnectorAction, ConnectorEvent, ConnectorState,
};
pub use envelope::{capture, CaptureError, HttpVersion, RequestMessage, Version};
pub use fanout::{Delivery, FanOut};
pub use forward::{forward_request, ForwardRequest};
pub use history::{item_id, Db, History};
pub use profiles::{Profile, ProfileError, Profiles};
pub use session::{delivery_event, session_step, SessionAction, SessionEvent};

