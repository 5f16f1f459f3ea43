//! Client-side protocol of a push-notification hub: connection strings,
//! shared-access-signature tokens, request envelopes and response rules.

pub mod connection_string;
pub mod http;
pub mod notification_hub_client;
pub mod sas_token_provider;
pub mod text;

pub use http::{Header, HttpMethod, HttpRequest};
pub use notification_hub_client::{
    FromConnectionStringError, Installation, InstallationPatch, InstallationPathResponse,
    InstallationTemplate, NotificationHubClient, NotificationRequest, NotificationRequestError,
    NotificationResponse,
};
pub use sas_token_provider::{GenerateSasTokenError, SasTokenProvider};
