//! The hub client: credentials from a connection string, the request each
//! operation sends and the rule by which its response is read.

use crate::connection_string::{
    connection_text, field_of, find_field, is_arrangement, lemma_one_key_per_segment,
    lemma_three_segments,
};
use crate::http::{
    all_headers_allowed, copy_headers, distinct_names, find_header, header_value,
    header_value_allowed, header_views, headers_allowed, is_header_value,
    lemma_with_header_appends, lemma_with_header_is_an_update, lemma_with_header_replaces,
    push_header, with_header, Header, HeaderView, HttpMethod, HttpRequest, HttpRequestView,
};
use crate::sas_token_provider::{GenerateSasTokenError, SasTokenProvider};
use crate::text::{
    decimal_text, join_text, joined, replace_all, replaced, signed_decimal, slices, split,
    split_text, texts,
};
use std::collections::HashMap;
use vstd::prelude::*;

verus! {

/// Why a connection string was not accepted.
#[non_exhaustive]
#[derive(Debug, Clone, Copy, PartialEq, Eq)]
pub enum FromConnectionStringError {
    /// The string does not have exactly three segments.
    InvalidError,
    /// No segment gives the endpoint.
    FailedToGetHostname,
    /// No segment gives the name of the shared access key.
    FailedToGetSharedAccessKey,
    /// No segment gives the shared access key.
    FailedToGetPrimaryKey,
    /// A token could not be produced.
    GenerateSasTokenError(GenerateSasTokenError),
}

/// Why an operation did not yield a result.
#[non_exhaustive]
#[derive(Debug, Clone, Copy, PartialEq, Eq)]
pub enum NotificationRequestError {
    /// The service answered with a status other than the one expected.
    InvalidHttpResponse(u16),
    /// A token could not be produced.
    GenerateSasTokenError(GenerateSasTokenError),
    /// A header name or value cannot be sent.
    InvalidHeader,
}

impl FromConnectionStringError {
    /// The text that describes the error.
    pub open spec fn message_text(self) -> Seq<char> {
        match self {
            FromConnectionStringError::InvalidError => "Given connection string is invalid"@,
            FromConnectionStringError::FailedToGetHostname =>
                "Failed to get the hostname from the given connection string"@,
            FromConnectionStringError::FailedToGetSharedAccessKey =>
                "Failed to get the shared access key name from the given connection string"@,
            FromConnectionStringError::FailedToGetPrimaryKey =>
                "Failed to get the primary key from the given connection string"@,
            FromConnectionStringError::GenerateSasTokenError(e) => "Generate SAS token error: "@
                + e.message_text(),
        }
    }

    /// The message that describes the error.
    pub fn message(&self) -> (r: String)
        ensures
            r@ == self.message_text(),
    {
        match self {
            FromConnectionStringError::InvalidError => "Given connection string is invalid".to_owned(),
            FromConnectionStringError::FailedToGetHostname =>
                "Failed to get the hostname from the given connection string".to_owned(),
            FromConnectionStringError::FailedToGetSharedAccessKey =>
                "Failed to get the shared access key name from the given connection string".to_owned(),
            FromConnectionStringError::FailedToGetPrimaryKey =>
                "Failed to get the primary key from the given connection string".to_owned(),
            FromConnectionStringError::GenerateSasTokenError(e) => {
                let mut text = "Generate SAS token error: ".to_owned();
                text.append(e.message().as_str());
                text
            },
        }
    }
}

impl NotificationRequestError {
    /// The text that describes the error.
    pub open spec fn message_text(self) -> Seq<char> {
        match self {
            NotificationRequestError::InvalidHttpResponse(status) =>
                "Unsuccessful HTTP status code: "@ + signed_decimal(status as int),
            NotificationRequestError::GenerateSasTokenError(e) => "Generate SAS token error: "@
                + e.message_text(),
            NotificationRequestError::InvalidHeader => "Invalid header name or value"@,
        }
    }

    /// The message that describes the error.
    pub fn message(&self) -> (r: String)
        ensures
            r@ == self.message_text(),
    {
        match self {
            NotificationRequestError::InvalidHttpResponse(status) => {
                let mut text = "Unsuccessful HTTP status code: ".to_owned();
                text.append(decimal_text(*status as i128).as_str());
                text
            },
            NotificationRequestError::GenerateSasTokenError(e) => {
                let mut text = "Generate SAS token error: ".to_owned();
                text.append(e.message().as_str());
                text
            },
            NotificationRequestError::InvalidHeader => "Invalid header name or value".to_owned(),
        }
    }
}

/// A push payload with the platform headers the caller wants sent with it.
/// No two entries of `headers` should carry the same name.
#[derive(Debug, Clone)]
pub struct NotificationRequest {
    pub headers: Vec<Header>,
    pub message: String,
    pub content_type: String,
    pub platform: String,
}

/// A notification request as plain texts.
pub struct NotificationRequestView {
    pub headers: Seq<HeaderView>,
    pub message: Seq<char>,
    pub content_type: Seq<char>,
    pub platform: Seq<char>,
}

impl View for NotificationRequest {
    type V = NotificationRequestView;

    open spec fn view(&self) -> NotificationRequestView {
        NotificationRequestView {
            headers: header_views(self.headers@),
            message: self.message@,
            content_type: self.content_type@,
            platform: self.platform@,
        }
    }
}

/// What the service reports of an accepted notification.
#[derive(Debug, Clone)]
pub struct NotificationResponse {
    pub tracking_id: String,
    pub correlation_id: String,
}

/// The credentials and the hub that every request is made for.
pub struct NotificationHubClient {
    pub hub_name: String,
    pub host_name: String,
    pub token_provider: SasTokenProvider,
    pub api_version: String,
}

/// A client as plain texts: the hub, the endpoint, the key and the API
/// version.
pub struct NotificationHubClientView {
    pub hub_name: Seq<char>,
    pub host_name: Seq<char>,
    pub sas_key_name: Seq<char>,
    pub sas_key_value: Seq<char>,
    pub api_version: Seq<char>,
}

impl View for NotificationHubClient {
    type V = NotificationHubClientView;

    open spec fn view(&self) -> NotificationHubClientView {
        NotificationHubClientView {
            hub_name: self.hub_name@,
            host_name: self.host_name@,
            sas_key_name: self.token_provider.sas_key_name@,
            sas_key_value: self.token_provider.sas_key_value@,
            api_version: self.api_version@,
        }
    }
}

/// A device or user binding as the service stores it.
pub struct Installation {
    pub installation_id: String,
    pub user_id: String,
    pub last_active_on: String,
    pub expiration_time: String,
    pub last_update: String,
    pub platform: String,
    pub push_channel: String,
    pub expired_push_channel: bool,
    pub tags: Vec<String>,
    pub templates: HashMap<String, InstallationTemplate>,
}

/// A named message template of an installation.
pub struct InstallationTemplate {
    pub body: String,
    pub headers: HashMap<String, String>,
    pub tags: Vec<String>,
}

/// One step of a partial update of an installation.
pub struct InstallationPatch {
    pub op: String,
    pub path: String,
    pub value: String,
}

/// Where the service says a written installation can be found.
pub struct InstallationPathResponse {
    pub content_location: String,
}

/// What a connection string yields for a hub: a client, or the first of the
/// four failures that applies.
pub open spec fn connection_outcome(connection_string: Seq<char>, hub_name: Seq<char>) -> Result<
    NotificationHubClientView,
    FromConnectionStringError,
> {
    let segments = split(connection_string, ';');
    if segments.len() != 3 {
        Err(FromConnectionStringError::InvalidError)
    } else if field_of(segments, "Endpoint="@) is None {
        Err(FromConnectionStringError::FailedToGetHostname)
    } else if field_of(segments, "SharedAccessKeyName="@) is None {
        Err(FromConnectionStringError::FailedToGetSharedAccessKey)
    } else if field_of(segments, "SharedAccessKey="@) is None {
        Err(FromConnectionStringError::FailedToGetPrimaryKey)
    } else {
        Ok(
            NotificationHubClientView {
                hub_name: hub_name,
                host_name: field_of(segments, "Endpoint="@).unwrap(),
                sas_key_name: field_of(segments, "SharedAccessKeyName="@).unwrap(),
                sas_key_value: field_of(segments, "SharedAccessKey="@).unwrap(),
                api_version: "2017-04"@,
            },
        )
    }
}

impl NotificationHubClient {
    /// Reads the endpoint, the key name and the key from a connection string
    /// of exactly three `;`-separated segments, in any order.
    pub fn from_connection_string(connection_string: &str, hub_name: &str) -> (r: Result<
        NotificationHubClient,
        FromConnectionStringError,
    >)
        ensures
            match r {
                Ok(client) => connection_outcome(connection_string@, hub_name@) == Ok::<
                    NotificationHubClientView,
                    FromConnectionStringError,
                >(client@),
                Err(e) => connection_outcome(connection_string@, hub_name@) == Err::<
                    NotificationHubClientView,
                    FromConnectionStringError,
                >(e),
            },
            split(connection_string@, ';').len() != 3 <==> r matches Err(
                FromConnectionStringError::InvalidError,
            ),
    {
        let segments = split_text(connection_string, ';');
        if segments.len() != 3 {
            return Err(FromConnectionStringError::InvalidError);
        }
        let host_name = match find_field(&segments, "Endpoint=") {
            Some(v) => v,
            None => {
                return Err(FromConnectionStringError::FailedToGetHostname);
            },
        };
        let sas_key_name = match find_field(&segments, "SharedAccessKeyName=") {
            Some(v) => v,
            None => {
                return Err(FromConnectionStringError::FailedToGetSharedAccessKey);
            },
        };
        let sas_key_value = match find_field(&segments, "SharedAccessKey=") {
            Some(v) => v,
            None => {
                return Err(FromConnectionStringError::FailedToGetPrimaryKey);
            },
        };
        Ok(
            NotificationHubClient {
                hub_name: hub_name.to_owned(),
                host_name,
                token_provider: SasTokenProvider { sas_key_name, sas_key_value },
                api_version: "2017-04".to_owned(),
            },
        )
    }

    /// The same client, addressing another version of the service's API.
    pub fn with_api_version(self, api_version: &str) -> (r: NotificationHubClient)
        ensures
            r@ == (NotificationHubClientView { api_version: api_version@, ..self@ }),
    {
        NotificationHubClient {
            hub_name: self.hub_name,
            host_name: self.host_name,
            token_provider: self.token_provider,
            api_version: api_version.to_owned(),
        }
    }
}

/// The order of the segments is irrelevant: three segments that give the
/// endpoint, the key name and the key yield the same client in each of
/// their six orders, and its fields are what follows the three prefixes.
pub proof fn lemma_segment_order_irrelevant(
    a: Seq<char>,
    b: Seq<char>,
    c: Seq<char>,
    x: Seq<char>,
    y: Seq<char>,
    z: Seq<char>,
    hub_name: Seq<char>,
)
    requires
        !a.contains(';'),
        !b.contains(';'),
        !c.contains(';'),
        "Endpoint="@.is_prefix_of(a),
        "SharedAccessKeyName="@.is_prefix_of(b),
        "SharedAccessKey="@.is_prefix_of(c),
        is_arrangement(a, b, c, x, y, z),
    ensures
        connection_outcome(connection_text(x, y, z), hub_name) == connection_outcome(
            connection_text(a, b, c),
            hub_name,
        ),
        connection_outcome(connection_text(a, b, c), hub_name) == Ok::<
            NotificationHubClientView,
            FromConnectionStringError,
        >(
            NotificationHubClientView {
                hub_name: hub_name,
                host_name: a.skip("Endpoint="@.len() as int),
                sas_key_name: b.skip("SharedAccessKeyName="@.len() as int),
                sas_key_value: c.skip("SharedAccessKey="@.len() as int),
                api_version: "2017-04"@,
            },
        ),
{
    lemma_three_segments(a, b, c);
    lemma_three_segments(x, y, z);
    lemma_one_key_per_segment(a);
    lemma_one_key_per_segment(b);
    lemma_one_key_per_segment(c);
}

/// The views of an optional text.
pub open spec fn optional_text(t: Option<&str>) -> Option<Seq<char>> {
    match t {
        Some(s) => Some(s@),
        None => None,
    }
}

/// The headers of a notification request, in the order they are sent: the
/// caller's own, the authorization, the content type, the platform, then the
/// device handle and the tag expression where there is one.
pub open spec fn send_headers(
    message: NotificationRequestView,
    token: Seq<char>,
    device_token: Option<Seq<char>>,
    tag_expression: Option<Seq<char>>,
) -> Seq<HeaderView> {
    let base = message.headers.push(("Authorization"@, token)).push(
        ("Content-Type"@, message.content_type),
    ).push(("ServiceBusNotification-Format"@, message.platform));
    let addressed = match device_token {
        Some(d) => base.push(("ServiceBusNotification-DeviceHandle"@, d)),
        None => base,
    };
    match tag_expression {
        Some(t) => addressed.push(("ServiceBusNotification-Tags"@, t)),
        None => addressed,
    }
}

/// Whether the values that a notification request adds can be sent.
pub open spec fn send_values_allowed(
    message: NotificationRequestView,
    token: Seq<char>,
    device_token: Option<Seq<char>>,
    tag_expression: Option<Seq<char>>,
) -> bool {
    &&& header_value_allowed(token)
    &&& header_value_allowed(message.content_type)
    &&& header_value_allowed(message.platform)
    &&& (device_token matches Some(d) ==> header_value_allowed(d))
    &&& (tag_expression matches Some(t) ==> header_value_allowed(t))
}

/// The headers of a request that writes an installation.
pub open spec fn write_headers(token: Seq<char>) -> Seq<HeaderView> {
    seq![("Authorization"@, token), ("Content-Type"@, "application/json"@)]
}

impl NotificationHubClient {
    /// The origin that requests go to: the endpoint with its service scheme
    /// rewritten to HTTPS.
    pub open spec fn https_host(&self) -> Seq<char> {
        replaced(self.host_name@, "sb://"@, "https://"@)
    }

    /// The address that notifications are posted to.
    pub open spec fn messages_uri(&self, direct: bool) -> Seq<char> {
        let base = self.https_host() + "/"@ + self.hub_name@ + "/messages?api-version="@
            + self.api_version@;
        if direct {
            base + "&direct=true"@
        } else {
            base
        }
    }

    /// The address of the installation `installation_id`.
    pub open spec fn installation_uri(&self, installation_id: Seq<char>) -> Seq<char> {
        self.https_host() + "/"@ + self.hub_name@ + "/installations/"@ + installation_id
            + "?api-version="@ + self.api_version@
    }

    /// The request that carries `message` under the authorization `token`, to
    /// one device where `device_token` is given, and with the tag expression
    /// where one is given.
    pub open spec fn notification_envelope_view(
        &self,
        message: NotificationRequestView,
        token: Seq<char>,
        device_token: Option<Seq<char>>,
        tag_expression: Option<Seq<char>>,
    ) -> HttpRequestView {
        HttpRequestView {
            method: HttpMethod::Post,
            uri: self.messages_uri(device_token is Some),
            headers: send_headers(message, token, device_token, tag_expression),
            body: message.message,
        }
    }

    /// The request on the installation `installation_id` under the
    /// authorization `token`, with a JSON body where `json` is set.
    pub open spec fn installation_envelope_view(
        &self,
        method: HttpMethod,
        installation_id: Seq<char>,
        json: bool,
        body: Seq<char>,
        token: Seq<char>,
    ) -> HttpRequestView {
        HttpRequestView {
            method: method,
            uri: self.installation_uri(installation_id),
            headers: if json {
                write_headers(token)
            } else {
                seq![("Authorization"@, token)]
            },
            body: body,
        }
    }

    /// The request that sends `message` at `now`, to one device where
    /// `device_token` is given, else to the installations that
    /// `tag_expression` selects; or the reason why none can be made.
    pub open spec fn send_outcome(
        &self,
        message: NotificationRequestView,
        device_token: Option<Seq<char>>,
        tag_expression: Option<Seq<char>>,
        now: int,
    ) -> Result<HttpRequestView, NotificationRequestError> {
        if !headers_allowed(message.headers) {
            Err(NotificationRequestError::InvalidHeader)
        } else {
            match self.token_provider.token_at(self.host_name@, now) {
                Err(e) => Err(NotificationRequestError::GenerateSasTokenError(e)),
                Ok(token) => if !send_values_allowed(message, token, device_token, tag_expression) {
                    Err(NotificationRequestError::InvalidHeader)
                } else {
                    Ok(
                        self.notification_envelope_view(
                            message,
                            token,
                            device_token,
                            tag_expression,
                        ),
                    )
                },
            }
        }
    }

    /// The request on the installation `installation_id` made at `now` with
    /// the given method and body; or the reason why none can be made.
    pub open spec fn installation_outcome(
        &self,
        method: HttpMethod,
        installation_id: Seq<char>,
        json: bool,
        body: Seq<char>,
        now: int,
    ) -> Result<HttpRequestView, NotificationRequestError> {
        match self.token_provider.token_at(self.host_name@, now) {
            Err(e) => Err(NotificationRequestError::GenerateSasTokenError(e)),
            Ok(token) => if !header_value_allowed(token) {
                Err(NotificationRequestError::InvalidHeader)
            } else {
                Ok(self.installation_envelope_view(method, installation_id, json, body, token))
            },
        }
    }

    /// The token for the endpoint at `now`, checked to be a header value.
    fn authorization(&self, now: i64) -> (r: Result<String, NotificationRequestError>)
        ensures
            match r {
                Ok(token) => self.token_provider.token_at(self.host_name@, now as int) == Ok::<
                    Seq<char>,
                    GenerateSasTokenError,
                >(token@) && header_value_allowed(token@),
                Err(NotificationRequestError::GenerateSasTokenError(e)) =>
                    self.token_provider.token_at(self.host_name@, now as int) == Err::<
                        Seq<char>,
                        GenerateSasTokenError,
                    >(e),
                Err(NotificationRequestError::InvalidHeader) => self.token_provider.token_at(
                    self.host_name@,
                    now as int,
                ) matches Ok(token) && !header_value_allowed(token),
                Err(_) => false,
            },
    {
        match self.token_provider.generate_sas_token_at(self.host_name.as_str(), now) {
            Err(e) => Err(NotificationRequestError::GenerateSasTokenError(e)),
            Ok(token) => {
                if is_header_value(token.as_str()) {
                    Ok(token)
                } else {
                    Err(NotificationRequestError::InvalidHeader)
                }
            },
        }
    }

    /// The HTTPS origin, a slash and the hub.
    fn origin(&self) -> (r: String)
        ensures
            r@ == self.https_host() + "/"@ + self.hub_name@,
    {
        proof {
            reveal_strlit("sb://");
        }
        let mut uri = replace_all(self.host_name.as_str(), "sb://", "https://");
        uri.append("/");
        uri.append(self.hub_name.as_str());
        uri
    }

    /// Builds the request on the installation `installation_id` under the
    /// authorization `token`. Nothing is validated.
    pub fn installation_envelope(
        &self,
        method: HttpMethod,
        installation_id: &str,
        json: bool,
        body: String,
        token: &str,
    ) -> (r: HttpRequest)
        ensures
            r@ == self.installation_envelope_view(method, installation_id@, json, body@, token@),
    {
        let mut uri = self.origin();
        uri.append("/installations/");
        uri.append(installation_id);
        uri.append("?api-version=");
        uri.append(self.api_version.as_str());
        let mut headers: Vec<Header> = Vec::new();
        proof {
            assert(header_views(headers@) =~= Seq::<HeaderView>::empty());
        }
        push_header(&mut headers, "Authorization", token.to_owned());
        if json {
            push_header(&mut headers, "Content-Type", "application/json".to_owned());
        }
        let request = HttpRequest { method, uri, headers, body };
        proof {
            assert(request@.headers =~= if json {
                write_headers(token@)
            } else {
                seq![("Authorization"@, token@)]
            });
            assert(request@.uri =~= self.installation_uri(installation_id@));
        }
        request
    }

    /// Builds the request that carries `request_message` under the
    /// authorization `token`. Nothing is validated.
    pub fn notification_envelope(
        &self,
        request_message: &NotificationRequest,
        token: &str,
        device_token: Option<&str>,
        tag_expression: Option<&str>,
    ) -> (r: HttpRequest)
        ensures
            r@ == self.notification_envelope_view(
                request_message@,
                token@,
                optional_text(device_token),
                optional_text(tag_expression),
            ),
    {
        let mut uri = self.origin();
        uri.append("/messages?api-version=");
        uri.append(self.api_version.as_str());
        let mut headers = copy_headers(&request_message.headers);
        push_header(&mut headers, "Authorization", token.to_owned());
        push_header(&mut headers, "Content-Type", request_message.content_type.clone());
        push_header(&mut headers, "ServiceBusNotification-Format", request_message.platform.clone());
        match device_token {
            Some(d) => {
                uri.append("&direct=true");
                push_header(&mut headers, "ServiceBusNotification-DeviceHandle", d.to_owned());
            },
            None => {},
        }
        match tag_expression {
            Some(t) => {
                push_header(&mut headers, "ServiceBusNotification-Tags", t.to_owned());
            },
            None => {},
        }
        let request = HttpRequest {
            method: HttpMethod::Post,
            uri,
            headers,
            body: request_message.message.clone(),
        };
        proof {
            assert(request@.uri =~= self.messages_uri(device_token is Some));
        }
        request
    }

    /// The request on an installation, signed at `now`.
    fn installation_request(
        &self,
        method: HttpMethod,
        installation_id: &str,
        json: bool,
        body: String,
        now: i64,
    ) -> (r: Result<HttpRequest, NotificationRequestError>)
        ensures
            match r {
                Ok(request) => self.installation_outcome(
                    method,
                    installation_id@,
                    json,
                    body@,
                    now as int,
                ) == Ok::<HttpRequestView, NotificationRequestError>(request@),
                Err(e) => self.installation_outcome(
                    method,
                    installation_id@,
                    json,
                    body@,
                    now as int,
                ) == Err::<HttpRequestView, NotificationRequestError>(e),
            },
    {
        match self.authorization(now) {
            Ok(token) => Ok(
                self.installation_envelope(method, installation_id, json, body, token.as_str()),
            ),
            Err(e) => Err(e),
        }
    }

    /// The notification request, validated and signed at `now`.
    fn send_notification(
        &self,
        request_message: &NotificationRequest,
        device_token: Option<&str>,
        tag_expression: Option<&str>,
        now: i64,
    ) -> (r: Result<HttpRequest, NotificationRequestError>)
        ensures
            match r {
                Ok(request) => self.send_outcome(
                    request_message@,
                    optional_text(device_token),
                    optional_text(tag_expression),
                    now as int,
                ) == Ok::<HttpRequestView, NotificationRequestError>(request@),
                Err(e) => self.send_outcome(
                    request_message@,
                    optional_text(device_token),
                    optional_text(tag_expression),
                    now as int,
                ) == Err::<HttpRequestView, NotificationRequestError>(e),
            },
    {
        if !all_headers_allowed(&request_message.headers) {
            return Err(NotificationRequestError::InvalidHeader);
        }
        let token = match self.authorization(now) {
            Ok(token) => token,
            Err(e) => {
                return Err(e);
            },
        };
        if !is_header_value(request_message.content_type.as_str()) || !is_header_value(
            request_message.platform.as_str(),
        ) {
            return Err(NotificationRequestError::InvalidHeader);
        }
        match device_token {
            Some(d) => {
                if !is_header_value(d) {
                    return Err(NotificationRequestError::InvalidHeader);
                }
            },
            None => {},
        }
        match tag_expression {
            Some(t) => {
                if !is_header_value(t) {
                    return Err(NotificationRequestError::InvalidHeader);
                }
            },
            None => {},
        }
        Ok(self.notification_envelope(request_message, token.as_str(), device_token, tag_expression))
    }
}

impl NotificationHubClient {
    /// Prepares the delivery of `request_message` to the device
    /// `device_token` at `now`: the request for the transport to send. Its
    /// answer is read by `notification_response`.
    pub fn send_direct_notification(
        &self,
        request_message: &NotificationRequest,
        device_token: &str,
        now: i64,
    ) -> (r: Result<HttpRequest, NotificationRequestError>)
        ensures
            match r {
                Ok(request) => self.send_outcome(
                    request_message@,
                    Some(device_token@),
                    None,
                    now as int,
                ) == Ok::<HttpRequestView, NotificationRequestError>(request@),
                Err(e) => self.send_outcome(request_message@, Some(device_token@), None, now as int)
                    == Err::<HttpRequestView, NotificationRequestError>(e),
            },
    {
        self.send_notification(request_message, Some(device_token), None, now)
    }

    /// Prepares the delivery of `request_message` to the installations that
    /// carry at least one of `tags`: the request for the transport to send.
    /// Its answer is read by `notification_response`.
    pub fn send_tagged_notification(
        &self,
        request_message: &NotificationRequest,
        tags: &Vec<&str>,
        now: i64,
    ) -> (r: Result<HttpRequest, NotificationRequestError>)
        ensures
            match r {
                Ok(request) => self.send_outcome(
                    request_message@,
                    None,
                    Some(joined(slices(tags@), "||"@)),
                    now as int,
                ) == Ok::<HttpRequestView, NotificationRequestError>(request@),
                Err(e) => self.send_outcome(
                    request_message@,
                    None,
                    Some(joined(slices(tags@), "||"@)),
                    now as int,
                ) == Err::<HttpRequestView, NotificationRequestError>(e),
            },
    {
        let tag_expression = join_text(tags, "||");
        self.send_notification(request_message, None, Some(tag_expression.as_str()), now)
    }

    /// Prepares the delivery of `request_message` to the installations that
    /// `tag_expression` selects: the request for the transport to send. Its
    /// answer is read by `notification_response`.
    pub fn send_tag_expression_notification(
        &self,
        request_message: &NotificationRequest,
        tag_expression: &str,
        now: i64,
    ) -> (r: Result<HttpRequest, NotificationRequestError>)
        ensures
            match r {
                Ok(request) => self.send_outcome(
                    request_message@,
                    None,
                    Some(tag_expression@),
                    now as int,
                ) == Ok::<HttpRequestView, NotificationRequestError>(request@),
                Err(e) => self.send_outcome(request_message@, None, Some(tag_expression@), now as int)
                    == Err::<HttpRequestView, NotificationRequestError>(e),
            },
    {
        self.send_notification(request_message, None, Some(tag_expression), now)
    }

    /// Prepares the reading of the installation `installation_id`: the
    /// request for the transport to send. Its answer is read by
    /// `installation_document`.
    pub fn get_installation(&self, installation_id: &str, now: i64) -> (r: Result<
        HttpRequest,
        NotificationRequestError,
    >)
        ensures
            match r {
                Ok(request) => self.installation_outcome(
                    HttpMethod::Get,
                    installation_id@,
                    false,
                    Seq::<char>::empty(),
                    now as int,
                ) == Ok::<HttpRequestView, NotificationRequestError>(request@),
                Err(e) => self.installation_outcome(
                    HttpMethod::Get,
                    installation_id@,
                    false,
                    Seq::<char>::empty(),
                    now as int,
                ) == Err::<HttpRequestView, NotificationRequestError>(e),
            },
    {
        self.installation_request(HttpMethod::Get, installation_id, false, String::new(), now)
    }

    /// Prepares the storing of `installation`, whose JSON document is
    /// `installation_json`, under the installation's own id: the request for
    /// the transport to send. Its answer is read by
    /// `installation_path_response`.
    pub fn upsert_installation(
        &self,
        installation: &Installation,
        installation_json: String,
        now: i64,
    ) -> (r: Result<HttpRequest, NotificationRequestError>)
        ensures
            match r {
                Ok(request) => self.installation_outcome(
                    HttpMethod::Put,
                    installation.installation_id@,
                    true,
                    installation_json@,
                    now as int,
                ) == Ok::<HttpRequestView, NotificationRequestError>(request@),
                Err(e) => self.installation_outcome(
                    HttpMethod::Put,
                    installation.installation_id@,
                    true,
                    installation_json@,
                    now as int,
                ) == Err::<HttpRequestView, NotificationRequestError>(e),
            },
    {
        self.installation_request(
            HttpMethod::Put,
            installation.installation_id.as_str(),
            true,
            installation_json,
            now,
        )
    }

    /// Prepares the patching of the installation `installation_id` with the
    /// ordered patch list whose JSON document is `patches_json`: the request
    /// for the transport to send. Its answer is read by
    /// `installation_path_response`.
    pub fn patch_installation(
        &self,
        installation_id: &str,
        patches_json: String,
        now: i64,
    ) -> (r: Result<HttpRequest, NotificationRequestError>)
        ensures
            match r {
                Ok(request) => self.installation_outcome(
                    HttpMethod::Patch,
                    installation_id@,
                    true,
                    patches_json@,
                    now as int,
                ) == Ok::<HttpRequestView, NotificationRequestError>(request@),
                Err(e) => self.installation_outcome(
                    HttpMethod::Patch,
                    installation_id@,
                    true,
                    patches_json@,
                    now as int,
                ) == Err::<HttpRequestView, NotificationRequestError>(e),
            },
    {
        self.installation_request(HttpMethod::Patch, installation_id, true, patches_json, now)
    }

    /// Reads the answer to a notification request: the tracking and
    /// correlation ids of a 201 answer, each empty where its header is
    /// absent; any other status is an error. Header names are compared as
    /// they stand.
    pub fn notification_response(status: u16, headers: &Vec<Header>) -> (r: Result<
        NotificationResponse,
        NotificationRequestError,
    >)
        ensures
            match r {
                Ok(response) => status == 201 && response.tracking_id@ == header_value(
                    header_views(headers@),
                    "trackingid"@,
                ) && response.correlation_id@ == header_value(
                    header_views(headers@),
                    "x-ms-correlation-request-id"@,
                ),
                Err(e) => status != 201 && e == NotificationRequestError::InvalidHttpResponse(
                    status,
                ),
            },
    {
        if status != 201 {
            return Err(NotificationRequestError::InvalidHttpResponse(status));
        }
        Ok(
            NotificationResponse {
                tracking_id: find_header(headers, "trackingid"),
                correlation_id: find_header(headers, "x-ms-correlation-request-id"),
            },
        )
    }

    /// Reads the answer to a request that wrote an installation: the content
    /// location of a 200 answer, empty where the header is absent; any other
    /// status is an error.
    pub fn installation_path_response(status: u16, headers: &Vec<Header>) -> (r: Result<
        InstallationPathResponse,
        NotificationRequestError,
    >)
        ensures
            match r {
                Ok(response) => status == 200 && response.content_location@ == header_value(
                    header_views(headers@),
                    "content-location"@,
                ),
                Err(e) => status != 200 && e == NotificationRequestError::InvalidHttpResponse(
                    status,
                ),
            },
    {
        if status != 200 {
            return Err(NotificationRequestError::InvalidHttpResponse(status));
        }
        Ok(InstallationPathResponse { content_location: find_header(headers, "content-location") })
    }

    /// Reads the answer to a request for an installation: the JSON document
    /// of a 200 answer; any other status is an error.
    pub fn installation_document(status: u16, body: String) -> (r: Result<
        String,
        NotificationRequestError,
    >)
        ensures
            match r {
                Ok(document) => status == 200 && document == body,
                Err(e) => status != 200 && e == NotificationRequestError::InvalidHttpResponse(
                    status,
                ),
            },
    {
        if status != 200 {
            return Err(NotificationRequestError::InvalidHttpResponse(status));
        }
        Ok(body)
    }
}

/// Whether a text is the name of the device-handle header.
pub open spec fn is_device_handle_name(name: Seq<char>) -> bool {
    name == "ServiceBusNotification-DeviceHandle"@
}

/// A request to one device is addressed to the direct endpoint and ends
/// with the device-handle header, which carries the device token.
pub proof fn lemma_direct_request_names_device(
    client: NotificationHubClient,
    message: NotificationRequestView,
    device_token: Seq<char>,
    now: int,
)
    ensures
        client.send_outcome(message, Some(device_token), None, now) matches Ok(request) ==> {
            &&& "&direct=true"@.is_suffix_of(request.uri)
            &&& request.uri == client.messages_uri(true)
            &&& request.headers.len() == message.headers.len() + 4
            &&& request.headers.last() == ("ServiceBusNotification-DeviceHandle"@, device_token)
        },
{
    match client.send_outcome(message, Some(device_token), None, now) {
        Ok(request) => {
            let base = client.messages_uri(false);
            let tail = "&direct=true"@;
            assert(request.uri == base + tail);
            assert((base + tail).subrange((base + tail).len() - tail.len(), (base + tail).len() as int)
                =~= tail);
        },
        Err(_) => {},
    }
}

/// A request by tags carries no device-handle header, unless the caller's
/// own headers hold one, and is not addressed to the direct endpoint.
pub proof fn lemma_tagged_request_names_no_device(
    client: NotificationHubClient,
    message: NotificationRequestView,
    tag_expression: Seq<char>,
    now: int,
)
    requires
        forall|i: int| 0 <= i < message.headers.len() ==> !is_device_handle_name(message.headers[i].0),
    ensures
        client.send_outcome(message, None, Some(tag_expression), now) matches Ok(request) ==> {
            &&& request.uri == client.messages_uri(false)
            &&& request.headers.last() == ("ServiceBusNotification-Tags"@, tag_expression)
            &&& forall|i: int|
                0 <= i < request.headers.len() ==> !is_device_handle_name(
                    (#[trigger] request.headers[i]).0,
                )
        },
{
    reveal_strlit("ServiceBusNotification-DeviceHandle");
    reveal_strlit("ServiceBusNotification-Tags");
    reveal_strlit("ServiceBusNotification-Format");
    reveal_strlit("Content-Type");
    reveal_strlit("Authorization");
    match client.send_outcome(message, None, Some(tag_expression), now) {
        Ok(request) => {
            assert forall|i: int| 0 <= i < request.headers.len() implies !is_device_handle_name(
                (#[trigger] request.headers[i]).0,
            ) by {
                let n = message.headers.len() as int;
                let token = client.token_provider.token_at(client.host_name@, now).unwrap();
                assert(request.headers == send_headers(message, token, None, Some(tag_expression)));
                assert("ServiceBusNotification-DeviceHandle"@.len() == 35);
                if i < n {
                    assert(request.headers[i] == message.headers[i]);
                } else if i == n {
                    assert(request.headers[i].0 == "Authorization"@);
                    assert("Authorization"@.len() == 13);
                } else if i == n + 1 {
                    assert(request.headers[i].0 == "Content-Type"@);
                    assert("Content-Type"@.len() == 12);
                } else if i == n + 2 {
                    assert(request.headers[i].0 == "ServiceBusNotification-Format"@);
                    assert("ServiceBusNotification-Format"@.len() == 29);
                } else {
                    assert(request.headers[i].0 == "ServiceBusNotification-Tags"@);
                    assert("ServiceBusNotification-Tags"@.len() == 27);
                }
            }
        },
        Err(_) => {},
    }
}

impl NotificationRequest {
    /// Whether the headers form a mapping: no name occurs twice.
    pub open spec fn has_distinct_names(&self) -> bool {
        distinct_names(self@.headers)
    }

    /// A request without headers of its own.
    pub fn new(message: &str, content_type: &str, platform: &str) -> (r: NotificationRequest)
        ensures
            r@ == (NotificationRequestView {
                headers: Seq::<HeaderView>::empty(),
                message: message@,
                content_type: content_type@,
                platform: platform@,
            }),
            r.has_distinct_names(),
    {
        let r = NotificationRequest {
            headers: Vec::new(),
            message: message.to_owned(),
            content_type: content_type.to_owned(),
            platform: platform.to_owned(),
        };
        proof {
            assert(r@.headers =~= Seq::<HeaderView>::empty());
        }
        r
    }

    /// Sets the header `name` to `value`, in place where the request has a
    /// header of that name, else at the end.
    pub fn set_header(&mut self, name: &str, value: &str)
        ensures
            final(self)@ == (NotificationRequestView {
                headers: with_header(old(self)@.headers, name@, value@),
                ..old(self)@
            }),
            old(self).has_distinct_names() ==> final(self).has_distinct_names(),
    {
        let wanted = name.to_owned();
        let fresh = Header { name: name.to_owned(), value: value.to_owned() };
        let mut i: usize = 0;
        while i < self.headers.len()
            invariant
                i <= self.headers.len(),
                *self == *old(self),
                wanted@ == name@,
                fresh@ == (name@, value@),
                forall|j: int| 0 <= j < i ==> header_views(self.headers@)[j].0 != name@,
            decreases self.headers.len() - i,
        {
            if self.headers[i].name == wanted {
                proof {
                    lemma_with_header_replaces(old(self)@.headers, name@, value@, i as int);
                    lemma_with_header_is_an_update(old(self)@.headers, name@, value@, name@);
                }
                self.headers.set(i, fresh);
                proof {
                    assert(header_views(self.headers@) =~= old(self)@.headers.update(
                        i as int,
                        (name@, value@),
                    ));
                }
                return ;
            }
            i = i + 1;
        }
        proof {
            lemma_with_header_appends(old(self)@.headers, name@, value@);
            lemma_with_header_is_an_update(old(self)@.headers, name@, value@, name@);
        }
        self.headers.push(fresh);
        proof {
            assert(header_views(self.headers@) =~= old(self)@.headers.push((name@, value@)));
        }
    }
}

impl Default for NotificationRequest {
    fn default() -> (r: NotificationRequest)
        ensures
            r@ == (NotificationRequestView {
                headers: Seq::<HeaderView>::empty(),
                message: Seq::<char>::empty(),
                content_type: Seq::<char>::empty(),
                platform: Seq::<char>::empty(),
            }),
    {
        let r = NotificationRequest {
            headers: Vec::new(),
            message: String::new(),
            content_type: String::new(),
            platform: String::new(),
        };
        proof {
            assert(r@.headers =~= Seq::<HeaderView>::empty());
        }
        r
    }
}

impl Default for NotificationResponse {
    fn default() -> (r: NotificationResponse)
        ensures
            r.tracking_id@ == Seq::<char>::empty(),
            r.correlation_id@ == Seq::<char>::empty(),
    {
        NotificationResponse { tracking_id: String::new(), correlation_id: String::new() }
    }
}

} // verus!
