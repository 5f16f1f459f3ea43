use notification_hubs::http::all_headers_allowed;
use notification_hubs::{
    GenerateSasTokenError, Header, HttpMethod, HttpRequest, Installation, NotificationHubClient,
    NotificationRequest, NotificationRequestError,
};
use std::collections::HashMap;

const CONNECTION_STRING: &str =
    "Endpoint=sb://my-namespace.servicebus.windows.net/;SharedAccessKeyName=RootKey;SharedAccessKey=c2VjcmV0LWtleQ==";
const HUB_NAME: &str = "hub";
const NOW: i64 = 1_700_000_000;
const TOKEN: &str = "SharedAccessSignature sr=sb%3A%2F%2Fmy-namespace.servicebus.windows.net%2F&sig=r7fll0Pl2lkTUi9B4qleJpcBzMOnuWkOXcr%2Bzhm%2Fu%2B4%3D&se=1700003600&skn=RootKey";
const MESSAGE_BODY: &str = r#"{"aps": { "alert": { "title": "My title", "body": "My body" } } }"#;

fn client() -> NotificationHubClient {
    NotificationHubClient::from_connection_string(CONNECTION_STRING, HUB_NAME).unwrap()
}

fn header(name: &str, value: &str) -> Header {
    Header { name: name.to_string(), value: value.to_string() }
}

fn apple_message() -> NotificationRequest {
    NotificationRequest {
        content_type: "application/json;charset=utf-8".to_string(),
        message: MESSAGE_BODY.to_string(),
        platform: "apple".to_string(),
        headers: vec![
            header("apns_topic", "com.microsoft.XamarinPushTest"),
            header("apns-push-type", "alert"),
            header("apns-priority", "10"),
        ],
    }
}

fn names(request: &HttpRequest) -> Vec<&str> {
    request.headers.iter().map(|h| h.name.as_str()).collect()
}

#[test]
fn direct_request_is_complete() {
    let request = client().send_direct_notification(&apple_message(), "device-1", NOW).unwrap();
    assert_eq!(request.method, HttpMethod::Post);
    assert_eq!(
        request.uri,
        "https://my-namespace.servicebus.windows.net//hub/messages?api-version=2017-04&direct=true"
    );
    assert_eq!(
        request.headers,
        vec![
            header("apns_topic", "com.microsoft.XamarinPushTest"),
            header("apns-push-type", "alert"),
            header("apns-priority", "10"),
            header("Authorization", TOKEN),
            header("Content-Type", "application/json;charset=utf-8"),
            header("ServiceBusNotification-Format", "apple"),
            header("ServiceBusNotification-DeviceHandle", "device-1"),
        ]
    );
    assert_eq!(request.body, MESSAGE_BODY);
}

#[test]
fn tagged_request_joins_the_tags() {
    let request =
        client().send_tagged_notification(&apple_message(), &vec!["A", "B", "C"], NOW).unwrap();
    assert_eq!(request.method, HttpMethod::Post);
    assert_eq!(
        request.uri,
        "https://my-namespace.servicebus.windows.net//hub/messages?api-version=2017-04"
    );
    assert_eq!(request.headers.last().unwrap(), &header("ServiceBusNotification-Tags", "A||B||C"));
    assert!(!names(&request).contains(&"ServiceBusNotification-DeviceHandle"));
    assert_eq!(request.headers.len(), 7);
    assert_eq!(request.headers[3], header("Authorization", TOKEN));
    assert_eq!(request.body, MESSAGE_BODY);
}

#[test]
fn tagged_request_with_one_tag_or_none() {
    let one = client().send_tagged_notification(&apple_message(), &vec!["A"], NOW).unwrap();
    assert_eq!(one.headers.last().unwrap(), &header("ServiceBusNotification-Tags", "A"));
    let none = client().send_tagged_notification(&apple_message(), &vec![], NOW).unwrap();
    assert_eq!(none.headers.last().unwrap(), &header("ServiceBusNotification-Tags", ""));
}

#[test]
fn tag_expression_request_keeps_the_expression() {
    let request = client()
        .send_tag_expression_notification(&apple_message(), "(A && B) || !C", NOW)
        .unwrap();
    assert_eq!(
        request.uri,
        "https://my-namespace.servicebus.windows.net//hub/messages?api-version=2017-04"
    );
    assert_eq!(
        request.headers.last().unwrap(),
        &header("ServiceBusNotification-Tags", "(A && B) || !C")
    );
    assert!(!names(&request).contains(&"ServiceBusNotification-DeviceHandle"));
}

#[test]
fn the_token_is_scoped_to_the_host_and_the_moment() {
    let later = client().send_direct_notification(&apple_message(), "d", NOW + 1).unwrap();
    assert_ne!(later.headers[3].value, TOKEN);
    assert!(later.headers[3].value.contains("&se=1700003601&"));
    let read = client().get_installation("abc", NOW).unwrap();
    assert_eq!(read.headers[0].value, TOKEN);
}

#[test]
fn every_service_scheme_is_rewritten() {
    let c = NotificationHubClient::from_connection_string(
        "Endpoint=sb://a.example/sb://b;SharedAccessKeyName=n;SharedAccessKey=k",
        "h",
    )
    .unwrap();
    let request = c.get_installation("i", 0).unwrap();
    assert_eq!(request.uri, "https://a.example/https://b/h/installations/i?api-version=2017-04");
}

#[test]
fn another_api_version_is_used_where_set() {
    let request =
        client().with_api_version("2020-06").get_installation("abc", NOW).unwrap();
    assert_eq!(
        request.uri,
        "https://my-namespace.servicebus.windows.net//hub/installations/abc?api-version=2020-06"
    );
}

#[test]
fn invalid_caller_headers_are_refused() {
    let mut bad_name = apple_message();
    bad_name.headers.push(header("bad name", "x"));
    assert_eq!(
        client().send_direct_notification(&bad_name, "d", NOW),
        Err(NotificationRequestError::InvalidHeader)
    );
    let mut empty_name = apple_message();
    empty_name.headers.push(header("", "x"));
    assert_eq!(
        client().send_tag_expression_notification(&empty_name, "A", NOW),
        Err(NotificationRequestError::InvalidHeader)
    );
    let mut bad_value = apple_message();
    bad_value.headers.push(header("x-custom", "line\nbreak"));
    assert_eq!(
        client().send_direct_notification(&bad_value, "d", NOW),
        Err(NotificationRequestError::InvalidHeader)
    );
}

#[test]
fn invalid_added_values_are_refused() {
    assert_eq!(
        client().send_direct_notification(&apple_message(), "dev\u{7f}ice", NOW),
        Err(NotificationRequestError::InvalidHeader)
    );
    assert_eq!(
        client().send_tagged_notification(&apple_message(), &vec!["A", "B\r"], NOW),
        Err(NotificationRequestError::InvalidHeader)
    );
    let mut message = apple_message();
    message.platform = "app\u{0}le".to_string();
    assert_eq!(
        client().send_direct_notification(&message, "d", NOW),
        Err(NotificationRequestError::InvalidHeader)
    );
    let mut message = apple_message();
    message.content_type = "a\nb".to_string();
    assert_eq!(
        client().send_direct_notification(&message, "d", NOW),
        Err(NotificationRequestError::InvalidHeader)
    );
    let odd_key_name = NotificationHubClient::from_connection_string(
        "Endpoint=sb://h/;SharedAccessKeyName=a\nb;SharedAccessKey=k",
        "h",
    )
    .unwrap();
    assert_eq!(
        odd_key_name.get_installation("i", NOW),
        Err(NotificationRequestError::InvalidHeader)
    );
}

#[test]
fn tabs_and_other_alphabets_are_valid_values() {
    let request =
        client().send_direct_notification(&apple_message(), "tab\there \u{fc}", NOW).unwrap();
    assert_eq!(request.headers[6].value, "tab\there \u{fc}");
}

#[test]
fn an_empty_key_stops_every_request() {
    let c = NotificationHubClient::from_connection_string(
        "Endpoint=sb://h/;SharedAccessKeyName=n;SharedAccessKey=",
        "h",
    )
    .unwrap();
    let expected =
        Err(NotificationRequestError::GenerateSasTokenError(GenerateSasTokenError::HashingFailed));
    assert_eq!(c.send_direct_notification(&apple_message(), "d", NOW), expected);
    assert_eq!(c.get_installation("i", NOW), expected);
    assert_eq!(c.patch_installation("i", "[]".to_string(), NOW), expected);
    let mut bad = apple_message();
    bad.headers.push(header("bad name", "x"));
    assert_eq!(
        c.send_direct_notification(&bad, "d", NOW),
        Err(NotificationRequestError::InvalidHeader)
    );
}

#[test]
fn get_installation_request_is_complete() {
    let request = client().get_installation("abc", NOW).unwrap();
    assert_eq!(request.method, HttpMethod::Get);
    assert_eq!(
        request.uri,
        "https://my-namespace.servicebus.windows.net//hub/installations/abc?api-version=2017-04"
    );
    assert_eq!(request.headers, vec![header("Authorization", TOKEN)]);
    assert_eq!(request.body, "");
}

#[test]
fn upsert_installation_request_is_complete() {
    let installation = Installation {
        installation_id: "abc".to_string(),
        user_id: "user".to_string(),
        last_active_on: String::new(),
        expiration_time: String::new(),
        last_update: String::new(),
        platform: "apns".to_string(),
        push_channel: "channel".to_string(),
        expired_push_channel: false,
        tags: vec!["A".to_string()],
        templates: HashMap::new(),
    };
    let document = r#"{"installationId":"abc"}"#;
    let request =
        client().upsert_installation(&installation, document.to_string(), NOW).unwrap();
    assert_eq!(request.method, HttpMethod::Put);
    assert_eq!(
        request.uri,
        "https://my-namespace.servicebus.windows.net//hub/installations/abc?api-version=2017-04"
    );
    assert_eq!(
        request.headers,
        vec![header("Authorization", TOKEN), header("Content-Type", "application/json")]
    );
    assert_eq!(request.body, document);
}

#[test]
fn patch_installation_request_is_complete() {
    let document = r#"[{"op":"add","path":"/tags","value":"A"}]"#;
    let request = client().patch_installation("abc", document.to_string(), NOW).unwrap();
    assert_eq!(request.method, HttpMethod::Patch);
    assert_eq!(
        request.uri,
        "https://my-namespace.servicebus.windows.net//hub/installations/abc?api-version=2017-04"
    );
    assert_eq!(
        request.headers,
        vec![header("Authorization", TOKEN), header("Content-Type", "application/json")]
    );
    assert_eq!(request.body, document);
}

#[test]
fn send_direct_notification() {
    let client = client();
    let notification_request = apple_message();
    let request =
        client.send_direct_notification(&notification_request, "<Device-Handle>", NOW).unwrap();
    assert!(request.uri.ends_with("&direct=true"));
    assert!(names(&request).contains(&"ServiceBusNotification-DeviceHandle"));
    let answer = vec![header("trackingid", "b8b9c3f2")];
    let result = NotificationHubClient::notification_response(201, &answer).unwrap();
    assert!(result.tracking_id.len() > 0);
}

#[test]
fn headers_are_set_like_map_entries() {
    let mut message = NotificationRequest::new(MESSAGE_BODY, "application/json", "apple");
    assert!(message.headers.is_empty());
    assert_eq!(message.message, MESSAGE_BODY);
    assert_eq!(message.content_type, "application/json");
    assert_eq!(message.platform, "apple");
    message.set_header("apns-priority", "5");
    message.set_header("apns-push-type", "alert");
    message.set_header("apns-priority", "10");
    assert_eq!(
        message.headers,
        vec![header("apns-priority", "10"), header("apns-push-type", "alert")]
    );
    message.set_header("Apns-Priority", "1");
    assert_eq!(message.headers.len(), 3);
    let request = client().send_direct_notification(&message, "d", NOW).unwrap();
    assert_eq!(request.headers.len(), 7);
    assert_eq!(request.headers[0], header("apns-priority", "10"));
}

#[test]
fn only_the_first_header_of_a_name_is_set() {
    let mut message = NotificationRequest::default();
    message.headers = vec![header("a", "1"), header("b", "2"), header("a", "3")];
    message.set_header("a", "4");
    assert_eq!(message.headers, vec![header("a", "4"), header("b", "2"), header("a", "3")]);
}

#[test]
fn default_request_is_empty() {
    let message = NotificationRequest::default();
    assert!(message.headers.is_empty());
    assert_eq!(message.message, "");
    assert_eq!(message.content_type, "");
    assert_eq!(message.platform, "");
    let request = client().send_tag_expression_notification(&message, "A", NOW).unwrap();
    assert_eq!(
        request.headers,
        vec![
            header("Authorization", TOKEN),
            header("Content-Type", ""),
            header("ServiceBusNotification-Format", ""),
            header("ServiceBusNotification-Tags", "A"),
        ]
    );
    assert_eq!(request.body, "");
}

#[test]
fn installation_round_trip() {
    let mut fields = serde_json::Map::new();
    fields.insert("installationId".to_string(), serde_json::Value::String("abc".to_string()));
    fields.insert("platform".to_string(), serde_json::Value::String("apns".to_string()));
    fields.insert("pushChannel".to_string(), serde_json::Value::String("channel".to_string()));
    fields.insert(
        "tags".to_string(),
        serde_json::Value::Array(vec![serde_json::Value::String("A".to_string())]),
    );
    let document = serde_json::Value::Object(fields).to_string();

    let request = client().get_installation("abc", NOW).unwrap();
    assert!(request.uri.contains("/installations/abc?"));
    let body = NotificationHubClient::installation_document(200, document).unwrap();
    let parsed: serde_json::Value = serde_json::from_str(&body).unwrap();
    let installation = Installation {
        installation_id: parsed["installationId"].as_str().unwrap().to_string(),
        user_id: String::new(),
        last_active_on: String::new(),
        expiration_time: String::new(),
        last_update: String::new(),
        platform: parsed["platform"].as_str().unwrap().to_string(),
        push_channel: parsed["pushChannel"].as_str().unwrap().to_string(),
        expired_push_channel: false,
        tags: vec![parsed["tags"][0].as_str().unwrap().to_string()],
        templates: HashMap::new(),
    };
    assert_eq!(installation.installation_id, "abc");
    assert_eq!(installation.platform, "apns");
    assert_eq!(installation.push_channel, "channel");
    assert_eq!(installation.tags, vec!["A".to_string()]);
}

#[test]
fn header_names_follow_the_token_rule() {
    let allowed = |name: &str| all_headers_allowed(&vec![header(name, "v")]);
    assert!(allowed("apns_topic"));
    assert!(allowed("X-Custom-Header"));
    assert!(allowed("!\"#$%&'*+-.^_`|~09azAZ"));
    assert!(!allowed(""));
    assert!(!allowed("a b"));
    assert!(!allowed("a:b"));
    assert!(!allowed("a(b)"));
    assert!(!allowed("a,b"));
    assert!(!allowed("a/b"));
    assert!(!allowed("a=b"));
    assert!(!allowed("a@b"));
    assert!(!allowed("a[b]"));
    assert!(!allowed("a{b}"));
    assert!(!allowed("a\u{7f}"));
    assert!(!allowed("n\u{e9}"));
    assert!(allowed(&"a".repeat(64)));
    assert!(allowed(&"a".repeat(65)));
    assert!(allowed(&"a".repeat(65535)));
    assert!(!allowed(&"a".repeat(65536)));
    assert!(!allowed(&format!("{}(", "a".repeat(70))));
    assert!(all_headers_allowed(&vec![]));
    assert!(!all_headers_allowed(&vec![header("ok", "v"), header("ok2", "a\u{1}b")]));
    assert!(all_headers_allowed(&vec![header("ok", ""), header("ok2", "\t \u{80}~")]));
}

#[test]
fn envelopes_are_built_without_validation() {
    let message = NotificationRequest {
        headers: vec![header("bad name", "x\ny")],
        message: "m".to_string(),
        content_type: "c".to_string(),
        platform: "p".to_string(),
    };
    let request = client().notification_envelope(&message, "token", Some("d"), Some("t"));
    assert_eq!(request.method, HttpMethod::Post);
    assert_eq!(
        request.uri,
        "https://my-namespace.servicebus.windows.net//hub/messages?api-version=2017-04&direct=true"
    );
    assert_eq!(
        request.headers,
        vec![
            header("bad name", "x\ny"),
            header("Authorization", "token"),
            header("Content-Type", "c"),
            header("ServiceBusNotification-Format", "p"),
            header("ServiceBusNotification-DeviceHandle", "d"),
            header("ServiceBusNotification-Tags", "t"),
        ]
    );
    assert_eq!(request.body, "m");
    let read = client().installation_envelope(HttpMethod::Get, "i 1", false, String::new(), "t");
    assert_eq!(
        read.uri,
        "https://my-namespace.servicebus.windows.net//hub/installations/i 1?api-version=2017-04"
    );
    assert_eq!(read.headers, vec![header("Authorization", "t")]);
}
