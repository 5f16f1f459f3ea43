use notification_hubs::http::find_header;
use notification_hubs::{
    FromConnectionStringError, GenerateSasTokenError, Header, NotificationHubClient,
    NotificationRequestError,
};

fn header(name: &str, value: &str) -> Header {
    Header { name: name.to_string(), value: value.to_string() }
}

#[test]
fn created_answer_gives_both_ids() {
    let headers = vec![
        header("content-length", "0"),
        header("trackingid", "track-1"),
        header("x-ms-correlation-request-id", "corr-1"),
        header("trackingid", "track-2"),
    ];
    let response = NotificationHubClient::notification_response(201, &headers).unwrap();
    assert_eq!(response.tracking_id, "track-1");
    assert_eq!(response.correlation_id, "corr-1");
}

#[test]
fn missing_ids_are_empty() {
    let response = NotificationHubClient::notification_response(201, &vec![]).unwrap();
    assert_eq!(response.tracking_id, "");
    assert_eq!(response.correlation_id, "");
    let only_one = vec![header("x-ms-correlation-request-id", "corr-1")];
    let response = NotificationHubClient::notification_response(201, &only_one).unwrap();
    assert_eq!(response.tracking_id, "");
    assert_eq!(response.correlation_id, "corr-1");
}

#[test]
fn ok_is_not_created() {
    let headers = vec![header("trackingid", "track-1")];
    match NotificationHubClient::notification_response(200, &headers) {
        Err(e) => assert_eq!(e, NotificationRequestError::InvalidHttpResponse(200)),
        Ok(_) => panic!("a 200 answer was taken for success"),
    }
    for status in [0u16, 202, 400, 401, 404, 500, u16::MAX] {
        match NotificationHubClient::notification_response(status, &headers) {
            Err(e) => assert_eq!(e, NotificationRequestError::InvalidHttpResponse(status)),
            Ok(_) => panic!("status {} was taken for success", status),
        }
    }
}

#[test]
fn written_installation_gives_its_location() {
    let headers = vec![header("content-location", "https://h/hub/installations/abc")];
    let response = NotificationHubClient::installation_path_response(200, &headers).unwrap();
    assert_eq!(response.content_location, "https://h/hub/installations/abc");
    let response = NotificationHubClient::installation_path_response(200, &vec![]).unwrap();
    assert_eq!(response.content_location, "");
    match NotificationHubClient::installation_path_response(201, &headers) {
        Err(e) => assert_eq!(e, NotificationRequestError::InvalidHttpResponse(201)),
        Ok(_) => panic!("a 201 answer was taken for success"),
    }
}

#[test]
fn installation_document_needs_ok() {
    let document = r#"{"installationId":"abc"}"#.to_string();
    assert_eq!(
        NotificationHubClient::installation_document(200, document.clone()),
        Ok(document.clone())
    );
    assert_eq!(
        NotificationHubClient::installation_document(404, document),
        Err(NotificationRequestError::InvalidHttpResponse(404))
    );
}

#[test]
fn header_names_are_compared_as_they_stand() {
    let headers = vec![header("TrackingId", "upper"), header("trackingid", "lower")];
    assert_eq!(find_header(&headers, "trackingid"), "lower");
    assert_eq!(find_header(&headers, "TrackingId"), "upper");
    assert_eq!(find_header(&headers, "absent"), "");
}

#[test]
fn request_error_messages() {
    assert_eq!(
        NotificationRequestError::InvalidHttpResponse(200).message(),
        "Unsuccessful HTTP status code: 200"
    );
    assert_eq!(
        NotificationRequestError::GenerateSasTokenError(GenerateSasTokenError::HashingFailed)
            .message(),
        "Generate SAS token error: Failed to use the given private key for the hashing algorithm"
    );
    assert_eq!(NotificationRequestError::InvalidHeader.message(), "Invalid header name or value");
}

#[test]
fn connection_error_messages() {
    assert_eq!(
        FromConnectionStringError::InvalidError.message(),
        "Given connection string is invalid"
    );
    assert_eq!(
        FromConnectionStringError::FailedToGetHostname.message(),
        "Failed to get the hostname from the given connection string"
    );
    assert_eq!(
        FromConnectionStringError::FailedToGetSharedAccessKey.message(),
        "Failed to get the shared access key name from the given connection string"
    );
    assert_eq!(
        FromConnectionStringError::FailedToGetPrimaryKey.message(),
        "Failed to get the primary key from the given connection string"
    );
    assert_eq!(
        FromConnectionStringError::GenerateSasTokenError(
            GenerateSasTokenError::DecodePrivateKeyError
        )
        .message(),
        "Generate SAS token error: Failed to decode the given private key"
    );
}

#[test]
fn default_response_is_empty() {
    let response = notification_hubs::NotificationResponse::default();
    assert_eq!(response.tracking_id, "");
    assert_eq!(response.correlation_id, "");
}
