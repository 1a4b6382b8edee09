use mailhits::headers::Headers;
use mailhits::http::{
    delete_all_emails, delete_email, get_attachment, get_email, get_emails, handle_socket, index,
    media_type, static_handler, static_path, static_response, StatusCode,
};
use mailhits::models::{Attachment, Email, Timestamp};
use mailhits::state::AppState;
use mailhits::store::Store;

// A state with two sample emails, the second with an attachment
fn create_http_state() -> AppState {
    let emails = vec![
        Email {
            id: "test-email-1".to_string(),
            received_at: Timestamp { secs: 1, nanos: 0 },
            from: "sender1@example.com".to_string(),
            to: vec!["recipient1@example.com".to_string()],
            subject: "Test Email 1".to_string(),
            text_body: Some("This is test email 1".to_string()),
            html_body: None,
            headers: Headers::new(),
            attachments: Vec::new(),
        },
        Email {
            id: "test-email-2".to_string(),
            received_at: Timestamp { secs: 1, nanos: 0 },
            from: "sender2@example.com".to_string(),
            to: vec!["recipient2@example.com".to_string()],
            subject: "Test Email 2".to_string(),
            text_body: Some("This is test email 2".to_string()),
            html_body: None,
            headers: Headers::new(),
            attachments: vec![Attachment {
                id: "test-attachment-1".to_string(),
                filename: "test.txt".to_string(),
                content_type: "text/plain".to_string(),
                size: 4,
                data: Some(vec![116, 101, 115, 116]), // "test" in bytes
            }],
        },
    ];
    let mut state = AppState::new();
    state.emails = Store::from_vec(emails);
    state
}

#[test]
fn test_get_emails() {
    let state = create_http_state();
    let emails = get_emails(&state);

    assert_eq!(emails.len(), 2);
    assert_eq!(emails[0].id, "test-email-1");
    assert_eq!(emails[1].id, "test-email-2");
}

#[test]
fn test_get_email() {
    let state = create_http_state();
    let email = get_email("test-email-1", &state).unwrap();

    assert_eq!(email.id, "test-email-1");
    assert_eq!(email.from, "sender1@example.com");
}

#[test]
fn test_get_email_not_found() {
    let state = create_http_state();
    let response = get_email("nonexistent", &state);

    assert_eq!(response.err(), Some(StatusCode::NotFound));
    assert_eq!(StatusCode::NotFound.as_u16(), 404);
}

#[test]
fn test_delete_email() {
    let mut state = create_http_state();
    let status = delete_email("test-email-1", &mut state);

    assert_eq!(status, StatusCode::NoContent);
    assert_eq!(status.as_u16(), 204);

    // Verify the email was deleted
    let emails = get_emails(&state);
    assert_eq!(emails.len(), 1);
    assert_eq!(emails[0].id, "test-email-2");
}

#[test]
fn test_delete_nonexistent_email() {
    let mut state = create_http_state();
    let status = delete_email("nonexistent", &mut state);

    // Should return 404 Not Found
    assert_eq!(status, StatusCode::NotFound);
    let emails = get_emails(&state);
    assert_eq!(emails.len(), 2);
    assert_eq!(emails[0].id, "test-email-1");
    assert_eq!(emails[1].id, "test-email-2");
}

#[test]
fn test_delete_all_emails() {
    let mut state = create_http_state();
    let status = delete_all_emails(&mut state);

    assert_eq!(status, StatusCode::NoContent);

    // Verify all emails were deleted
    let emails = get_emails(&state);
    assert_eq!(emails.len(), 0);
}

#[test]
fn test_get_attachment() {
    let state = create_http_state();
    let response = get_attachment("test-email-2", "test-attachment-1", &state).unwrap();

    // Check content type header
    assert_eq!(response.content_type, "text/plain");

    // Check content disposition header
    assert_eq!(
        response.content_disposition,
        "attachment; filename=\"test.txt\""
    );

    // Check body content
    assert_eq!(response.body, vec![116, 101, 115, 116]); // "test" in bytes
}

#[test]
fn test_get_attachment_not_found() {
    let state = create_http_state();

    // Test with non-existent email
    let response = get_attachment("nonexistent", "test-attachment-1", &state);
    assert_eq!(response.err(), Some(StatusCode::NotFound));

    // Test with non-existent attachment
    let response = get_attachment("test-email-2", "nonexistent", &state);
    assert_eq!(response.err(), Some(StatusCode::NotFound));
}

#[test]
fn attachment_without_content_is_not_found() {
    let mut state = create_http_state();
    let mut emails = get_emails(&state);
    emails[1].attachments[0].data = None;
    state.emails = Store::from_vec(emails);
    let response = get_attachment("test-email-2", "test-attachment-1", &state);
    assert_eq!(response.err(), Some(StatusCode::NotFound));
    let response = get_attachment("test-email-1", "test-attachment-1", &state);
    assert_eq!(response.err(), Some(StatusCode::NotFound));
}

#[test]
fn test_index() {
    // Without the stored page the error page is shown
    let body = index(None);
    assert_eq!(body, "<html><body><h1>Error loading page</h1></body></html>");
    let body = index(Some(b"<html>ok</html>".as_slice()));
    assert_eq!(body, "<html>ok</html>");
    let body = index(Some([b'a', 0xff, b'b'].as_slice()));
    assert_eq!(body, "a\u{fffd}b");
}

#[test]
fn test_static_handler() {
    let name = static_path("/static/test.css");
    assert_eq!(name, "test.css");

    // The file is not stored, so we expect a 404
    let response = static_handler(&name, None);
    assert_eq!(response.status, StatusCode::NotFound);
    assert_eq!(response.content_type, None);

    let text = String::from_utf8_lossy(&response.body);
    assert_eq!(text, "File not found");
}

#[test]
fn static_files_get_a_guessed_media_type() {
    let response = static_handler("css/test.css", Some(b"body {}".to_vec()));
    assert_eq!(response.status, StatusCode::Success);
    assert_eq!(response.status.as_u16(), 200);
    assert_eq!(response.content_type, Some("text/css".to_string()));
    assert_eq!(response.body, b"body {}".to_vec());
    let response = static_handler("file.unknown-extension", Some(vec![1]));
    assert_eq!(
        response.content_type,
        Some("application/octet-stream".to_string())
    );
    for name in [".hidden", "dir.d/file", "noext", "a.", "", "x/.css"] {
        let response = static_handler(name, Some(vec![1]));
        assert_eq!(
            response.content_type,
            Some("application/octet-stream".to_string()),
            "{:?}",
            name
        );
    }
    assert_eq!(media_type("a/b.c/index.HTML"), "text/html");
    assert_eq!(media_type("img/logo.png"), "image/png");
    let response = static_response(Some(vec![9]), "image/png".to_string());
    assert_eq!(response.content_type, Some("image/png".to_string()));
    assert_eq!(response.body, vec![9]);
}

#[test]
fn static_path_strips_every_leading_prefix() {
    assert_eq!(static_path("/static//static/js/app.js"), "js/app.js");
    assert_eq!(static_path("/static//static//static/x"), "x");
    assert_eq!(static_path("/static//x"), "/x");
    assert_eq!(static_path("/static/static/x"), "static/x");
    assert_eq!(static_path("/other/static/x"), "/other/static/x");
    assert_eq!(static_path("/static/"), "");
    assert_eq!(static_path(""), "");
}

#[test]
fn a_feed_replays_the_store_and_then_follows_the_channel() {
    let mut state = create_http_state();
    let (subscriber, snapshot) = handle_socket(&mut state);
    let subscriber = subscriber.unwrap();
    assert_eq!(snapshot.len(), 2);
    assert_eq!(snapshot[0].id, "test-email-1");
    assert_eq!(snapshot[1].id, "test-email-2");
    assert!(state.tx.receive(subscriber).is_none());
    let mut third = snapshot[0].clone();
    third.id = "test-email-3".to_string();
    state.deliver(third);
    assert_eq!(get_emails(&state).len(), 3);
    assert_eq!(state.tx.receive(subscriber).unwrap().id, "test-email-3");
    assert!(state.tx.receive(subscriber).is_none());
    let (second, _) = handle_socket(&mut state);
    assert_ne!(second.unwrap(), subscriber);
}

#[test]
fn store_operations() {
    let mut store = Store::new();
    assert!(store.is_empty());
    let state = create_http_state();
    let emails = get_emails(&state);
    store.append(emails[0].clone());
    store.append(emails[1].clone());
    store.append(emails[0].clone());
    assert_eq!(store.len(), 3);
    assert_eq!(store.get("test-email-2").unwrap().subject, "Test Email 2");
    assert_eq!(store.get_ref("test-email-1").unwrap().subject, "Test Email 1");
    assert!(store.get("missing").is_none());
    assert!(store.get_ref("missing").is_none());
    // Only the first of two messages with one identifier goes
    assert!(store.delete("test-email-1"));
    let left: Vec<String> = store.list().iter().map(|e| e.id.clone()).collect();
    assert_eq!(left, vec!["test-email-2", "test-email-1"]);
    assert!(!store.delete("missing"));
    assert_eq!(store.len(), 2);
    store.clear();
    assert_eq!(store.len(), 0);
    assert!(store.list().is_empty());
}
