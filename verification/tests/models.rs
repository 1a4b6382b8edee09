use mailhits::headers::Headers;
use chrono::Utc;
use mailhits::models::{Attachment, Email, Timestamp};
use uuid::Uuid;
use mailhits::state::{create_app_state, AppState, CHANNEL_CAPACITY};

#[test]
fn test_email_creation() {
    let now = Utc::now();
    let email = Email {
        id: Uuid::new_v4().to_string(),
        received_at: Timestamp {
            secs: now.timestamp(),
            nanos: now.timestamp_subsec_nanos(),
        },
        from: "sender@example.com".to_string(),
        to: vec!["recipient@example.com".to_string()],
        subject: "Test Subject".to_string(),
        text_body: Some("This is a test email".to_string()),
        html_body: Some("<p>This is a test email</p>".to_string()),
        headers: Headers::new(),
        attachments: Vec::new(),
    };

    assert_eq!(email.from, "sender@example.com");
    assert_eq!(email.to[0], "recipient@example.com");
    assert_eq!(email.subject, "Test Subject");
    assert_eq!(email.text_body, Some("This is a test email".to_string()));
    assert_eq!(
        email.html_body,
        Some("<p>This is a test email</p>".to_string())
    );
    assert!(email.attachments.is_empty());
}

#[test]
fn test_attachment_creation() {
    let attachment = Attachment {
        id: Uuid::new_v4().to_string(),
        filename: "test.txt".to_string(),
        content_type: "text/plain".to_string(),
        size: 1024,
        data: Some(vec![0, 1, 2, 3]),
    };

    assert_eq!(attachment.filename, "test.txt");
    assert_eq!(attachment.content_type, "text/plain");
    assert_eq!(attachment.size, 1024);
}

#[test]
fn test_create_app_state() {
    let state = create_app_state();
    let emails = state.emails.list();
    assert_eq!(emails.len(), 0);
}

#[test]
fn new_state_has_the_documented_capacity() {
    let state = AppState::new();
    assert_eq!(state.tx.capacity(), 100);
    assert_eq!(CHANNEL_CAPACITY, 100);
    assert!(state.emails.is_empty());
}

#[test]
fn a_clone_of_an_email_holds_the_same() {
    let mut headers = Headers::new();
    headers.insert("Subject".to_string(), "Copy".to_string());
    let email = Email {
        id: "id-1".to_string(),
        received_at: Timestamp { secs: 5, nanos: 6 },
        from: "a@x".to_string(),
        to: vec!["b@x".to_string(), "c@x".to_string()],
        subject: "Copy".to_string(),
        text_body: None,
        html_body: Some("<p>x</p>".to_string()),
        headers,
        attachments: vec![Attachment {
            id: "att-1".to_string(),
            filename: "f".to_string(),
            content_type: "text/plain".to_string(),
            size: 2,
            data: Some(vec![7, 8]),
        }],
    };
    let copy = email.clone();
    assert_eq!(copy.id, "id-1");
    assert_eq!(copy.received_at, Timestamp { secs: 5, nanos: 6 });
    assert_eq!(copy.to, vec!["b@x".to_string(), "c@x".to_string()]);
    assert_eq!(copy.html_body, Some("<p>x</p>".to_string()));
    assert_eq!(copy.text_body, None);
    assert_eq!(copy.headers.get("Subject"), Some(&"Copy".to_string()));
    assert_eq!(copy.attachments.len(), 1);
    assert_eq!(copy.attachments[0].data, Some(vec![7, 8]));
    assert_eq!(copy.attachments[0].size, 2);
}

#[test]
fn headers_keep_one_value_for_each_name() {
    let mut headers = Headers::new();
    assert_eq!(headers.len(), 0);
    headers.insert("A".to_string(), "1".to_string());
    headers.insert("B".to_string(), "2".to_string());
    headers.insert("A".to_string(), "3".to_string());
    assert_eq!(headers.len(), 2);
    assert_eq!(headers.get("A"), Some(&"3".to_string()));
    assert_eq!(headers.get("B"), Some(&"2".to_string()));
    assert_eq!(headers.get("a"), None);
    let mut entries = headers.entries();
    entries.sort();
    assert_eq!(
        entries,
        vec![
            ("A".to_string(), "3".to_string()),
            ("B".to_string(), "2".to_string())
        ]
    );
    let copy = headers.clone();
    assert_eq!(copy.get("A"), Some(&"3".to_string()));
    assert_eq!(Headers::default().len(), 0);
}
