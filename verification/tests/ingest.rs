use mailhits::fallback::read_fallback;
use mailhits::ingest::{assemble_fallback, assemble_structured, ingest, render};
use mailhits::mime::{
    read_message, BodyKind, BodyPart, ContentType, HeaderField, HeaderValue, Mailbox,
    ParsedMessage, Part,
};
use mailhits::models::Timestamp;

fn mailbox(name: Option<&str>, address: Option<&str>) -> Mailbox {
    Mailbox {
        name: name.map(str::to_string),
        address: address.map(str::to_string),
    }
}

#[test]
fn addresses_are_shown_with_escaped_brackets() {
    let value = HeaderValue::Address(vec![
        mailbox(Some("Ann"), Some("ann@x")),
        mailbox(None, Some("bob@x")),
        mailbox(Some(" Cy "), None),
    ]);
    assert_eq!(
        render(&value),
        "Ann&lt;ann@x&gt;, &lt;bob@x&gt;, Cy &lt;&gt;"
    );
    assert_eq!(render(&HeaderValue::Address(Vec::new())), "");
}

#[test]
fn content_types_are_shown_with_their_parameters() {
    let value = HeaderValue::ContentType(ContentType {
        c_type: "multipart".to_string(),
        c_subtype: Some("mixed".to_string()),
        attributes: Some(vec![
            ("boundary".to_string(), "b1".to_string()),
            ("charset".to_string(), "utf-8".to_string()),
        ]),
    });
    assert_eq!(render(&value), "multipart/mixed; boundary=b1; charset=utf-8");
    let bare = HeaderValue::ContentType(ContentType {
        c_type: "text".to_string(),
        c_subtype: None,
        attributes: None,
    });
    assert_eq!(render(&bare), "text/; ");
    let empty = HeaderValue::ContentType(ContentType {
        c_type: "text".to_string(),
        c_subtype: Some("plain".to_string()),
        attributes: Some(Vec::new()),
    });
    assert_eq!(render(&empty), "text/plain; ");
}

#[test]
fn text_dates_and_other_values_are_shown_as_they_are() {
    assert_eq!(render(&HeaderValue::Text(" a <b> ".to_string())), " a <b> ");
    assert_eq!(
        render(&HeaderValue::DateTime("2003-07-01T10:52:37+02:00".to_string())),
        "2003-07-01T10:52:37+02:00"
    );
    assert_eq!(render(&HeaderValue::Other("Empty".to_string())), "Empty");
}

#[test]
fn structured_assembly() {
    let parsed = ParsedMessage {
        headers: vec![
            HeaderField {
                name: "X-A".to_string(),
                value: HeaderValue::Text("first".to_string()),
            },
            HeaderField {
                name: "To".to_string(),
                value: HeaderValue::Address(vec![mailbox(Some("Bo"), Some("bo@x"))]),
            },
            HeaderField {
                name: "X-A".to_string(),
                value: HeaderValue::Text("last".to_string()),
            },
        ],
        subject: None,
        text_parts: vec![
            BodyPart { kind: BodyKind::Html, text: "<i>skipped</i>".to_string() },
            BodyPart { kind: BodyKind::Text, text: "text".to_string() },
            BodyPart { kind: BodyKind::Text, text: "later".to_string() },
        ],
        html_parts: vec![
            BodyPart { kind: BodyKind::Text, text: "text".to_string() },
            BodyPart { kind: BodyKind::Other, text: "[no contents]".to_string() },
        ],
        attachments: vec![
            Part {
                name: None,
                content_type: None,
                contents: vec![1, 2, 3],
            },
            Part {
                name: Some("a.png".to_string()),
                content_type: Some(("image".to_string(), Some("png".to_string()))),
                contents: Vec::new(),
            },
            Part {
                name: Some("b".to_string()),
                content_type: Some(("application".to_string(), None)),
                contents: vec![0],
            },
        ],
    };
    let email = assemble_structured(
        &parsed,
        "s@x".to_string(),
        vec!["r@x".to_string(), "r@x".to_string()],
        "id-1".to_string(),
        Timestamp { secs: 1, nanos: 2 },
        vec!["a1".to_string(), "a2".to_string(), "a3".to_string()],
    );
    assert_eq!(email.id, "id-1");
    assert_eq!(email.received_at, Timestamp { secs: 1, nanos: 2 });
    assert_eq!(email.from, "s@x");
    assert_eq!(email.to, vec!["r@x", "r@x"]);
    assert_eq!(email.subject, "No Subject");
    assert_eq!(email.text_body, Some("text".to_string()));
    assert_eq!(email.html_body, None);
    assert_eq!(email.headers.len(), 2);
    assert_eq!(email.headers.get("X-A"), Some(&"last".to_string()));
    assert_eq!(email.headers.get("To"), Some(&"Bo&lt;bo@x&gt;".to_string()));
    assert_eq!(email.attachments.len(), 3);
    assert_eq!(email.attachments[0].id, "a1");
    assert_eq!(email.attachments[0].filename, "unnamed");
    assert_eq!(email.attachments[0].content_type, "application/octet-stream");
    assert_eq!(email.attachments[0].size, 3);
    assert_eq!(email.attachments[0].data, Some(vec![1, 2, 3]));
    assert_eq!(email.attachments[1].id, "a2");
    assert_eq!(email.attachments[1].filename, "a.png");
    assert_eq!(email.attachments[1].content_type, "image/png");
    assert_eq!(email.attachments[1].size, 0);
    assert_eq!(email.attachments[1].data, Some(Vec::new()));
    assert_eq!(email.attachments[2].content_type, "application/");
}

#[test]
fn fallback_reads_headers_and_body() {
    let raw = "From: a@x\r\n\
               Subject: Hello\r\n\
               \tworld  \r\n\
               no colon here\r\n\
               X-Empty:\r\n\
               Subject : Second: value \r\n\
               Content-Type: text/html; charset=utf-8\r\n\
               \r\n\
               <p>one</p>\r\n\
               \r\n\
               two\r\n";
    let found = read_fallback(raw);
    assert_eq!(found.headers.len(), 4);
    assert_eq!(found.headers.get("From"), Some(&"a@x".to_string()));
    assert_eq!(found.headers.get("X-Empty"), Some(&String::new()));
    assert_eq!(found.headers.get("Subject"), Some(&"Second: value".to_string()));
    assert_eq!(
        found.headers.get("Content-Type"),
        Some(&"text/html; charset=utf-8".to_string())
    );
    assert_eq!(found.subject, "Second: value");
    assert!(found.is_html);
    assert_eq!(found.body, "<p>one</p>\n\ntwo");
}

#[test]
fn fallback_continuation_lines_join_with_one_space() {
    let found = read_fallback("Subject: Hello\n   big   \n\twide world\n\nbody");
    assert_eq!(found.subject, "Hello big wide world");
    assert_eq!(found.body, "body");
    assert!(!found.is_html);
    let found = read_fallback(" lead: er\nSubject: s\n");
    assert_eq!(found.headers.get("lead"), Some(&"er".to_string()));
    assert_eq!(found.subject, "s");
    assert_eq!(found.body, "");
}

#[test]
fn fallback_defaults() {
    let found = read_fallback("");
    assert_eq!(found.subject, "No Subject");
    assert_eq!(found.body, "");
    assert!(!found.is_html);
    assert_eq!(found.headers.len(), 0);
    let found = read_fallback("\nSubject: in the body\n");
    assert_eq!(found.subject, "No Subject");
    assert_eq!(found.body, "Subject: in the body");
    let found = read_fallback("subject: lower\ncontent-type: text/html\n\nx");
    assert_eq!(found.subject, "No Subject");
    assert!(!found.is_html);
    let found = read_fallback("Content-Type: TEXT/HTML\n\nx");
    assert!(!found.is_html);
}

#[test]
fn fallback_assembly_has_exactly_one_body() {
    let plain = assemble_fallback(
        "Subject: p\nContent-Type: text/plain\n\nhi",
        "s@x".to_string(),
        vec!["r@x".to_string()],
        "id-p".to_string(),
        Timestamp { secs: 3, nanos: 4 },
    );
    assert_eq!(plain.id, "id-p");
    assert_eq!(plain.received_at, Timestamp { secs: 3, nanos: 4 });
    assert_eq!(plain.from, "s@x");
    assert_eq!(plain.to, vec!["r@x"]);
    assert_eq!(plain.subject, "p");
    assert_eq!(plain.text_body, Some("hi".to_string()));
    assert_eq!(plain.html_body, None);
    assert!(plain.attachments.is_empty());
    let html = assemble_fallback(
        "Content-Type: text/html\n\n<b>hi</b>",
        "s@x".to_string(),
        Vec::new(),
        "id-h".to_string(),
        Timestamp { secs: 0, nanos: 0 },
    );
    assert_eq!(html.subject, "No Subject");
    assert_eq!(html.text_body, None);
    assert_eq!(html.html_body, Some("<b>hi</b>".to_string()));
    assert!(html.to.is_empty());
}

#[test]
fn structured_reading_of_a_real_message() {
    let raw = "From: Ann Example <ann@example.com>\r\n\
               To: bob@example.com, \"Cy\" <cy@example.com>\r\n\
               Subject: Greetings\r\n\
               Date: Tue, 1 Jul 2003 10:52:37 +0200\r\n\
               References: <a@x> <b@y>\r\n\
               Content-Type: text/plain; charset=utf-8\r\n\
               \r\n\
               Hello there";
    let parsed = read_message(raw.as_bytes()).unwrap();
    assert_eq!(parsed.subject, Some("Greetings".to_string()));
    assert_eq!(parsed.text_parts.len(), 1);
    assert_eq!(parsed.text_parts[0].kind, BodyKind::Text);
    assert_eq!(parsed.text_parts[0].text, "Hello there");
    // The parser lists a lone plain-text part among the HTML bodies too
    assert_eq!(parsed.html_parts.len(), 1);
    assert_eq!(parsed.html_parts[0].kind, BodyKind::Text);
    assert!(parsed.attachments.is_empty());
    let names: Vec<&str> = parsed.headers.iter().map(|h| h.name.as_str()).collect();
    assert_eq!(
        names,
        vec!["From", "To", "Subject", "Date", "References", "Content-Type"]
    );
    let email = ingest(raw.as_bytes(), "ann@example.com".to_string(), vec!["bob@example.com".to_string()]);
    assert_eq!(email.subject, "Greetings");
    assert_eq!(email.text_body, Some("Hello there".to_string()));
    assert_eq!(email.html_body, None);
    assert_eq!(email.headers.len(), 6);
    assert_eq!(
        email.headers.get("From"),
        Some(&"Ann Example&lt;ann@example.com&gt;".to_string())
    );
    assert_eq!(
        email.headers.get("To"),
        Some(&"&lt;bob@example.com&gt;, Cy&lt;cy@example.com&gt;".to_string())
    );
    assert_eq!(email.headers.get("Subject"), Some(&"Greetings".to_string()));
    assert_eq!(
        email.headers.get("Date"),
        Some(&"2003-07-01T10:52:37+02:00".to_string())
    );
    assert_eq!(
        email.headers.get("References"),
        Some(&"TextList([\"a@x\", \"b@y\"])".to_string())
    );
    assert_eq!(
        email.headers.get("Content-Type"),
        Some(&"text/plain; charset=utf-8".to_string())
    );
    // A fresh identifier in its hyphenated form, and the time of capture
    assert_eq!(email.id.len(), 36);
    assert_eq!(email.id.matches('-').count(), 4);
    assert!(email.received_at.secs > 1_577_836_800);
    assert!(email.received_at.nanos < 2_000_000_000);
    let again = ingest(raw.as_bytes(), "a@x".to_string(), Vec::new());
    assert_ne!(again.id, email.id);
}

#[test]
fn the_last_of_repeated_headers_wins() {
    let raw = "X-Tag: one\r\nSubject: s\r\nX-Tag: two\r\n\r\nbody";
    let email = ingest(raw.as_bytes(), "a@x".to_string(), vec!["b@x".to_string()]);
    assert_eq!(email.headers.get("X-Tag"), Some(&"two".to_string()));
    assert_eq!(email.headers.len(), 2);
}

#[test]
fn attachments_get_fresh_ids() {
    let raw = "Subject: files\r\n\
               Content-Type: multipart/mixed; boundary=b\r\n\
               \r\n\
               --b\r\n\
               Content-Type: text/plain\r\n\
               \r\n\
               body\r\n\
               --b\r\n\
               Content-Type: application/pdf\r\n\
               Content-Disposition: attachment; filename=\"one.pdf\"\r\n\
               Content-Transfer-Encoding: base64\r\n\
               \r\n\
               AQID\r\n\
               --b\r\n\
               Content-Disposition: attachment\r\n\
               Content-Type: application/octet-stream\r\n\
               \r\n\
               raw\r\n\
               --b--";
    let email = ingest(raw.as_bytes(), "a@x".to_string(), vec!["b@x".to_string()]);
    assert_eq!(email.attachments.len(), 2);
    assert_eq!(email.attachments[0].filename, "one.pdf");
    assert_eq!(email.attachments[0].content_type, "application/pdf");
    assert_eq!(email.attachments[0].data, Some(vec![1, 2, 3]));
    assert_eq!(email.attachments[0].size, 3);
    assert_eq!(email.attachments[1].filename, "unnamed");
    assert_eq!(email.attachments[1].content_type, "application/octet-stream");
    assert_eq!(email.attachments[1].size, email.attachments[1].data.as_ref().unwrap().len());
    assert_ne!(email.attachments[0].id, email.attachments[1].id);
    assert_ne!(email.attachments[0].id, email.id);
    assert_eq!(email.attachments[0].id.len(), 36);
}

#[test]
fn input_without_headers_takes_the_fallback() {
    assert!(read_message(b"").is_none());
    let email = ingest(b"", "a@x".to_string(), vec!["b@x".to_string()]);
    assert_eq!(email.subject, "No Subject");
    assert_eq!(email.text_body, Some(String::new()));
    assert_eq!(email.html_body, None);
    assert_eq!(email.headers.len(), 0);
    assert!(email.attachments.is_empty());
    assert_eq!(email.from, "a@x");
    assert_eq!(email.to, vec!["b@x"]);
}

#[test]
fn lines_without_a_colon_take_the_fallback() {
    assert!(read_message(b"just some words\n").is_none());
    let email = ingest(b"just some words\n", "a@x".to_string(), Vec::new());
    assert_eq!(email.headers.len(), 0);
    assert_eq!(email.subject, "No Subject");
    assert_eq!(email.text_body, Some(String::new()));
    assert_eq!(email.html_body, None);
    assert!(read_message(&[0xff, b'k', b'\n', 0xfe, b'\n']).is_none());
    let email = ingest(&[0xff, b'k', b'\n', 0xfe, b'\n'], "a@x".to_string(), Vec::new());
    assert_eq!(email.headers.len(), 0);
    assert_eq!(email.text_body, Some(String::new()));
}

#[test]
fn a_message_of_html_alone_has_no_text_body() {
    let raw = "Subject: page\r\nContent-Type: text/html\r\n\r\n<p>hi</p>";
    let email = ingest(raw.as_bytes(), "a@x".to_string(), Vec::new());
    assert_eq!(email.html_body, Some("<p>hi</p>".to_string()));
    assert_eq!(email.text_body, None);
}

#[test]
fn both_bodies_of_an_alternative() {
    let raw = "Subject: both\r\n\
               Content-Type: multipart/alternative; boundary=b\r\n\
               \r\n\
               --b\r\n\
               Content-Type: text/plain\r\n\
               \r\n\
               plain\r\n\
               --b\r\n\
               Content-Type: text/html\r\n\
               \r\n\
               <b>rich</b>\r\n\
               --b--";
    let email = ingest(raw.as_bytes(), "a@x".to_string(), Vec::new());
    assert_eq!(email.text_body, Some("plain".to_string()));
    assert_eq!(email.html_body, Some("<b>rich</b>".to_string()));
}
