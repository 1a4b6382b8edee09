use mailhits::config::{Args, DEFAULT_HTTP_PORT, DEFAULT_SMTP_PORT};

#[test]
fn test_args_default_values() {
    let args = Args::parse_from(&["mailhits"]).unwrap();
    assert_eq!(args.smtp_port, 1025);
    assert_eq!(args.http_port, 3000);
}

#[test]
fn test_args_custom_values() {
    let args = Args::parse_from(&["mailhits", "-s", "2025", "-p", "4000"]).unwrap();
    assert_eq!(args.smtp_port, 2025);
    assert_eq!(args.http_port, 4000);
}

#[test]
fn args_default_is_the_two_default_ports() {
    let args = Args::default();
    assert_eq!(args.smtp_port, DEFAULT_SMTP_PORT);
    assert_eq!(args.http_port, DEFAULT_HTTP_PORT);
    assert_eq!(Args::from_ports(None, None), args);
    assert_eq!(
        Args::from_ports(Some(1), None),
        Args { smtp_port: 1, http_port: 3000 }
    );
    assert_eq!(
        Args::from_ports(None, Some(2)),
        Args { smtp_port: 1025, http_port: 2 }
    );
    assert_eq!(
        Args::from_ports(Some(3), Some(4)),
        Args { smtp_port: 3, http_port: 4 }
    );
}

#[test]
fn args_in_every_form_that_the_command_line_takes() {
    let args = Args::parse_from(&["mailhits", "--http-port", "8080", "--smtp-port=2525"]).unwrap();
    assert_eq!(args, Args { smtp_port: 2525, http_port: 8080 });
    let args = Args::parse_from(&["mailhits", "--http-port=1"]).unwrap();
    assert_eq!(args, Args { smtp_port: 1025, http_port: 1 });
    let args = Args::parse_from(&["mailhits", "-s2025", "-p=4000"]).unwrap();
    assert_eq!(args, Args { smtp_port: 2025, http_port: 4000 });
    let args = Args::parse_from(&["mailhits", "-s", "65535"]).unwrap();
    assert_eq!(args, Args { smtp_port: 65535, http_port: 3000 });
}

#[test]
fn args_that_are_refused() {
    for line in [
        vec!["mailhits", "-s", "65536"],
        vec!["mailhits", "-p", "12a"],
        vec!["mailhits", "-p", ""],
        vec!["mailhits", "--verbose"],
        vec!["mailhits", "-s", "1", "extra"],
        vec!["mailhits", "-s"],
        vec!["mailhits", "-s", "1", "--smtp-port=2"],
    ] {
        let refused = Args::parse_from(&line).unwrap_err();
        assert!(refused.is_error, "{:?}", line);
        assert!(!refused.message.is_empty(), "{:?}", line);
    }
}

#[test]
fn a_request_for_help_is_no_error() {
    let help = Args::parse_from(&["mailhits", "--help"]).unwrap_err();
    assert!(!help.is_error);
    assert!(help.message.contains("--smtp-port"));
    assert!(help.message.contains("--http-port"));
    assert!(help.message.contains("SMTP server port"));
    assert!(help.message.contains("HTTP server port"));
}
