use framework::cli::{InvalidOption, OptionDefinition, Parsed, Registry, Value};

fn parse(args: &[&str]) -> Result<Parsed, InvalidOption> {
    Registry::default().parse(args.iter().map(|a| a.to_string()).collect())
}

#[test]
fn validate_malformed_option() {
    // missing leading dashes
    let args = vec!["malformed".to_string()];
    match Registry::default().parse(args) {
        Ok(parsed) => {
            assert!(false, "Should have failed but didn't.\nResult: {}", parsed.to_string())
        }
        Err(error) => {
            assert_eq!(r#"Invalid option "malformed"."#, error.msg());
        }
    };
}

#[test]
fn validate_non_existent() {
    let args = vec!["--invalidoption=value".to_string()];
    match Registry::default().parse(args) {
        Ok(parsed) => {
            assert!(false, "Should have failed but didn't.\nResult: {}", parsed.to_string())
        }
        Err(error) => {
            assert_eq!(r#"Invalid option "--invalidoption""#, error.msg());
        }
    };
}

#[test]
fn validate_required_value() {
    let args = vec!["--host".to_string()];
    match Registry::default().parse(args) {
        Ok(parsed) => {
            assert!(false, "Should have failed but didn't.\nResult: {}", parsed.to_string())
        }
        Err(error) => {
            assert_eq!("Option --host requires a value", error.msg());
        }
    };
}

#[test]
fn validate_flag_requires_no_value() {
    let args = vec!["--help=invalidvalue".to_string()];
    match Registry::default().parse(args) {
        Ok(parsed) => {
            assert!(false, "Should have failed but didn't.\nResult: {}", parsed.to_string())
        }
        Err(error) => {
            assert_eq!("Option --help is a flag and cannot accept a value.", error.msg());
        }
    };
}

#[test]
fn parse_host_and_port() {
    let parsed = parse(&["--host=0.0.0.0", "--port=8080"]).unwrap();
    assert_eq!(parsed.host(), "0.0.0.0");
    assert_eq!(parsed.port(), "8080");
    assert!(!parsed.help_requested());
    assert_eq!(parsed.to_string(), "host=0.0.0.0, port=8080");
}

#[test]
fn parse_help_flag_requests_help() {
    let parsed = parse(&["--help"]).unwrap();
    assert!(parsed.help_requested());
    assert_eq!(parsed.to_string(), "help");
}

#[test]
fn parse_no_arguments_gives_no_options() {
    let parsed = parse(&[]).unwrap();
    assert!(!parsed.help_requested());
    assert_eq!(parsed.to_string(), "");
}

#[test]
fn parse_later_value_overrides_earlier() {
    let parsed = parse(&["--port=1", "--port=2"]).unwrap();
    assert_eq!(parsed.port(), "2");
    assert_eq!(parsed.to_string(), "port=2");
}

#[test]
fn parse_first_refusal_decides() {
    let error = parse(&["--host=a", "bad", "--nope"]).unwrap_err();
    assert_eq!(error.signature(), "bad");
    assert_eq!(error.msg(), r#"Invalid option "bad"."#);
    assert_eq!(error.to_string(), r#""bad": Invalid option "bad"."#);
}

#[test]
fn parse_refused_signature_is_whole_argument() {
    let error = parse(&["--unknown=x"]).unwrap_err();
    assert_eq!(error.signature(), "--unknown=x");
    assert_eq!(error.msg(), r#"Invalid option "--unknown""#);
    let error = parse(&["--unknown"]).unwrap_err();
    assert_eq!(error.signature(), "--unknown");
    assert_eq!(error.msg(), r#"Invalid option "--unknown""#);
}

#[test]
fn parse_syntax_edge_cases() {
    // a one-character name, an empty value, a digit first, three dashes
    for arg in ["--h", "--host=", "--1host=a", "---host=a", "--ho st=a", "--host=a\nb", "-"] {
        let error = parse(&[arg]).unwrap_err();
        assert_eq!(error.msg(), &format!("Invalid option \"{}\".", arg));
    }
}

#[test]
fn parse_single_dash_is_an_unregistered_option() {
    let error = parse(&["-host=a"]).unwrap_err();
    assert_eq!(error.msg(), r#"Invalid option "-host""#);
}

#[test]
fn parse_two_equals_signs_are_passed_over() {
    let parsed = parse(&["--host=a=b"]).unwrap();
    assert_eq!(parsed.to_string(), "");
}

#[test]
fn parse_value_may_hold_any_character_but_line_feed() {
    let parsed = parse(&["--host=ünïcode ok"]).unwrap();
    assert_eq!(parsed.host(), "ünïcode ok");
}

#[test]
fn parsed_new_keeps_the_last_value() {
    let parsed = Parsed::new(vec![
        ("host".to_string(), Value::String("a".to_string())),
        ("host".to_string(), Value::String("b".to_string())),
        ("port".to_string(), Value::Flag(true)),
    ]);
    assert_eq!(parsed.host(), "b");
    assert_eq!(parsed.port(), "3000");
}

#[test]
fn parsed_host_of_a_flag_is_the_default() {
    let parsed = Parsed::new(vec![("host".to_string(), Value::Flag(true))]);
    assert_eq!(parsed.host(), "127.0.0.1");
}

#[test]
fn registry_help_lines() {
    let lines = Registry::default().help_lines();
    assert_eq!(
        lines,
        vec![
            "    --host The host the server will run on. Default: 127.0.0.1".to_string(),
            "    --port The port the server will listen to. Default: 3000".to_string(),
            "    --help List run options.".to_string(),
        ]
    );
}

#[test]
fn option_definition_and_invalid_option() {
    let _definition = OptionDefinition::new("--x", Some("-x"), "An option.", None, true);
    let error = InvalidOption::new("--x".to_string(), "message".to_string());
    assert_eq!(error.signature(), "--x");
    assert_eq!(error.msg(), "message");
    assert_eq!(error.to_string(), "\"--x\": message");
}

#[test]
fn option_syntax_agrees_with_its_regular_expression() {
    let re = regex::Regex::new("^--?[a-zA-Z][a-zA-Z0-9]+(?:=.{1,}+)?$").unwrap();
    let pieces = ["", "-", "--", "---", "a", "Z", "9", "=", "x", "é", "\n", " ", "\r", "ab", "host", "h1"];
    let mut count = 0;
    for a in pieces {
        for b in pieces {
            for c in pieces {
                for d in ["", "=", "=v", "==", "=\n", "=a\nb"] {
                    let arg = format!("{a}{b}{c}{d}");
                    let expected = re.is_match(&arg);
                    let refused_as_malformed = match Registry::default().parse(vec![arg.clone()]) {
                        Err(e) => e.msg() == &format!("Invalid option \"{}\".", arg),
                        Ok(_) => false,
                    };
                    assert_eq!(!expected, refused_as_malformed, "argument {:?}", arg);
                    count += 1;
                }
            }
        }
    }
    assert!(count > 20000);
}

#[test]
fn host_and_port_default_when_not_given() {
    let parsed = parse(&[]).unwrap();
    assert_eq!(parsed.host(), "127.0.0.1");
    assert_eq!(parsed.port(), "3000");
    let parsed = parse(&["--help"]).unwrap();
    assert_eq!(parsed.host(), "127.0.0.1");
    assert_eq!(parsed.port(), "3000");
}

#[test]
fn parsed_new_lists_each_name_once() {
    let parsed = Parsed::new(vec![
        ("help".to_string(), Value::Flag(true)),
        ("help".to_string(), Value::Flag(true)),
        ("host".to_string(), Value::String("a".to_string())),
        ("host".to_string(), Value::String("b".to_string())),
    ]);
    assert_eq!(parsed.to_string(), "help, host=b");
    let parsed = Parsed::new(vec![("help".to_string(), Value::Flag(true))]);
    assert_eq!(parsed.to_string(), "help");
}
