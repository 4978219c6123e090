use crow::hooks::{command_from_words, parse_hook, HookError};
use crow::logger::{LogLevel, Logger};

#[test]
fn hooks_split_like_a_shell() {
    let c = parse_hook("echo 'hello world' x").unwrap().unwrap();
    assert_eq!(c.program, "echo");
    assert_eq!(c.args, vec!["hello world".to_string(), "x".to_string()]);
    assert!(parse_hook("   ").unwrap().is_none());
    assert!(matches!(parse_hook("echo 'open"), Err(HookError::Unparsable(_))));
    assert!(command_from_words("x", Some(Vec::new())).unwrap().is_none());
    assert!(matches!(command_from_words("x", None), Err(HookError::Unparsable(h)) if h == "x"));
}

#[test]
fn logger_settings_and_layout() {
    let mut l = Logger::new();
    assert!(!l.quiet && !l.verbose);
    l.verbose(true);
    assert!(l.verbose);
    assert_eq!(l.format_message(Some(LogLevel::Warn), "careful", Some(1)).unwrap(), "\x1b[33m  Warning: careful\x1b[0m");
    assert_eq!(l.format_message(None, "plain", Some(2)).unwrap(), "    plain");
    assert_eq!(l.format_message(Some(LogLevel::Error), "bad", None).unwrap(), "\x1b[31mError: bad\x1b[0m");
    assert_eq!(l.format_message(Some(LogLevel::Custom("\x1b[35m")), "c", None).unwrap(), "\x1b[35mc\x1b[0m");
    l.quiet(true);
    assert!(l.format_message(Some(LogLevel::Info), "hidden", None).is_none());
}
