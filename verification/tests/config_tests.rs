use latex_telegram_bot::config::{Config, ConfigError};

fn s(x: &str) -> Option<String> {
    Some(x.to_string())
}

#[test]
fn config_needs_token() {
    let r = Config::from_env(None, s("12"), None, None);
    assert!(matches!(r, Err(ConfigError::MissingToken)));
}

#[test]
fn config_needs_chat_id() {
    let r = Config::from_env(s("tok"), None, None, None);
    assert!(matches!(r, Err(ConfigError::MissingChatId)));
}

#[test]
fn config_chat_id_must_be_a_number() {
    let r = Config::from_env(s("tok"), s("abc"), None, None);
    assert!(matches!(r, Err(ConfigError::InvalidChatId)));
    let r = Config::from_env(s("tok"), s(" 12"), None, None);
    assert!(matches!(r, Err(ConfigError::InvalidChatId)));
}

#[test]
fn config_defaults() {
    let cfg = Config::from_env(s("tok"), s("-100123"), None, None).unwrap();
    assert_eq!(cfg.telegram_token, "tok");
    assert_eq!(cfg.chat_id, -100123);
    assert_eq!(cfg.output_dir, "output");
    assert_eq!(cfg.latex_cmd, "pdflatex");
}

#[test]
fn config_given_values() {
    let cfg = Config::from_env(s("tok"), s("42"), s("/tmp/reports"), s("xelatex")).unwrap();
    assert_eq!(cfg.chat_id, 42);
    assert_eq!(cfg.output_dir, "/tmp/reports");
    assert_eq!(cfg.latex_cmd, "xelatex");
}
