use hzii_net::config::{Config, ConfigError};

fn sample() -> Config {
    Config::default()
}

#[test]
fn defaults() {
    let c = Config::default();
    assert_eq!(c.server, "http://10.10.0.10:8008");
    assert_eq!(c.uplcyid, "null");
    assert_eq!(c.language, 0);
    assert_eq!(c.timeout_seconds, 30);
    assert!(c.check_captcha);
    assert_eq!(c.retry_seconds, 15);
    assert_eq!(c.keepalive_margin_seconds, 10);
    assert_eq!(c.max_keepalive_failures, 3);
    assert!(c.username.is_none() && c.password.is_none() && c.state_file.is_none());
    assert!(c.validate().is_ok());
}

#[test]
fn credentials_need_both_values() {
    let mut c = sample();
    assert_eq!(c.credentials().unwrap_err(), ConfigError::MissingUsername);
    c.username = Some(String::new());
    assert_eq!(c.credentials().unwrap_err(), ConfigError::MissingUsername);
    c.username = Some("u".to_owned());
    assert_eq!(c.credentials().unwrap_err(), ConfigError::MissingPassword);
    c.password = Some(String::new());
    assert_eq!(c.credentials().unwrap_err(), ConfigError::MissingPassword);
    c.password = Some("p".to_owned());
    assert_eq!(c.credentials().unwrap(), ("u".to_owned(), "p".to_owned()));
}

#[test]
fn validation_order() {
    let mut c = sample();
    c.server = "https://x".to_owned();
    c.language = 2;
    assert_eq!(c.validate().unwrap_err(), ConfigError::NotHttp);
    c.server = "http://x".to_owned();
    assert_eq!(c.validate().unwrap_err(), ConfigError::BadLanguage);
    c.language = 1;
    c.retry_seconds = 0;
    assert_eq!(c.validate().unwrap_err(), ConfigError::ZeroInterval);
    c.retry_seconds = 1;
    c.timeout_seconds = 0;
    assert_eq!(c.validate().unwrap_err(), ConfigError::ZeroInterval);
    c.timeout_seconds = 1;
    c.max_keepalive_failures = 0;
    assert_eq!(c.validate().unwrap_err(), ConfigError::ZeroFailureLimit);
    c.max_keepalive_failures = 1;
    assert!(c.validate().is_ok());
    assert_eq!(ConfigError::NotHttp.message(), "本项目仅支持 HTTP Portal，server 必须以 http:// 开头");
}

#[test]
fn environment_takes_precedence() {
    let mut c = sample();
    c.username = Some("file-user".to_owned());
    c.password = Some("file-pass".to_owned());
    let r = c
        .apply_environment(Some("http://10.0.0.1/".to_owned()), Some("env-user".to_owned()), None)
        .unwrap();
    assert_eq!(r.server, "http://10.0.0.1");
    assert_eq!(r.username.as_deref(), Some("env-user"));
    assert_eq!(r.password.as_deref(), Some("file-pass"));
}

#[test]
fn environment_server_is_checked() {
    let c = sample();
    assert!(matches!(
        c.apply_environment(Some("ftp://x".to_owned()), None, None),
        Err(ConfigError::NotHttp)
    ));
    let c = sample();
    assert_eq!(c.apply_environment(None, None, None).unwrap().server, "http://10.10.0.10:8008");
}

#[test]
fn state_path_prefers_configured_file() {
    let mut c = sample();
    assert_eq!(c.state_path("/tmp/default.json".to_owned()), "/tmp/default.json");
    c.state_file = Some("/var/lib/hzii/session.json".to_owned());
    assert_eq!(c.state_path("/tmp/default.json".to_owned()), "/var/lib/hzii/session.json");
}
