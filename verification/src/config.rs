//! Client settings: what the configuration file and the environment give,
//! and the checks the client makes of them.
use vstd::prelude::*;
use vstd::string::StringExecFns;

use crate::text::{starts_with, trim_end_char, trim_end_matches_char};

verus! {

/// Client settings. Every field has a default, so a configuration file may
/// leave any of them out.
#[derive(Clone)]
pub struct Config {
    /// Base address of the portal; only `http://` is supported.
    pub server: String,
    pub username: Option<String>,
    pub password: Option<String>,
    pub uplcyid: String,
    /// 0 for Chinese, 1 for English.
    pub language: u8,
    pub timeout_seconds: u64,
    /// Whether to ask the portal for a captcha code before logging in.
    pub check_captcha: bool,
    pub retry_seconds: u64,
    /// How many seconds before the server's keep-alive interval to renew.
    pub keepalive_margin_seconds: u64,
    /// Keep-alive failures in a row after which the session is dropped.
    pub max_keepalive_failures: u32,
    /// Where the session is kept; a file in the temporary directory by default.
    pub state_file: Option<String>,
}

/// What is wrong with the settings.
#[derive(Debug, PartialEq, Eq, Structural)]
pub enum ConfigError {
    MissingUsername,
    MissingPassword,
    NotHttp,
    BadLanguage,
    ZeroInterval,
    ZeroFailureLimit,
}

/// The message shown to the user for each problem.
pub open spec fn config_error_message(e: ConfigError) -> Seq<char> {
    match e {
        ConfigError::MissingUsername => "未配置用户名；请设置 username 或 HZII_NET_USERNAME"@,
        ConfigError::MissingPassword => "未配置密码；请设置 password 或 HZII_NET_PASSWORD"@,
        ConfigError::NotHttp => "本项目仅支持 HTTP Portal，server 必须以 http:// 开头"@,
        ConfigError::BadLanguage => "language 只能为 0（中文）或 1（英文）"@,
        ConfigError::ZeroInterval => "timeout_seconds 和 retry_seconds 必须大于 0"@,
        ConfigError::ZeroFailureLimit => "max_keepalive_failures 必须大于 0"@,
    }
}

impl ConfigError {
    /// The message shown to the user.
    pub fn message(&self) -> (r: &'static str)
        ensures
            r@ == config_error_message(*self),
    {
        match self {
            ConfigError::MissingUsername => "未配置用户名；请设置 username 或 HZII_NET_USERNAME",
            ConfigError::MissingPassword => "未配置密码；请设置 password 或 HZII_NET_PASSWORD",
            ConfigError::NotHttp => "本项目仅支持 HTTP Portal，server 必须以 http:// 开头",
            ConfigError::BadLanguage => "language 只能为 0（中文）或 1（英文）",
            ConfigError::ZeroInterval => "timeout_seconds 和 retry_seconds 必须大于 0",
            ConfigError::ZeroFailureLimit => "max_keepalive_failures 必须大于 0",
        }
    }
}

/// A present, non-empty setting.
pub open spec fn is_set(v: Option<String>) -> bool {
    v matches Some(s) && s@.len() > 0
}

/// The first problem that the checks find, in the order they are made.
pub open spec fn settings_problem(
    server: Seq<char>,
    language: u8,
    timeout_seconds: u64,
    retry_seconds: u64,
    max_keepalive_failures: u32,
) -> Option<ConfigError> {
    if !"http://"@.is_prefix_of(server) {
        Some(ConfigError::NotHttp)
    } else if language > 1 {
        Some(ConfigError::BadLanguage)
    } else if timeout_seconds == 0 || retry_seconds == 0 {
        Some(ConfigError::ZeroInterval)
    } else if max_keepalive_failures == 0 {
        Some(ConfigError::ZeroFailureLimit)
    } else {
        None
    }
}

/// The first problem that the checks find in `c`.
pub open spec fn config_problem(c: Config) -> Option<ConfigError> {
    settings_problem(
        c.server@,
        c.language,
        c.timeout_seconds,
        c.retry_seconds,
        c.max_keepalive_failures,
    )
}

/// Settings that pass the checks.
pub open spec fn is_valid_config(c: Config) -> bool {
    config_problem(c) is None
}

/// An optional text setting with the environment's value, when there is
/// one, in its place.
pub open spec fn overridden(file: Option<String>, env: Option<String>) -> Option<Seq<char>> {
    match env {
        Some(v) => Some(v@),
        None => match file {
            Some(v) => Some(v@),
            None => None,
        },
    }
}

/// The environment's value, when there is one, wins whatever the file
/// holds (a value, or nothing at all); without it the file's value stays.
pub proof fn lemma_environment_overrides(file: Option<String>, env: Option<String>)
    ensures
        env matches Some(v) ==> overridden(file, env) == Some(v@),
        env is None ==> overridden(file, env) == option_view(file),
        file is None && env is None ==> overridden(file, env) is None,
{
}

pub open spec fn option_view(v: Option<String>) -> Option<Seq<char>> {
    match v {
        Some(s) => Some(s@),
        None => None,
    }
}

impl Default for Config {
    fn default() -> (r: Config)
        ensures
            r.server@ == "http://10.10.0.10:8008"@,
            r.username is None,
            r.password is None,
            r.uplcyid@ == "null"@,
            r.language == 0,
            r.timeout_seconds == 30,
            r.check_captcha,
            r.retry_seconds == 15,
            r.keepalive_margin_seconds == 10,
            r.max_keepalive_failures == 3,
            r.state_file is None,
    {
        Config {
            server: String::from_str("http://10.10.0.10:8008"),
            username: None,
            password: None,
            uplcyid: String::from_str("null"),
            language: 0,
            timeout_seconds: 30,
            check_captcha: true,
            retry_seconds: 15,
            keepalive_margin_seconds: 10,
            max_keepalive_failures: 3,
            state_file: None,
        }
    }
}

fn clone_option(v: &Option<String>) -> (r: Option<String>)
    ensures
        option_view(r) == option_view(*v),
{
    match v {
        Some(s) => Some(s.clone()),
        None => None,
    }
}

impl Config {
    /// The user name and password; both must be set and non-empty.
    pub fn credentials(&self) -> (r: Result<(String, String), ConfigError>)
        ensures
            match r {
                Ok((u, p)) => {
                    &&& is_set(self.username) && is_set(self.password)
                    &&& self.username matches Some(s) && u@ == s@
                    &&& self.password matches Some(s) && p@ == s@
                },
                Err(e) => if !is_set(self.username) {
                    e == ConfigError::MissingUsername
                } else {
                    !is_set(self.password) && e == ConfigError::MissingPassword
                },
            },
    {
        let username = match &self.username {
            Some(v) => {
                if v.as_str().is_empty() {
                    return Err(ConfigError::MissingUsername);
                }
                v.clone()
            },
            None => {
                return Err(ConfigError::MissingUsername);
            },
        };
        let password = match &self.password {
            Some(v) => {
                if v.as_str().is_empty() {
                    return Err(ConfigError::MissingPassword);
                }
                v.clone()
            },
            None => {
                return Err(ConfigError::MissingPassword);
            },
        };
        Ok((username, password))
    }

    /// Where the session is kept: the configured file, or `default_path`
    /// (a file in the temporary directory) when none is configured.
    pub fn state_path(&self, default_path: String) -> (r: String)
        ensures
            r@ == match self.state_file {
                Some(f) => f@,
                None => default_path@,
            },
    {
        match &self.state_file {
            Some(f) => f.clone(),
            None => default_path,
        }
    }

    /// Checks the settings that the client cannot work without.
    pub fn validate(&self) -> (r: Result<(), ConfigError>)
        ensures
            match r {
                Ok(()) => config_problem(*self) is None,
                Err(e) => config_problem(*self) == Some(e),
            },
    {
        if !starts_with(self.server.as_str(), "http://") {
            return Err(ConfigError::NotHttp);
        }
        if self.language > 1 {
            return Err(ConfigError::BadLanguage);
        }
        if self.timeout_seconds == 0 || self.retry_seconds == 0 {
            return Err(ConfigError::ZeroInterval);
        }
        if self.max_keepalive_failures == 0 {
            return Err(ConfigError::ZeroFailureLimit);
        }
        Ok(())
    }

    /// The settings read from the configuration file, with the environment's
    /// server, user name and password in place of the file's where given,
    /// trailing `/` removed from the server, and checked.
    pub fn apply_environment(
        self,
        server: Option<String>,
        username: Option<String>,
        password: Option<String>,
    ) -> (r: Result<Config, ConfigError>)
        ensures
            match r {
                Ok(c) => {
                    &&& c.server@ == trim_end_char(
                        match server {
                            Some(s) => s@,
                            None => self.server@,
                        },
                        '/',
                    )
                    &&& option_view(c.username) == overridden(self.username, username)
                    &&& option_view(c.password) == overridden(self.password, password)
                    &&& c.uplcyid == self.uplcyid
                    &&& c.language == self.language
                    &&& c.timeout_seconds == self.timeout_seconds
                    &&& c.check_captcha == self.check_captcha
                    &&& c.retry_seconds == self.retry_seconds
                    &&& c.keepalive_margin_seconds == self.keepalive_margin_seconds
                    &&& c.max_keepalive_failures == self.max_keepalive_failures
                    &&& option_view(c.state_file) == option_view(self.state_file)
                    &&& is_valid_config(c)
                    &&& (username matches Some(u) ==> (c.username matches Some(x) && x@ == u@))
                    &&& (password matches Some(p) ==> (c.password matches Some(x) && x@ == p@))
                    &&& (username is None ==> option_view(c.username) == option_view(self.username))
                    &&& (password is None ==> option_view(c.password) == option_view(self.password))
                },
                Err(e) => settings_problem(
                    trim_end_char(
                        match server {
                            Some(s) => s@,
                            None => self.server@,
                        },
                        '/',
                    ),
                    self.language,
                    self.timeout_seconds,
                    self.retry_seconds,
                    self.max_keepalive_failures,
                ) == Some(e),
            },
    {
        let mut config = self;
        if let Some(s) = server {
            config.server = s;
        }
        if let Some(u) = username {
            config.username = Some(u);
        }
        if let Some(p) = password {
            config.password = Some(p);
        }
        config.server = trim_end_matches_char(config.server.as_str(), '/');
        match config.validate() {
            Ok(()) => Ok(config),
            Err(e) => Err(e),
        }
    }
}

} // verus!
