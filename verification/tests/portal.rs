use hzii_net::crypto::{encrypt_with_iv, CryptoError};
use hzii_net::portal::{
    captcha_code_from, captcha_form, http_status_error, keepalive_form, login_form, logout_form,
    logout_result, message_after_hash, parse_captcha_response, parse_keepalive_response,
    parse_login_response, parse_number, CaptchaJson, JsonScalar, PortalError, PortalSite,
};
use hzii_net::crypto::decrypt;

#[test]
fn parses_login_response() {
    let username = "test-user";
    let encrypted = encrypt_with_iv(username, "0123456789ABCDEF").unwrap();
    let response =
        format!("{encrypted}&2026-06-23 15:28:55&172.19.61.130&session-token&451&123456&0&1");
    let info = parse_login_response(&response, username).unwrap();
    assert_eq!(info.username, username);
    assert_eq!(info.keepalive_interval, 451);
    assert_eq!(info.secret, "session-token");
}

#[test]
fn parses_keepalive_response() {
    let response = "451&1095&1&2026-06-23 15:18:21&test-user&172.19.61.130&0&1";
    let info = parse_keepalive_response(response).unwrap();
    assert_eq!(info.next_interval, 451);
    assert_eq!(info.online_duration, 1095);
    assert_eq!(info.username, "test-user");
}

#[test]
fn classifies_offline_response() {
    assert!(matches!(
        parse_keepalive_response("0#offline"),
        Err(PortalError::Offline(_))
    ));
}

#[test]
fn accepts_captcha_result_without_verify() {
    assert_eq!(parse_captcha_response(r#"{"result":"fail"}"#).unwrap(), None);
    assert_eq!(
        parse_captcha_response(r#"{"verify":1,"code":"a1b2"}"#).unwrap(),
        Some("a1b2".to_owned())
    );
}

#[test]
fn login_reply_fields_are_taken_over() {
    let encrypted = encrypt_with_iv("u1", "0123456789ABCDEF").unwrap();
    let response = format!("  {encrypted}&t&ip&s&0&99&1&0\r\n");
    let info = parse_login_response(&response, "u1").unwrap();
    assert_eq!(info.login_time, "t");
    assert_eq!(info.login_ip, "ip");
    assert_eq!(info.keepalive_interval, 0);
    assert_eq!(info.unix_login_time, "99");
    assert!(info.must_change_password);
    assert!(!info.can_change_password);
}

#[test]
fn login_refusals() {
    match parse_login_response("0#密码错误", "u") {
        Err(PortalError::Authentication(m)) => assert_eq!(m, "密码错误"),
        _ => panic!(),
    }
    match parse_login_response("1#http://next", "u") {
        Err(PortalError::SecondaryAuthentication(m)) => assert_eq!(m, "http://next"),
        _ => panic!(),
    }
}

#[test]
fn login_reply_errors() {
    match parse_login_response("a&b&c", "u") {
        Err(PortalError::InvalidResponse(m)) => assert_eq!(m, "登录响应应至少有 8 个字段，实际为 3"),
        _ => panic!(),
    }
    let other = encrypt_with_iv("other", "0123456789ABCDEF").unwrap();
    match parse_login_response(&format!("{other}&t&ip&s&451&1&0&1"), "u") {
        Err(PortalError::InvalidResponse(m)) => assert_eq!(m, "登录响应中的用户名与请求不一致"),
        _ => panic!(),
    }
    let mine = encrypt_with_iv("u", "0123456789ABCDEF").unwrap();
    match parse_login_response(&format!("{mine}&t&ip&&451&1&0&1"), "u") {
        Err(PortalError::InvalidResponse(m)) => assert_eq!(m, "登录响应缺少 secret"),
        _ => panic!(),
    }
    match parse_login_response(&format!("{mine}&t&ip&s&-1&1&0&1"), "u") {
        Err(PortalError::InvalidResponse(m)) => assert_eq!(m, "登录保活间隔 不是有效的非负整数"),
        _ => panic!(),
    }
    assert!(matches!(
        parse_login_response("short&t&ip&s&451&1&0&1", "u"),
        Err(PortalError::Crypto(CryptoError::InvalidData(_)))
    ));
}

#[test]
fn keepalive_reply_errors() {
    match parse_keepalive_response("1&2&3") {
        Err(PortalError::InvalidResponse(m)) => assert_eq!(m, "保活响应应至少有 8 个字段，实际为 3"),
        _ => panic!(),
    }
    match parse_keepalive_response("x&1&1&t&u&ip&0&1") {
        Err(PortalError::InvalidResponse(m)) => assert_eq!(m, "下次保活间隔 不是有效的非负整数"),
        _ => panic!(),
    }
    match parse_keepalive_response("1&99999999999999999999&1&t&u&ip&0&1") {
        Err(PortalError::InvalidResponse(m)) => assert_eq!(m, "在线时长 不是有效的非负整数"),
        _ => panic!(),
    }
    match parse_keepalive_response("0#") {
        Err(PortalError::Offline(m)) => assert_eq!(m, "服务器未返回错误详情"),
        _ => panic!(),
    }
}

#[test]
fn keepalive_flags_and_extra_fields() {
    let info = parse_keepalive_response("+7&0&x&t&u&ip&1&2&extra").unwrap();
    assert_eq!(info.next_interval, 7);
    assert!(info.must_change_password);
    assert!(info.can_change_password);
    assert_eq!(info.login_ip, "ip");
    assert_eq!(info.login_time, "t");
}

#[test]
fn numbers_follow_from_str() {
    assert_eq!(parse_number("18446744073709551615", "f").unwrap(), u64::MAX);
    assert!(parse_number("18446744073709551616", "f").is_err());
    assert_eq!(parse_number("+0", "f").unwrap(), 0);
    assert!(parse_number("+", "f").is_err());
    assert!(parse_number("", "f").is_err());
    assert!(parse_number(" 1", "f").is_err());
    match parse_number("1.5", "间隔") {
        Err(PortalError::InvalidResponse(m)) => assert_eq!(m, "间隔 不是有效的非负整数"),
        _ => panic!(),
    }
}

#[test]
fn excerpts_after_hash() {
    assert_eq!(message_after_hash("0#a#b"), "a#b");
    assert_eq!(message_after_hash("no hash"), "no hash");
    assert_eq!(message_after_hash("0#  x\ty \n"), "x y");
    let long = format!("0#{}", "字".repeat(300));
    assert_eq!(message_after_hash(&long).chars().count(), 200);
}

#[test]
fn captcha_replies() {
    assert_eq!(parse_captcha_response(r#"{"verify":"1","code":"z"}"#).unwrap(), Some("z".to_owned()));
    assert_eq!(parse_captcha_response(r#"{"verify":true,"code":"z"}"#).unwrap(), Some("z".to_owned()));
    assert_eq!(parse_captcha_response(r#"{"verify":0,"code":"z"}"#).unwrap(), None);
    assert_eq!(parse_captcha_response(r#"{"verify":1.0,"code":"z"}"#).unwrap(), None);
    assert_eq!(parse_captcha_response(r#"[1]"#).unwrap(), None);
    match parse_captcha_response(r#"{"verify":1,"code":""}"#) {
        Err(PortalError::InvalidResponse(m)) => assert_eq!(m, "验证码响应缺少 code"),
        _ => panic!(),
    }
    match parse_captcha_response(r#"{"verify":1}"#) {
        Err(PortalError::InvalidResponse(m)) => assert_eq!(m, "验证码响应缺少 code"),
        _ => panic!(),
    }
    match parse_captcha_response("not json") {
        Err(PortalError::InvalidResponse(m)) => assert!(m.starts_with("验证码接口不是有效 JSON：")),
        _ => panic!(),
    }
}

#[test]
fn captcha_code_from_read_members() {
    let read = |verify: Option<JsonScalar>, code: Option<&str>| CaptchaJson {
        verify,
        code: code.map(|c| c.to_owned()),
    };
    let text = |t: &str| Some(JsonScalar { integer: None, text: Some(t.to_owned()), boolean: None });
    assert_eq!(captcha_code_from(Ok(read(text("+1"), Some("c")))).unwrap(), Some("c".to_owned()));
    assert_eq!(captcha_code_from(Ok(read(text("-1"), Some("c")))).unwrap(), None);
    assert_eq!(captcha_code_from(Ok(read(text("x"), Some("c")))).unwrap(), None);
    assert_eq!(captcha_code_from(Ok(read(None, Some("c")))).unwrap(), None);
    match captcha_code_from(Err("bad".to_owned())) {
        Err(PortalError::InvalidResponse(m)) => assert_eq!(m, "验证码接口不是有效 JSON：bad"),
        _ => panic!(),
    }
}

#[test]
fn logout_outcomes() {
    assert!(logout_result("1#ok").is_ok());
    assert!(logout_result("").is_ok());
    match logout_result("0#fail") {
        Err(PortalError::Authentication(m)) => assert_eq!(m, "fail"),
        _ => panic!(),
    }
}

#[test]
fn http_status_keeps_excerpt() {
    match http_status_error(502, "  bad\u{7}gateway  ") {
        PortalError::HttpStatus { status, body } => {
            assert_eq!(status, 502);
            assert_eq!(body, "bad gateway");
        }
        _ => panic!(),
    }
}

#[test]
fn site_addresses() {
    let site = PortalSite::new("http://10.10.0.10:8008//");
    assert_eq!(site.server, "http://10.10.0.10:8008");
    assert_eq!(site.origin, "http://10.10.0.10:8008");
    assert_eq!(site.referer, "http://10.10.0.10:8008/portal/local/index.html");
    assert_eq!(site.url("/portal.cgi"), "http://10.10.0.10:8008/portal.cgi");
}

#[test]
fn request_forms() {
    assert_eq!(captcha_form(), vec![("submit".to_owned(), "submit".to_owned())]);
    assert_eq!(
        keepalive_form("tok"),
        vec![("secret".to_owned(), "tok".to_owned()), ("submit".to_owned(), "submit".to_owned())]
    );
    let logout = logout_form("u", "tok", 1);
    assert_eq!(logout[0], ("username".to_owned(), "u".to_owned()));
    assert_eq!(logout[2], ("language".to_owned(), "1".to_owned()));
    assert_eq!(logout.len(), 4);
}

#[test]
fn login_form_encodes_credentials() {
    let form = login_form("user", "pass", "null", 0, "c0de").unwrap();
    let names: Vec<&str> = form.iter().map(|(n, _)| n.as_str()).collect();
    assert_eq!(names, ["username", "password", "uplcyid", "language", "code", "submit"]);
    assert_eq!(decrypt(&form[0].1).unwrap(), "user");
    assert_eq!(decrypt(&form[1].1).unwrap(), "pass");
    assert_eq!(form[2].1, "null");
    assert_eq!(form[3].1, "0");
    assert_eq!(form[4].1, "c0de");
    assert!(matches!(
        login_form("", "pass", "null", 0, ""),
        Err(PortalError::Crypto(CryptoError::EmptyInput))
    ));
}

#[test]
fn extra_fields_do_not_change_a_reply() {
    let encrypted = encrypt_with_iv("u1", "0123456789ABCDEF").unwrap();
    let body = format!("{encrypted}&t&ip&s&451&99&0&1");
    let a = parse_login_response(&body, "u1").unwrap();
    let b = parse_login_response(&format!("{body}&extra"), "u1").unwrap();
    assert_eq!((a.username, a.login_time, a.login_ip, a.secret), (b.username, b.login_time, b.login_ip, b.secret));
    assert_eq!((a.keepalive_interval, a.unix_login_time), (b.keepalive_interval, b.unix_login_time));
    assert_eq!((a.must_change_password, a.can_change_password), (b.must_change_password, b.can_change_password));
    let k = "451&1095&1&t&u&ip&0&1";
    let c = parse_keepalive_response(k).unwrap();
    let d = parse_keepalive_response(&format!("{k}&extra")).unwrap();
    assert_eq!((c.next_interval, c.online_duration, c.username), (d.next_interval, d.online_duration, d.username));
}
