//! The portal protocol: the requests the client sends and what it makes of
//! the server's replies.
use vstd::prelude::*;
use vstd::string::StringExecFns;

use crate::crypto::{
    decrypt, decryption, encrypt, encryption_with_iv, is_random_iv, CryptoError, CryptoFault, BLOCK_SIZE,
};
use vstd::utf8::encode_utf8;

pub use crate::text::safe_excerpt;
use crate::text::{
    after_first, chars_of, decimal, excerpt, find_after, parse_i64, parse_i64_chars, parse_u64,
    parse_u64_chars, push_decimal,
    decimal_string, safe_excerpt_chars, split_chars, split_on, starts_with_pair, string_of, trim,
    trim_bounds, trim_end_char, trim_end_matches_char, views_of, is_whitespace,
    lemma_split_on_concat, lemma_split_on_count, lemma_trim_of_trimmed, lemma_trimmed_ends,
};

verus! {

/// Why a portal request did not succeed.
#[derive(Debug)]
pub enum PortalError {
    /// The request could not be carried out.
    Transport(String),
    /// The server answered with an HTTP error status.
    HttpStatus { status: u16, body: String },
    /// The server refused the credentials.
    Authentication(String),
    /// The session is no longer online.
    Offline(String),
    /// The server wants the login to continue in a browser.
    SecondaryAuthentication(String),
    /// The reply does not have the expected shape.
    InvalidResponse(String),
    /// A credential could not be encoded or decoded.
    Crypto(CryptoError),
}

/// The view of a `PortalError`.
pub enum PortalFault {
    Transport(Seq<char>),
    HttpStatus { status: u16, body: Seq<char> },
    Authentication(Seq<char>),
    Offline(Seq<char>),
    SecondaryAuthentication(Seq<char>),
    InvalidResponse(Seq<char>),
    Crypto(CryptoFault),
}

impl View for PortalError {
    type V = PortalFault;

    open spec fn view(&self) -> PortalFault {
        match self {
            PortalError::Transport(m) => PortalFault::Transport(m@),
            PortalError::HttpStatus { status, body } => PortalFault::HttpStatus {
                status: *status,
                body: body@,
            },
            PortalError::Authentication(m) => PortalFault::Authentication(m@),
            PortalError::Offline(m) => PortalFault::Offline(m@),
            PortalError::SecondaryAuthentication(m) => PortalFault::SecondaryAuthentication(m@),
            PortalError::InvalidResponse(m) => PortalFault::InvalidResponse(m@),
            PortalError::Crypto(e) => PortalFault::Crypto(e@),
        }
    }
}

/// What a successful login reply holds.
pub struct LoginInfo {
    pub username: String,
    pub login_time: String,
    pub login_ip: String,
    pub secret: String,
    pub keepalive_interval: u64,
    pub unix_login_time: String,
    pub must_change_password: bool,
    pub can_change_password: bool,
}

pub struct LoginInfoView {
    pub username: Seq<char>,
    pub login_time: Seq<char>,
    pub login_ip: Seq<char>,
    pub secret: Seq<char>,
    pub keepalive_interval: u64,
    pub unix_login_time: Seq<char>,
    pub must_change_password: bool,
    pub can_change_password: bool,
}

impl View for LoginInfo {
    type V = LoginInfoView;

    open spec fn view(&self) -> LoginInfoView {
        LoginInfoView {
            username: self.username@,
            login_time: self.login_time@,
            login_ip: self.login_ip@,
            secret: self.secret@,
            keepalive_interval: self.keepalive_interval,
            unix_login_time: self.unix_login_time@,
            must_change_password: self.must_change_password,
            can_change_password: self.can_change_password,
        }
    }
}

/// What a successful keep-alive reply holds.
pub struct KeepaliveInfo {
    pub next_interval: u64,
    pub online_duration: u64,
    pub login_time: String,
    pub username: String,
    pub login_ip: String,
    pub must_change_password: bool,
    pub can_change_password: bool,
}

pub struct KeepaliveInfoView {
    pub next_interval: u64,
    pub online_duration: u64,
    pub login_time: Seq<char>,
    pub username: Seq<char>,
    pub login_ip: Seq<char>,
    pub must_change_password: bool,
    pub can_change_password: bool,
}

impl View for KeepaliveInfo {
    type V = KeepaliveInfoView;

    open spec fn view(&self) -> KeepaliveInfoView {
        KeepaliveInfoView {
            next_interval: self.next_interval,
            online_duration: self.online_duration,
            login_time: self.login_time@,
            username: self.username@,
            login_ip: self.login_ip@,
            must_change_password: self.must_change_password,
            can_change_password: self.can_change_password,
        }
    }
}

/// The view of a result whose success value has a view.
pub open spec fn result_view<T: View>(r: Result<T, PortalError>) -> Result<T::V, PortalFault> {
    match r {
        Ok(v) => Ok(v@),
        Err(e) => Err(e@),
    }
}

/// The `&`-separated fields of a trimmed reply.
pub open spec fn response_fields(body: Seq<char>) -> Seq<Seq<char>> {
    split_on(trim(body), '&')
}

/// The excerpt of what follows the first `#` of a reply (of the whole reply
/// when it has none).
pub open spec fn message_after(body: Seq<char>) -> Seq<char> {
    excerpt(
        match after_first(body, '#') {
            Some(m) => m,
            None => body,
        },
    )
}

/// A reply that starts with `0#`.
pub open spec fn is_refusal(body: Seq<char>) -> bool {
    starts_with_pair(body, '0', '#')
}

/// The number in a reply field, or the error that names the field.
pub open spec fn number_field(value: Seq<char>, field: Seq<char>) -> Result<u64, PortalFault> {
    match parse_u64(value) {
        Some(n) => Ok(n),
        None => Err(PortalFault::InvalidResponse(field + " 不是有效的非负整数"@)),
    }
}

/// A flag field that reads `1`.
pub open spec fn is_one(field: Seq<char>) -> bool {
    field == seq!['1']
}

/// A flag field that reads anything but `0`.
pub open spec fn is_not_zero(field: Seq<char>) -> bool {
    field != seq!['0']
}

pub open spec fn keepalive_count_message(n: nat) -> Seq<char> {
    "保活响应应至少有 8 个字段，实际为 "@ + decimal(n)
}

pub open spec fn login_count_message(n: nat) -> Seq<char> {
    "登录响应应至少有 8 个字段，实际为 "@ + decimal(n)
}

/// What a keep-alive reply means.
pub open spec fn keepalive_reply(body: Seq<char>) -> Result<KeepaliveInfoView, PortalFault> {
    if is_refusal(body) {
        Err(PortalFault::Offline(message_after(body)))
    } else {
        let f = response_fields(body);
        if f.len() < 8 {
            Err(PortalFault::InvalidResponse(keepalive_count_message(f.len())))
        } else {
            match number_field(f[0], "下次保活间隔"@) {
                Err(e) => Err(e),
                Ok(next) => match number_field(f[1], "在线时长"@) {
                    Err(e) => Err(e),
                    Ok(online) => Ok(
                        KeepaliveInfoView {
                            next_interval: next,
                            online_duration: online,
                            login_time: f[3],
                            username: f[4],
                            login_ip: f[5],
                            must_change_password: is_one(f[6]),
                            can_change_password: is_not_zero(f[7]),
                        },
                    ),
                },
            }
        }
    }
}

/// The excerpt of what follows the first `#` of `body`.
pub fn message_after_hash(body: &str) -> (r: String)
    ensures
        r@ == message_after(body@),
{
    let chars = chars_of(body);
    let n: usize = chars.len();
    assert(chars@.subrange(0, n as int) =~= chars@);
    match find_after(&chars, 0, n, '#') {
        Some(after) => safe_excerpt_chars(&chars, after, n),
        None => safe_excerpt_chars(&chars, 0, n),
    }
}

/// Parses a non-negative number field; `field` names it in the error.
pub fn parse_number(value: &str, field: &str) -> (r: Result<u64, PortalError>)
    ensures
        match r {
            Ok(n) => number_field(value@, field@) == Ok::<u64, PortalFault>(n),
            Err(e) => number_field(value@, field@) == Err::<u64, PortalFault>(e@),
        },
{
    let chars = chars_of(value);
    assert(chars@.subrange(0, chars@.len() as int) =~= chars@);
    match parse_u64_chars(&chars, 0, chars.len()) {
        Some(n) => Ok(n),
        None => {
            let message = String::from_str(field).concat(" 不是有效的非负整数");
            Err(PortalError::InvalidResponse(message))
        },
    }
}

/// Whether the characters are exactly `c`.
fn is_single(v: &Vec<char>, c: char) -> (r: bool)
    ensures
        r == (v@ == seq![c]),
{
    if v.len() == 1 && v[0] == c {
        assert(v@ =~= seq![c]);
        true
    } else {
        false
    }
}

/// The characters of `body` and its `&`-separated fields after trimming.
fn reply_fields(body: &str) -> (r: (Vec<char>, Vec<Vec<char>>))
    ensures
        views_of(r.1@) == response_fields(body@),
{
    let chars = chars_of(body);
    let (start, end) = trim_bounds(&chars);
    let fields = split_chars(&chars, start, end, '&');
    (chars, fields)
}

/// A message naming how many fields a reply had.
fn count_message(prefix: &str, n: usize) -> (r: String)
    ensures
        r@ == prefix@ + decimal(n as nat),
{
    let mut m = String::from_str(prefix);
    push_decimal(&mut m, n as u64);
    m
}

/// What a keep-alive reply means.
pub fn parse_keepalive_response(body: &str) -> (r: Result<KeepaliveInfo, PortalError>)
    ensures
        result_view(r) == keepalive_reply(body@),
{
    let chars = chars_of(body);
    if chars.len() >= 2 && chars[0] == '0' && chars[1] == '#' {
        return Err(PortalError::Offline(message_after_hash(body)));
    }
    let (_, fields) = reply_fields(body);
    let ghost f = response_fields(body@);
    assert(fields@.len() == f.len());
    if fields.len() < 8 {
        return Err(PortalError::InvalidResponse(count_message("保活响应应至少有 8 个字段，实际为 ", fields.len())));
    }
    assert forall|i: int| 0 <= i < 8 implies fields@[i]@ == f[i] by {
        assert(views_of(fields@)[i] == fields@[i]@);
    }
    let next_text = string_of(&fields[0], 0, fields[0].len());
    assert(fields@[0]@.subrange(0, fields@[0]@.len() as int) =~= fields@[0]@);
    let next_interval = parse_number(next_text.as_str(), "下次保活间隔")?;
    let online_text = string_of(&fields[1], 0, fields[1].len());
    assert(fields@[1]@.subrange(0, fields@[1]@.len() as int) =~= fields@[1]@);
    let online_duration = parse_number(online_text.as_str(), "在线时长")?;
    let login_time = string_of(&fields[3], 0, fields[3].len());
    assert(fields@[3]@.subrange(0, fields@[3]@.len() as int) =~= fields@[3]@);
    let username = string_of(&fields[4], 0, fields[4].len());
    assert(fields@[4]@.subrange(0, fields@[4]@.len() as int) =~= fields@[4]@);
    let login_ip = string_of(&fields[5], 0, fields[5].len());
    assert(fields@[5]@.subrange(0, fields@[5]@.len() as int) =~= fields@[5]@);
    Ok(KeepaliveInfo {
        next_interval,
        online_duration,
        login_time,
        username,
        login_ip,
        must_change_password: is_single(&fields[6], '1'),
        can_change_password: !is_single(&fields[7], '0'),
    })
}


/// What a login reply means for the user `expected`.
pub open spec fn login_reply(body: Seq<char>, expected: Seq<char>) -> Result<LoginInfoView, PortalFault> {
    if is_refusal(body) {
        Err(PortalFault::Authentication(message_after(body)))
    } else if starts_with_pair(body, '1', '#') {
        Err(PortalFault::SecondaryAuthentication(message_after(body)))
    } else {
        let f = response_fields(body);
        if f.len() < 8 {
            Err(PortalFault::InvalidResponse(login_count_message(f.len())))
        } else {
            match decryption(f[0]) {
                Err(e) => Err(PortalFault::Crypto(e)),
                Ok(username) => if username != expected {
                    Err(PortalFault::InvalidResponse("登录响应中的用户名与请求不一致"@))
                } else if f[3].len() == 0 {
                    Err(PortalFault::InvalidResponse("登录响应缺少 secret"@))
                } else {
                    match number_field(f[4], "登录保活间隔"@) {
                        Err(e) => Err(e),
                        Ok(interval) => Ok(
                            LoginInfoView {
                                username,
                                login_time: f[1],
                                login_ip: f[2],
                                secret: f[3],
                                keepalive_interval: interval,
                                unix_login_time: f[5],
                                must_change_password: is_one(f[6]),
                                can_change_password: is_not_zero(f[7]),
                            },
                        ),
                    }
                },
            }
        }
    }
}

/// The field `i` as a `String`.
fn field_string(fields: &Vec<Vec<char>>, i: usize) -> (r: String)
    requires
        i < fields@.len(),
    ensures
        r@ == fields@[i as int]@,
{
    let r = string_of(&fields[i], 0, fields[i].len());
    assert(fields@[i as int]@.subrange(0, fields@[i as int]@.len() as int) =~= fields@[i as int]@);
    r
}

/// What a login reply means for the user `expected_username`.
pub fn parse_login_response(body: &str, expected_username: &str) -> (r: Result<LoginInfo, PortalError>)
    ensures
        result_view(r) == login_reply(body@, expected_username@),
{
    let chars = chars_of(body);
    if chars.len() >= 2 && chars[0] == '0' && chars[1] == '#' {
        return Err(PortalError::Authentication(message_after_hash(body)));
    }
    if chars.len() >= 2 && chars[0] == '1' && chars[1] == '#' {
        return Err(PortalError::SecondaryAuthentication(message_after_hash(body)));
    }
    let (_, fields) = reply_fields(body);
    let ghost f = response_fields(body@);
    assert(fields@.len() == f.len());
    if fields.len() < 8 {
        return Err(PortalError::InvalidResponse(count_message("登录响应应至少有 8 个字段，实际为 ", fields.len())));
    }
    assert forall|i: int| 0 <= i < 8 implies fields@[i]@ == f[i] by {
        assert(views_of(fields@)[i] == fields@[i]@);
    }
    let encrypted = field_string(&fields, 0);
    let username = match decrypt(encrypted.as_str()) {
        Ok(u) => u,
        Err(e) => {
            return Err(PortalError::Crypto(e));
        },
    };
    let expected = String::from_str(expected_username);
    if username != expected {
        return Err(PortalError::InvalidResponse(String::from_str("登录响应中的用户名与请求不一致")));
    }
    if fields[3].len() == 0 {
        return Err(PortalError::InvalidResponse(String::from_str("登录响应缺少 secret")));
    }
    let interval_text = field_string(&fields, 4);
    let keepalive_interval = parse_number(interval_text.as_str(), "登录保活间隔")?;
    Ok(LoginInfo {
        username,
        login_time: field_string(&fields, 1),
        login_ip: field_string(&fields, 2),
        secret: field_string(&fields, 3),
        keepalive_interval,
        unix_login_time: field_string(&fields, 5),
        must_change_password: is_single(&fields[6], '1'),
        can_change_password: !is_single(&fields[7], '0'),
    })
}

/// The outcome of a logout reply: any reply not starting with `0#` is a
/// success, as in the browser page.
pub open spec fn logout_reply(body: Seq<char>) -> Result<(), PortalFault> {
    if is_refusal(body) {
        Err(PortalFault::Authentication(message_after(body)))
    } else {
        Ok(())
    }
}

/// The outcome of a logout reply.
pub fn logout_result(body: &str) -> (r: Result<(), PortalError>)
    ensures
        match r {
            Ok(()) => logout_reply(body@) == Ok::<(), PortalFault>(()),
            Err(e) => logout_reply(body@) == Err::<(), PortalFault>(e@),
        },
{
    let chars = chars_of(body);
    if chars.len() >= 2 && chars[0] == '0' && chars[1] == '#' {
        return Err(PortalError::Authentication(message_after_hash(body)));
    }
    Ok(())
}

/// The error for an HTTP error status, with an excerpt of the reply.
pub fn http_status_error(status: u16, body: &str) -> (r: PortalError)
    ensures
        r@ == (PortalFault::HttpStatus { status, body: excerpt(body@) }),
{
    PortalError::HttpStatus { status, body: crate::text::safe_excerpt(body) }
}


/// One member of a JSON reply, read the three ways the page reads it.
pub struct JsonScalar {
    /// The member as an `i64`, when it is a number that fits.
    pub integer: Option<i64>,
    /// The member as text, when it is a string.
    pub text: Option<String>,
    /// The member as a boolean, when it is one.
    pub boolean: Option<bool>,
}

pub struct JsonScalarView {
    pub integer: Option<i64>,
    pub text: Option<Seq<char>>,
    pub boolean: Option<bool>,
}

impl View for JsonScalar {
    type V = JsonScalarView;

    open spec fn view(&self) -> JsonScalarView {
        JsonScalarView {
            integer: self.integer,
            text: match self.text {
                Some(t) => Some(t@),
                None => None,
            },
            boolean: self.boolean,
        }
    }
}

/// The members of the captcha reply that the login reads.
pub struct CaptchaJson {
    /// The `verify` member, when present.
    pub verify: Option<JsonScalar>,
    /// The `code` member, when present and a string.
    pub code: Option<String>,
}

pub struct CaptchaJsonView {
    pub verify: Option<JsonScalarView>,
    pub code: Option<Seq<char>>,
}

impl View for CaptchaJson {
    type V = CaptchaJsonView;

    open spec fn view(&self) -> CaptchaJsonView {
        CaptchaJsonView {
            verify: match self.verify {
                Some(v) => Some(v@),
                None => None,
            },
            code: match self.code {
                Some(c) => Some(c@),
                None => None,
            },
        }
    }
}

pub open spec fn captcha_json_view(r: Result<CaptchaJson, String>) -> Result<CaptchaJsonView, Seq<char>> {
    match r {
        Ok(j) => Ok(j@),
        Err(m) => Err(m@),
    }
}

/// What `serde_json` reads from a captcha reply: its `verify` and `code`
/// members, or the parser's error message.
pub uninterp spec fn captcha_json(body: Seq<char>) -> Result<CaptchaJsonView, Seq<char>>;

/// `serde_json::from_str::<serde_json::Value>` on the reply, then
/// `Value::get` of `verify` (read with `as_i64`, `as_str`, `as_bool`) and of
/// `code` (read with `as_str`); on a parse error, the error's message. The
/// result depends on the reply alone.
#[verifier::external_body]
fn read_captcha_json(body: &str) -> (r: Result<CaptchaJson, String>)
    ensures
        captcha_json_view(r) == captcha_json(body@),
{
    let value: serde_json::Value = serde_json::from_str(body).map_err(|e| e.to_string())?;
    let verify = value.get("verify").map(|item| JsonScalar {
        integer: item.as_i64(),
        text: item.as_str().map(|t| t.to_owned()),
        boolean: item.as_bool(),
    });
    let code = value.get("code").and_then(|item| item.as_str()).map(|t| t.to_owned());
    Ok(CaptchaJson { verify, code })
}

/// The `verify` value as the page computes it: the number, or the text read
/// as a number, or the boolean as 0 or 1.
pub open spec fn verify_value(v: JsonScalarView) -> Option<i64> {
    match v.integer {
        Some(n) => Some(n),
        None => match (
            match v.text {
                Some(t) => parse_i64(t),
                None => None,
            }
        ) {
            Some(n) => Some(n),
            None => match v.boolean {
                Some(b) => Some(if b { 1i64 } else { 0i64 }),
                None => None,
            },
        },
    }
}

/// A boolean `verify` reads as 1 exactly when it is true, and a number
/// reads as itself; so a reply whose `verify` is `false` or a number other
/// than 1 never asks for a code.
pub proof fn lemma_verify_values(b: bool, n: i64, code: Option<Seq<char>>)
    ensures
        verify_value(JsonScalarView { integer: None, text: None, boolean: Some(b) }) == Some(
            if b {
                1i64
            } else {
                0i64
            },
        ),
        verify_value(JsonScalarView { integer: Some(n), text: None, boolean: None }) == Some(n),
        captcha_outcome(
            Ok(
                CaptchaJsonView {
                    verify: Some(JsonScalarView { integer: None, text: None, boolean: Some(false) }),
                    code,
                },
            ),
        ) == Ok::<Option<Seq<char>>, PortalFault>(None),
        n != 1 ==> captcha_outcome(
            Ok(
                CaptchaJsonView {
                    verify: Some(JsonScalarView { integer: Some(n), text: None, boolean: None }),
                    code,
                },
            ),
        ) == Ok::<Option<Seq<char>>, PortalFault>(None),
{
}

/// What a read captcha reply means: no code unless `verify` is 1, and then
/// a non-empty `code`.
pub open spec fn captcha_outcome(reply: Result<CaptchaJsonView, Seq<char>>) -> Result<Option<Seq<char>>, PortalFault> {
    match reply {
        Err(m) => Err(PortalFault::InvalidResponse("验证码接口不是有效 JSON："@ + m)),
        Ok(j) => {
            let verify = match j.verify {
                Some(v) => verify_value(v),
                None => None,
            };
            if verify != Some(1i64) {
                Ok(None)
            } else {
                match j.code {
                    Some(c) => if c.len() > 0 {
                        Ok(Some(c))
                    } else {
                        Err(PortalFault::InvalidResponse("验证码响应缺少 code"@))
                    },
                    None => Err(PortalFault::InvalidResponse("验证码响应缺少 code"@)),
                }
            }
        },
    }
}

pub open spec fn code_result_view(r: Result<Option<String>, PortalError>) -> Result<Option<Seq<char>>, PortalFault> {
    match r {
        Ok(Some(c)) => Ok(Some(c@)),
        Ok(None) => Ok(None),
        Err(e) => Err(e@),
    }
}

/// The `verify` value of a read member.
fn read_verify(v: &JsonScalar) -> (r: Option<i64>)
    ensures
        r == verify_value(v@),
{
    if let Some(n) = v.integer {
        return Some(n);
    }
    if let Some(t) = &v.text {
        let chars = chars_of(t.as_str());
        assert(chars@.subrange(0, chars@.len() as int) =~= chars@);
        if let Some(n) = parse_i64_chars(&chars, 0, chars.len()) {
            return Some(n);
        }
    }
    match v.boolean {
        Some(b) => Some(if b { 1i64 } else { 0i64 }),
        None => None,
    }
}

/// The captcha code that a read reply asks for, if any.
pub fn captcha_code_from(reply: Result<CaptchaJson, String>) -> (r: Result<Option<String>, PortalError>)
    ensures
        code_result_view(r) == captcha_outcome(captcha_json_view(reply)),
        reply matches Ok(j) ==> (j.verify is None ==> r matches Ok(None)),
        reply matches Ok(j) ==> (j.verify matches Some(v) && v.integer matches Some(n) && n != 1
            ==> r matches Ok(None)),
        reply matches Ok(j) ==> (j.verify matches Some(v) && v.integer is None && v.text is None
            && v.boolean == Some(false) ==> r matches Ok(None)),
        reply matches Ok(j) ==> (j.verify matches Some(v) && v.integer is None && v.text is None
            && v.boolean == Some(true) ==> match j.code {
            Some(c) => c@.len() > 0 ==> (r matches Ok(Some(x)) && x@ == c@),
            None => r is Err,
        }),
        reply matches Ok(j) ==> (j.verify matches Some(v) && v.integer == Some(1i64) ==> match j.code {
            Some(c) => c@.len() > 0 ==> (r matches Ok(Some(x)) && x@ == c@),
            None => r is Err,
        }),
{
    match reply {
        Err(m) => {
            let message = String::from_str("验证码接口不是有效 JSON：").concat(m.as_str());
            Err(PortalError::InvalidResponse(message))
        },
        Ok(j) => {
            let verify = match &j.verify {
                Some(v) => read_verify(v),
                None => None,
            };
            if verify != Some(1i64) {
                return Ok(None);
            }
            match j.code {
                Some(c) => {
                    if c.as_str().is_empty() {
                        Err(PortalError::InvalidResponse(String::from_str("验证码响应缺少 code")))
                    } else {
                        Ok(Some(c))
                    }
                },
                None => Err(PortalError::InvalidResponse(String::from_str("验证码响应缺少 code"))),
            }
        },
    }
}

/// The captcha code that the server's reply asks for, if any. Replies such
/// as `{"result":"fail"}` mean that no code is needed.
pub fn parse_captcha_response(body: &str) -> (r: Result<Option<String>, PortalError>)
    ensures
        code_result_view(r) == captcha_outcome(captcha_json(body@)),
{
    captcha_code_from(read_captcha_json(body))
}


/// A login only succeeds for the user it was made for and with a
/// non-empty secret; a reply starting with `0#` or `1#` is never a login.
pub proof fn lemma_login_reply_is_for_requested_user(body: Seq<char>, expected: Seq<char>)
    ensures
        login_reply(body, expected) matches Ok(info) ==> {
            &&& info.username == expected
            &&& info.secret.len() > 0
            &&& !is_refusal(body)
            &&& !starts_with_pair(body, '1', '#')
        },
{
}

/// A keep-alive reply means "offline" exactly when it starts with `0#`.
pub proof fn lemma_offline_iff_refusal(body: Seq<char>)
    ensures
        keepalive_reply(body) matches Err(PortalFault::Offline(_)) <==> is_refusal(body),
{
}

/// A reply with one more `&`-separated field appended.
pub open spec fn with_extra_field(body: Seq<char>, extra: Seq<char>) -> Seq<char> {
    body + seq!['&'] + extra
}

proof fn lemma_extra_field_fields(body: Seq<char>, extra: Seq<char>)
    requires
        trim(body) == body,
        extra.len() == 0 || !is_whitespace(extra.last()),
        response_fields(body).len() >= 8,
    ensures
        ({
            let ext = with_extra_field(body, extra);
            &&& response_fields(ext) == response_fields(body) + split_on(extra, '&')
            &&& is_refusal(ext) == is_refusal(body)
            &&& starts_with_pair(ext, '1', '#') == starts_with_pair(body, '1', '#')
        }),
{
    let ext = with_extra_field(body, extra);
    lemma_split_on_count(body, '&');
    assert(body.len() >= 7);
    lemma_trimmed_ends(body);
    assert(ext[0] == body[0]);
    assert(ext[1] == body[1]);
    if extra.len() == 0 {
        assert(ext.last() == '&');
        assert(('&' as u32) == 38);
    } else {
        assert(ext.last() == extra.last());
    }
    lemma_trim_of_trimmed(ext);
    lemma_split_on_concat(body, extra, '&');
}

/// A login reply is read through its first eight fields only: appending a
/// field to a trimmed reply that has at least eight (and is not a `0#` or
/// `1#` refusal, whose message is the whole rest) leaves its meaning
/// unchanged, so a successful login reads the same with extra fields.
pub proof fn lemma_login_reply_ignores_extra_fields(
    body: Seq<char>,
    extra: Seq<char>,
    expected: Seq<char>,
)
    requires
        trim(body) == body,
        extra.len() == 0 || !is_whitespace(extra.last()),
    ensures
        response_fields(body).len() >= 8 && !is_refusal(body) && !starts_with_pair(body, '1', '#')
            ==> login_reply(with_extra_field(body, extra), expected) == login_reply(body, expected),
        login_reply(body, expected) is Ok ==> login_reply(with_extra_field(body, extra), expected)
            == login_reply(body, expected),
{
    if response_fields(body).len() >= 8 {
        lemma_extra_field_fields(body, extra);
        let f = response_fields(body);
        let g = response_fields(with_extra_field(body, extra));
        assert(g =~= f + split_on(extra, '&'));
        assert(g.len() >= 8);
        assert(g[0] == f[0] && g[1] == f[1] && g[2] == f[2] && g[3] == f[3]);
        assert(g[4] == f[4] && g[5] == f[5] && g[6] == f[6] && g[7] == f[7]);
    }
}

/// A keep-alive reply is read through its first eight fields only:
/// appending a field to a trimmed reply that has at least eight (and is not
/// a `0#` refusal, whose message is the whole rest) leaves its meaning
/// unchanged.
pub proof fn lemma_keepalive_reply_ignores_extra_fields(body: Seq<char>, extra: Seq<char>)
    requires
        trim(body) == body,
        extra.len() == 0 || !is_whitespace(extra.last()),
    ensures
        response_fields(body).len() >= 8 && !is_refusal(body) ==> keepalive_reply(
            with_extra_field(body, extra),
        ) == keepalive_reply(body),
        keepalive_reply(body) is Ok ==> keepalive_reply(with_extra_field(body, extra))
            == keepalive_reply(body),
{
    if response_fields(body).len() >= 8 {
        lemma_extra_field_fields(body, extra);
        let f = response_fields(body);
        let g = response_fields(with_extra_field(body, extra));
        assert(g =~= f + split_on(extra, '&'));
        assert(g.len() >= 8);
        assert(g[0] == f[0] && g[1] == f[1] && g[2] == f[2] && g[3] == f[3]);
        assert(g[4] == f[4] && g[5] == f[5] && g[6] == f[6] && g[7] == f[7]);
    }
}

/// Path of the captcha query.
pub const CAPTCHA_PATH: &'static str = "/user_auth_verify.cgi";
/// Path of the login request.
pub const LOGIN_PATH: &'static str = "/portal.cgi";
/// Path of the keep-alive request.
pub const KEEPALIVE_PATH: &'static str = "/keepalive.cgi";
/// Path of the logout request.
pub const LOGOUT_PATH: &'static str = "/logout.cgi";

/// Where the portal is: its base address and the `Origin` and `Referer`
/// headers that the browser page sends.
pub struct PortalSite {
    pub server: String,
    pub origin: String,
    pub referer: String,
}

impl PortalSite {
    /// The site at `server`, trailing `/` removed.
    pub fn new(server: &str) -> (r: PortalSite)
        ensures
            r.server@ == trim_end_char(server@, '/'),
            r.origin@ == r.server@,
            r.referer@ == r.server@ + "/portal/local/index.html"@,
    {
        let server = trim_end_matches_char(server, '/');
        let origin = server.clone();
        let referer = server.clone().concat("/portal/local/index.html");
        PortalSite { server, origin, referer }
    }

    /// The address of `path` on the site.
    pub fn url(&self, path: &str) -> (r: String)
        ensures
            r@ == self.server@ + path@,
    {
        self.server.clone().concat(path)
    }
}

/// The view of a form: its names and values.
pub open spec fn form_view(form: Seq<(String, String)>) -> Seq<(Seq<char>, Seq<char>)> {
    form.map_values(|p: (String, String)| (p.0@, p.1@))
}

fn field(name: &str, value: String) -> (r: (String, String))
    ensures
        r.0@ == name@,
        r.1@ == value@,
{
    (String::from_str(name), value)
}

/// The form of the captcha query.
pub fn captcha_form() -> (r: Vec<(String, String)>)
    ensures
        form_view(r@) == seq![("submit"@, "submit"@)],
{
    let mut form: Vec<(String, String)> = Vec::new();
    form.push(field("submit", String::from_str("submit")));
    assert(form_view(form@) =~= seq![("submit"@, "submit"@)]);
    form
}

/// The form of a keep-alive request.
pub fn keepalive_form(secret: &str) -> (r: Vec<(String, String)>)
    ensures
        form_view(r@) == seq![("secret"@, secret@), ("submit"@, "submit"@)],
{
    let mut form: Vec<(String, String)> = Vec::new();
    form.push(field("secret", String::from_str(secret)));
    form.push(field("submit", String::from_str("submit")));
    assert(form_view(form@) =~= seq![("secret"@, secret@), ("submit"@, "submit"@)]);
    form
}

/// The form of a logout request; unlike the login, it sends the plain
/// user name.
pub fn logout_form(username: &str, secret: &str, language: u8) -> (r: Vec<(String, String)>)
    ensures
        form_view(r@) == seq![
            ("username"@, username@),
            ("secret"@, secret@),
            ("language"@, decimal(language as nat)),
            ("submit"@, "submit"@),
        ],
{
    let mut form: Vec<(String, String)> = Vec::new();
    form.push(field("username", String::from_str(username)));
    form.push(field("secret", String::from_str(secret)));
    form.push(field("language", decimal_string(language as u64)));
    form.push(field("submit", String::from_str("submit")));
    assert(form_view(form@) =~= seq![
        ("username"@, username@),
        ("secret"@, secret@),
        ("language"@, decimal(language as nat)),
        ("submit"@, "submit"@),
    ]);
    form
}

/// Whether `value` is what the login sends for `text`: its encoding under
/// some IV of sixteen ASCII letters and digits.
pub open spec fn is_encoding_of(value: Seq<char>, text: Seq<char>) -> bool {
    exists|iv: Seq<char>|
        is_random_iv(iv) && encryption_with_iv(text, iv) == Ok::<Seq<char>, CryptoFault>(value)
}

/// The form of a login request: the user name and password each encoded
/// with a fresh IV, then the policy, language, captcha code and `submit`.
pub fn login_form(username: &str, password: &str, uplcyid: &str, language: u8, code: &str) -> (r:
    Result<Vec<(String, String)>, PortalError>)
    requires
        encode_utf8(username@).len() + BLOCK_SIZE <= isize::MAX,
        encode_utf8(password@).len() + BLOCK_SIZE <= isize::MAX,
    ensures
        r is Ok <==> (username@.len() > 0 && password@.len() > 0),
        r matches Err(e) ==> e@ == PortalFault::Crypto(CryptoFault::EmptyInput),
        r matches Ok(form) ==> {
            let f = form_view(form@);
            &&& f.len() == 6
            &&& f[0].0 == "username"@ && is_encoding_of(f[0].1, username@)
            &&& f[1].0 == "password"@ && is_encoding_of(f[1].1, password@)
            &&& f[2] == ("uplcyid"@, uplcyid@)
            &&& f[3] == ("language"@, decimal(language as nat))
            &&& f[4] == ("code"@, code@)
            &&& f[5] == ("submit"@, "submit"@)
            &&& (username@.last() != '\0' ==> decryption(f[0].1) == Ok::<Seq<char>, CryptoFault>(username@))
            &&& (password@.last() != '\0' ==> decryption(f[1].1) == Ok::<Seq<char>, CryptoFault>(password@))
        },
{
    let encrypted_username = match encrypt(username) {
        Ok(v) => v,
        Err(e) => {
            return Err(PortalError::Crypto(e));
        },
    };
    let encrypted_password = match encrypt(password) {
        Ok(v) => v,
        Err(e) => {
            return Err(PortalError::Crypto(e));
        },
    };
    let mut form: Vec<(String, String)> = Vec::new();
    form.push(field("username", encrypted_username));
    form.push(field("password", encrypted_password));
    form.push(field("uplcyid", String::from_str(uplcyid)));
    form.push(field("language", decimal_string(language as u64)));
    form.push(field("code", String::from_str(code)));
    form.push(field("submit", String::from_str("submit")));
    let ghost f = form_view(form@);
    assert(f[0] == (form@[0].0@, form@[0].1@));
    assert(f[1] == (form@[1].0@, form@[1].1@));
    assert(f[2] == (form@[2].0@, form@[2].1@));
    assert(f[3] == (form@[3].0@, form@[3].1@));
    assert(f[4] == (form@[4].0@, form@[4].1@));
    assert(f[5] == (form@[5].0@, form@[5].1@));
    Ok(form)
}

} // verus!
