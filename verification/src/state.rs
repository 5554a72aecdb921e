//! The saved session: what the client keeps between runs to renew and end
//! its login.
use vstd::prelude::*;

use crate::portal::{KeepaliveInfo, LoginInfo};

verus! {

/// The session that a login opened.
#[derive(Clone)]
pub struct SessionState {
    pub username: String,
    /// The token that keep-alive and logout requests carry.
    pub secret: String,
    pub login_ip: String,
    pub login_time: String,
    /// Seconds the server asks the client to wait before the next keep-alive.
    pub keepalive_interval: u64,
    /// Seconds online, as the last keep-alive reported.
    pub online_duration: u64,
}

pub struct SessionView {
    pub username: Seq<char>,
    pub secret: Seq<char>,
    pub login_ip: Seq<char>,
    pub login_time: Seq<char>,
    pub keepalive_interval: u64,
    pub online_duration: u64,
}

impl View for SessionState {
    type V = SessionView;

    open spec fn view(&self) -> SessionView {
        SessionView {
            username: self.username@,
            secret: self.secret@,
            login_ip: self.login_ip@,
            login_time: self.login_time@,
            keepalive_interval: self.keepalive_interval,
            online_duration: self.online_duration,
        }
    }
}

/// The session that a login reply opens.
pub open spec fn session_from_login(info: crate::portal::LoginInfoView) -> SessionView {
    SessionView {
        username: info.username,
        secret: info.secret,
        login_ip: info.login_ip,
        login_time: info.login_time,
        keepalive_interval: info.keepalive_interval,
        online_duration: 0,
    }
}

/// The session after a keep-alive reply: everything the reply reports is
/// taken over, the secret stays.
pub open spec fn session_after_keepalive(
    s: SessionView,
    info: crate::portal::KeepaliveInfoView,
) -> SessionView {
    SessionView {
        username: info.username,
        secret: s.secret,
        login_ip: info.login_ip,
        login_time: info.login_time,
        keepalive_interval: info.next_interval,
        online_duration: info.online_duration,
    }
}

/// A session opened by a login holds each field of the login reply under
/// the same name, with no time online yet; a keep-alive takes over each
/// reported field under the same name and keeps the secret.
pub proof fn lemma_session_fields(
    info: crate::portal::LoginInfoView,
    s: SessionView,
    k: crate::portal::KeepaliveInfoView,
)
    ensures
        session_from_login(info).username == info.username,
        session_from_login(info).secret == info.secret,
        session_from_login(info).login_ip == info.login_ip,
        session_from_login(info).login_time == info.login_time,
        session_from_login(info).keepalive_interval == info.keepalive_interval,
        session_from_login(info).online_duration == 0,
        session_after_keepalive(s, k).username == k.username,
        session_after_keepalive(s, k).secret == s.secret,
        session_after_keepalive(s, k).login_ip == k.login_ip,
        session_after_keepalive(s, k).login_time == k.login_time,
        session_after_keepalive(s, k).keepalive_interval == k.next_interval,
        session_after_keepalive(s, k).online_duration == k.online_duration,
{
}

impl SessionState {
    /// The session that a successful login opens.
    pub fn from_login(info: LoginInfo) -> (r: SessionState)
        ensures
            r@ == session_from_login(info@),
            r.username@ == info.username@,
            r.secret@ == info.secret@,
            r.login_ip@ == info.login_ip@,
            r.login_time@ == info.login_time@,
            r.keepalive_interval == info.keepalive_interval,
            r.online_duration == 0,
    {
        SessionState {
            username: info.username,
            secret: info.secret,
            login_ip: info.login_ip,
            login_time: info.login_time,
            keepalive_interval: info.keepalive_interval,
            online_duration: 0,
        }
    }

    /// Takes over what a keep-alive reply reports; the secret is kept.
    pub fn update_from_keepalive(&mut self, info: KeepaliveInfo)
        ensures
            final(self)@ == session_after_keepalive(old(self)@, info@),
            final(self).username@ == info.username@,
            final(self).secret@ == old(self).secret@,
            final(self).login_ip@ == info.login_ip@,
            final(self).login_time@ == info.login_time@,
            final(self).keepalive_interval == info.next_interval,
            final(self).online_duration == info.online_duration,
    {
        self.username = info.username;
        self.login_ip = info.login_ip;
        self.login_time = info.login_time;
        self.keepalive_interval = info.next_interval;
        self.online_duration = info.online_duration;
    }
}

} // verus!
