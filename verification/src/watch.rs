//! The decisions of the resident `watch` mode: when to log in, when to renew
//! the session, when to give it up, and how long to wait in between.
use vstd::prelude::*;

use crate::config::Config;
use crate::portal::{KeepaliveInfo, KeepaliveInfoView};
use crate::state::{session_after_keepalive, SessionState, SessionView};

verus! {

/// The interval used when the server reports none.
pub const DEFAULT_KEEPALIVE_SECONDS: u64 = 300;

/// The shortest wait between two keep-alives.
pub const MIN_KEEPALIVE_DELAY_SECONDS: u64 = 5;

/// Seconds to wait before the next keep-alive: the server's interval (300
/// when it reports 0) less the margin, and never under 5.
pub open spec fn keepalive_delay_seconds(margin: u64, server_interval: u64) -> u64 {
    let interval = if server_interval == 0 {
        DEFAULT_KEEPALIVE_SECONDS
    } else {
        server_interval
    };
    let early = if interval > margin {
        (interval - margin) as u64
    } else {
        0u64
    };
    if early < MIN_KEEPALIVE_DELAY_SECONDS {
        MIN_KEEPALIVE_DELAY_SECONDS
    } else {
        early
    }
}

/// Seconds to wait before the next keep-alive.
pub fn keepalive_delay(config: &Config, server_interval: u64) -> (r: u64)
    ensures
        r == keepalive_delay_seconds(config.keepalive_margin_seconds, server_interval),
        r >= MIN_KEEPALIVE_DELAY_SECONDS,
{
    let interval: u64 = if server_interval == 0 {
        DEFAULT_KEEPALIVE_SECONDS
    } else {
        server_interval
    };
    let early: u64 = interval.saturating_sub(config.keepalive_margin_seconds);
    if early < MIN_KEEPALIVE_DELAY_SECONDS {
        MIN_KEEPALIVE_DELAY_SECONDS
    } else {
        early
    }
}

/// What `watch` does next.
pub enum WatchRequest {
    /// Log in.
    Login,
    /// Renew the session that has this secret.
    Keepalive(String),
}

/// What came of the last request.
pub enum WatchEvent {
    LoggedIn(SessionState),
    LoginFailed,
    KeptAlive(KeepaliveInfo),
    /// The server says the session is no longer online.
    Offline,
    /// The keep-alive failed for another reason.
    KeepaliveFailed,
}

pub enum WatchEventView {
    LoggedIn(SessionView),
    LoginFailed,
    KeptAlive(KeepaliveInfoView),
    Offline,
    KeepaliveFailed,
}

impl View for WatchEvent {
    type V = WatchEventView;

    open spec fn view(&self) -> WatchEventView {
        match self {
            WatchEvent::LoggedIn(s) => WatchEventView::LoggedIn(s@),
            WatchEvent::LoginFailed => WatchEventView::LoginFailed,
            WatchEvent::KeptAlive(i) => WatchEventView::KeptAlive(i@),
            WatchEvent::Offline => WatchEventView::Offline,
            WatchEvent::KeepaliveFailed => WatchEventView::KeepaliveFailed,
        }
    }
}

/// What to do after an event.
pub struct WatchDecision {
    /// Seconds to wait before the next request.
    pub delay_seconds: u64,
    /// Save the current session.
    pub save_session: bool,
    /// Remove the saved session.
    pub discard_saved_session: bool,
    /// Keep-alive failures in a row, this one included.
    pub failures: u32,
}

/// The state of `watch`: the current session, if any, and the keep-alive
/// failures in a row.
pub struct Watcher {
    pub session: Option<SessionState>,
    pub keepalive_failures: u32,
}

pub struct WatcherView {
    pub session: Option<SessionView>,
    pub keepalive_failures: u32,
}

impl View for Watcher {
    type V = WatcherView;

    open spec fn view(&self) -> WatcherView {
        WatcherView {
            session: match self.session {
                Some(s) => Some(s@),
                None => None,
            },
            keepalive_failures: self.keepalive_failures,
        }
    }
}

/// Whether an event answers the request that the state calls for.
pub open spec fn answers(w: WatcherView, e: WatchEventView) -> bool {
    match e {
        WatchEventView::LoggedIn(_) | WatchEventView::LoginFailed => w.session is None,
        _ => w.session is Some,
    }
}

/// One step of `watch`: the next state and the decision.
pub open spec fn watch_step(
    w: WatcherView,
    retry_seconds: u64,
    margin: u64,
    max_failures: u32,
    e: WatchEventView,
) -> (WatcherView, WatchDecision) {
    let retry = |failures: u32, discard: bool|
        WatchDecision {
            delay_seconds: retry_seconds,
            save_session: false,
            discard_saved_session: discard,
            failures,
        };
    match e {
        WatchEventView::LoggedIn(s) => (
            WatcherView { session: Some(s), keepalive_failures: 0 },
            WatchDecision {
                delay_seconds: keepalive_delay_seconds(margin, s.keepalive_interval),
                save_session: true,
                discard_saved_session: false,
                failures: 0,
            },
        ),
        WatchEventView::LoginFailed => (w, retry(w.keepalive_failures, false)),
        WatchEventView::KeptAlive(info) => (
            WatcherView {
                session: Some(session_after_keepalive(w.session->0, info)),
                keepalive_failures: 0,
            },
            WatchDecision {
                delay_seconds: keepalive_delay_seconds(margin, info.next_interval),
                save_session: true,
                discard_saved_session: false,
                failures: 0,
            },
        ),
        WatchEventView::Offline => (
            WatcherView { session: None, keepalive_failures: 0 },
            retry(0, true),
        ),
        WatchEventView::KeepaliveFailed => {
            let n = (w.keepalive_failures + 1) as u32;
            if n >= max_failures {
                (WatcherView { session: None, keepalive_failures: 0 }, retry(n, true))
            } else {
                (WatcherView { session: w.session, keepalive_failures: n }, retry(n, false))
            }
        },
    }
}

impl Watcher {
    /// `watch` starting from a saved session, if there is one.
    pub fn new(session: Option<SessionState>) -> (r: Watcher)
        ensures
            r.session == session,
            r.keepalive_failures == 0,
    {
        Watcher { session, keepalive_failures: 0 }
    }

    /// What to do next: log in when there is no session, else renew it.
    pub fn next_request(&self) -> (r: WatchRequest)
        ensures
            match self.session {
                None => r is Login,
                Some(s) => r matches WatchRequest::Keepalive(t) && t@ == s.secret@,
            },
    {
        match &self.session {
            None => WatchRequest::Login,
            Some(s) => WatchRequest::Keepalive(s.secret.clone()),
        }
    }

    /// Takes in what came of the request and decides what follows.
    pub fn handle(&mut self, config: &Config, event: WatchEvent) -> (d: WatchDecision)
        requires
            old(self).keepalive_failures < config.max_keepalive_failures,
            answers(old(self)@, event@),
        ensures
            (final(self)@, d) == watch_step(
                old(self)@,
                config.retry_seconds,
                config.keepalive_margin_seconds,
                config.max_keepalive_failures,
                event@,
            ),
            final(self).keepalive_failures < config.max_keepalive_failures,
            !(event is LoggedIn || event is KeptAlive) ==> d.delay_seconds == config.retry_seconds,
            event matches WatchEvent::LoggedIn(s) ==> d.delay_seconds == keepalive_delay_seconds(
                config.keepalive_margin_seconds,
                s.keepalive_interval,
            ),
            event matches WatchEvent::KeptAlive(i) ==> d.delay_seconds == keepalive_delay_seconds(
                config.keepalive_margin_seconds,
                i.next_interval,
            ),
    {
        match event {
            WatchEvent::LoggedIn(s) => {
                let delay: u64 = keepalive_delay(config, s.keepalive_interval);
                self.session = Some(s);
                self.keepalive_failures = 0;
                WatchDecision {
                    delay_seconds: delay,
                    save_session: true,
                    discard_saved_session: false,
                    failures: 0,
                }
            },
            WatchEvent::LoginFailed => WatchDecision {
                delay_seconds: config.retry_seconds,
                save_session: false,
                discard_saved_session: false,
                failures: self.keepalive_failures,
            },
            WatchEvent::KeptAlive(info) => {
                let delay: u64 = keepalive_delay(config, info.next_interval);
                let mut current = self.session.take().unwrap();
                current.update_from_keepalive(info);
                self.session = Some(current);
                self.keepalive_failures = 0;
                WatchDecision {
                    delay_seconds: delay,
                    save_session: true,
                    discard_saved_session: false,
                    failures: 0,
                }
            },
            WatchEvent::Offline => {
                self.session = None;
                self.keepalive_failures = 0;
                WatchDecision {
                    delay_seconds: config.retry_seconds,
                    save_session: false,
                    discard_saved_session: true,
                    failures: 0,
                }
            },
            WatchEvent::KeepaliveFailed => {
                let n: u32 = self.keepalive_failures + 1;
                if n >= config.max_keepalive_failures {
                    self.session = None;
                    self.keepalive_failures = 0;
                    WatchDecision {
                        delay_seconds: config.retry_seconds,
                        save_session: false,
                        discard_saved_session: true,
                        failures: n,
                    }
                } else {
                    self.keepalive_failures = n;
                    WatchDecision {
                        delay_seconds: config.retry_seconds,
                        save_session: false,
                        discard_saved_session: false,
                        failures: n,
                    }
                }
            },
        }
    }
}


/// The state after `k` keep-alive failures in a row.
pub open spec fn after_failures(
    w: WatcherView,
    retry_seconds: u64,
    margin: u64,
    max_failures: u32,
    k: nat,
) -> WatcherView
    decreases k,
{
    if k == 0 {
        w
    } else {
        watch_step(
            after_failures(w, retry_seconds, margin, max_failures, (k - 1) as nat),
            retry_seconds,
            margin,
            max_failures,
            WatchEventView::KeepaliveFailed,
        ).0
    }
}

/// Keep-alive failures in a row keep the session, counting them, until
/// there are `max_failures` of them; that one drops the session and resets
/// the count.
pub proof fn lemma_failures_in_a_row(
    w: WatcherView,
    retry_seconds: u64,
    margin: u64,
    max_failures: u32,
    k: nat,
)
    requires
        w.session is Some,
        w.keepalive_failures == 0,
        0 < k <= max_failures,
    ensures
        k < max_failures ==> after_failures(w, retry_seconds, margin, max_failures, k)
            == (WatcherView { session: w.session, keepalive_failures: k as u32 }),
        k == max_failures ==> after_failures(w, retry_seconds, margin, max_failures, k)
            == (WatcherView { session: None, keepalive_failures: 0 }),
    decreases k,
{
    let prev = after_failures(w, retry_seconds, margin, max_failures, (k - 1) as nat);
    if k > 1 {
        lemma_failures_in_a_row(w, retry_seconds, margin, max_failures, (k - 1) as nat);
        assert(prev.keepalive_failures == k - 1);
    } else {
        assert(prev == w);
    }
    assert(after_failures(w, retry_seconds, margin, max_failures, k) == watch_step(
        prev,
        retry_seconds,
        margin,
        max_failures,
        WatchEventView::KeepaliveFailed,
    ).0);
}

/// With valid settings (`retry_seconds > 0`), `watch` always waits before its
/// next request, and never less than five seconds before a keep-alive.
pub proof fn lemma_watch_always_waits(
    w: WatcherView,
    retry_seconds: u64,
    margin: u64,
    max_failures: u32,
    e: WatchEventView,
)
    requires
        retry_seconds > 0,
    ensures
        watch_step(w, retry_seconds, margin, max_failures, e).1.delay_seconds > 0,
        watch_step(w, retry_seconds, margin, max_failures, e).0.session is Some
            && watch_step(w, retry_seconds, margin, max_failures, e).1.save_session
            ==> watch_step(w, retry_seconds, margin, max_failures, e).1.delay_seconds
            >= MIN_KEEPALIVE_DELAY_SECONDS,
{
}

/// Every request that did not succeed (a failed login, an offline reply, a
/// failed keep-alive) is retried after exactly `retry_seconds`; a success
/// waits for the server's interval less the margin.
pub proof fn lemma_failures_wait_retry_seconds(
    w: WatcherView,
    retry_seconds: u64,
    margin: u64,
    max_failures: u32,
    e: WatchEventView,
)
    ensures
        (e is LoginFailed || e is Offline || e is KeepaliveFailed) ==> watch_step(
            w,
            retry_seconds,
            margin,
            max_failures,
            e,
        ).1.delay_seconds == retry_seconds,
        e matches WatchEventView::LoggedIn(s) ==> watch_step(
            w,
            retry_seconds,
            margin,
            max_failures,
            e,
        ).1.delay_seconds == keepalive_delay_seconds(margin, s.keepalive_interval),
        e matches WatchEventView::KeptAlive(i) ==> watch_step(
            w,
            retry_seconds,
            margin,
            max_failures,
            e,
        ).1.delay_seconds == keepalive_delay_seconds(margin, i.next_interval),
{
}

/// A renewed session keeps the secret it was opened with, whatever the
/// keep-alive replies report; and a session is saved exactly when a request
/// succeeded.
pub proof fn lemma_renewal_keeps_secret(
    w: WatcherView,
    retry_seconds: u64,
    margin: u64,
    max_failures: u32,
    e: WatchEventView,
)
    requires
        answers(w, e),
    ensures
        ({
            let (next, d) = watch_step(w, retry_seconds, margin, max_failures, e);
            &&& e is KeptAlive ==> next.session->0.secret == w.session->0.secret
            &&& d.save_session <==> (e is LoggedIn || e is KeptAlive)
            &&& d.discard_saved_session ==> next.session is None
        }),
{
}

} // verus!
