use hzii_net::config::Config;
use hzii_net::portal::{KeepaliveInfo, LoginInfo};
use hzii_net::state::SessionState;
use hzii_net::watch::{keepalive_delay, WatchEvent, WatchRequest, Watcher};

fn login_info() -> LoginInfo {
    LoginInfo {
        username: "u".to_owned(),
        login_time: "t0".to_owned(),
        login_ip: "ip0".to_owned(),
        secret: "s3cret".to_owned(),
        keepalive_interval: 451,
        unix_login_time: "1".to_owned(),
        must_change_password: false,
        can_change_password: true,
    }
}

fn keepalive_info(next: u64) -> KeepaliveInfo {
    KeepaliveInfo {
        next_interval: next,
        online_duration: 1095,
        login_time: "t1".to_owned(),
        username: "u2".to_owned(),
        login_ip: "ip1".to_owned(),
        must_change_password: false,
        can_change_password: true,
    }
}

#[test]
fn session_from_login_and_keepalive() {
    let mut s = SessionState::from_login(login_info());
    assert_eq!(s.secret, "s3cret");
    assert_eq!(s.online_duration, 0);
    assert_eq!(s.keepalive_interval, 451);
    s.update_from_keepalive(keepalive_info(300));
    assert_eq!(s.secret, "s3cret");
    assert_eq!(s.username, "u2");
    assert_eq!(s.login_ip, "ip1");
    assert_eq!(s.login_time, "t1");
    assert_eq!(s.keepalive_interval, 300);
    assert_eq!(s.online_duration, 1095);
}

#[test]
fn delays() {
    let c = Config::default();
    assert_eq!(keepalive_delay(&c, 451), 441);
    assert_eq!(keepalive_delay(&c, 0), 290);
    assert_eq!(keepalive_delay(&c, 12), 5);
    assert_eq!(keepalive_delay(&c, 3), 5);
}

#[test]
fn watch_cycle() {
    let c = Config::default();
    let mut w = Watcher::new(None);
    assert!(matches!(w.next_request(), WatchRequest::Login));
    let d = w.handle(&c, WatchEvent::LoginFailed);
    assert_eq!(d.delay_seconds, 15);
    assert!(!d.save_session && !d.discard_saved_session);
    let d = w.handle(&c, WatchEvent::LoggedIn(SessionState::from_login(login_info())));
    assert_eq!(d.delay_seconds, 441);
    assert!(d.save_session);
    match w.next_request() {
        WatchRequest::Keepalive(secret) => assert_eq!(secret, "s3cret"),
        WatchRequest::Login => panic!(),
    }
    let d = w.handle(&c, WatchEvent::KeptAlive(keepalive_info(100)));
    assert_eq!(d.delay_seconds, 90);
    assert!(d.save_session);
    assert_eq!(w.session.as_ref().unwrap().online_duration, 1095);
    let d = w.handle(&c, WatchEvent::Offline);
    assert!(d.discard_saved_session);
    assert!(w.session.is_none());
    assert_eq!(d.delay_seconds, 15);
}

#[test]
fn failures_in_a_row_drop_the_session() {
    let c = Config::default();
    let mut w = Watcher::new(Some(SessionState::from_login(login_info())));
    let d = w.handle(&c, WatchEvent::KeepaliveFailed);
    assert_eq!((d.failures, d.discard_saved_session), (1, false));
    let d = w.handle(&c, WatchEvent::KeepaliveFailed);
    assert_eq!((d.failures, d.discard_saved_session), (2, false));
    assert!(w.session.is_some());
    let d = w.handle(&c, WatchEvent::KeepaliveFailed);
    assert_eq!((d.failures, d.discard_saved_session), (3, true));
    assert!(w.session.is_none());
    assert_eq!(w.keepalive_failures, 0);
}

#[test]
fn success_resets_failures() {
    let c = Config::default();
    let mut w = Watcher::new(Some(SessionState::from_login(login_info())));
    w.handle(&c, WatchEvent::KeepaliveFailed);
    w.handle(&c, WatchEvent::KeepaliveFailed);
    w.handle(&c, WatchEvent::KeptAlive(keepalive_info(451)));
    assert_eq!(w.keepalive_failures, 0);
    let d = w.handle(&c, WatchEvent::KeepaliveFailed);
    assert_eq!(d.failures, 1);
    assert!(w.session.is_some());
}
