use multibot::error::{AddBotError, BotError};
use multibot::server::{BotServerBuilder, PendingBot, Supervisor};

fn builder(host: &str) -> BotServerBuilder {
    BotServerBuilder::new(host.to_string(), 8080)
}

fn pending(b: &BotServerBuilder, token: &str) -> PendingBot {
    match b.prepare_bot(token) {
        Ok(p) => p,
        Err(e) => panic!("token {} refused: {}", token, e.subject()),
    }
}

#[test]
fn two_bots_get_their_routes() {
    let mut b = builder("http://localhost");
    let p1 = pending(&b, "111:AAA");
    let p2 = pending(&b, "222:BBB");
    assert_eq!(b.register(p1), "111");
    assert_eq!(b.register(p2), "222");
    let (routes, ids, sup) = b.build();
    assert_eq!(routes, vec!["http://localhost/bot/111".to_string(), "http://localhost/bot/222".to_string()]);
    assert_eq!(ids, vec!["111".to_string(), "222".to_string()]);
    assert!(sup.is_serving());
    assert!(sup.is_running(0));
    assert!(sup.is_running(1));
}

#[test]
fn many_bots_get_distinct_routes() {
    let mut b = builder("https://bots.example.org");
    let n: usize = 20;
    for i in 0..n {
        let token = format!("{}:secret{}", 1000 + i, i);
        let p = pending(&b, &token);
        b.register(p);
    }
    let (routes, ids, _) = b.build();
    assert_eq!(routes.len(), n);
    assert_eq!(ids.len(), n);
    for i in 0..n {
        assert_eq!(routes[i], format!("https://bots.example.org/bot/{}", 1000 + i));
        for j in 0..i {
            assert_ne!(routes[i], routes[j]);
        }
    }
}

#[test]
fn token_without_separator_is_refused() {
    let mut b = builder("http://localhost");
    let bad = b.prepare_bot("nocolonhere");
    match bad {
        Err(AddBotError::IdParse(t)) => assert_eq!(t, "nocolonhere"),
        _ => panic!("expected IdParse"),
    }
    let good = pending(&b, "333:CCC");
    b.register(good);
    let (routes, ids, _) = b.build();
    assert_eq!(routes, vec!["http://localhost/bot/333".to_string()]);
    assert_eq!(ids, vec!["333".to_string()]);
}

#[test]
fn empty_token_is_refused() {
    let b = builder("http://localhost");
    assert!(matches!(b.prepare_bot(""), Err(AddBotError::IdParse(_))));
}

#[test]
fn identity_stops_at_first_separator() {
    let b = builder("http://localhost");
    let p = pending(&b, "42:abc:def");
    assert_eq!(p.bot_id(), "42");
    assert_eq!(p.route(), "http://localhost/bot/42");
    assert_eq!(p.url().as_str(), "http://localhost/bot/42");
}

#[test]
fn bad_host_fails_with_url_parse() {
    let b = builder("not a url");
    match b.prepare_bot("111:AAA") {
        Err(AddBotError::UrlParse(e)) => assert_eq!(e.bot_id(), "111"),
        _ => panic!("expected UrlParse"),
    }
    let good = builder("http://localhost");
    assert!(good.prepare_bot("111:AAA").is_ok());
}

#[test]
fn host_with_illegal_character_fails_with_url_parse() {
    let b = builder("http://exa mple.com");
    let r = b.prepare_bot("7:x");
    assert!(matches!(r, Err(AddBotError::UrlParse(_))));
    if let Err(e) = r {
        assert_eq!(e.subject(), "7");
    }
}

#[test]
fn duplicate_identity_keeps_one_route() {
    let mut b = builder("http://localhost");
    let p1 = pending(&b, "5:first");
    let p2 = pending(&b, "5:second");
    b.register(p1);
    b.register(p2);
    let (routes, ids, sup) = b.build();
    assert_eq!(routes, vec!["http://localhost/bot/5".to_string()]);
    assert_eq!(ids.len(), 2);
    assert!(sup.is_running(1));
}

#[test]
fn bind_address_is_loopback() {
    let b = builder("http://localhost");
    assert_eq!(b.bind_address(), ([127, 0, 0, 1], 8080));
    assert_eq!(b.host(), "http://localhost");
}

#[test]
fn one_stop_handle_stops_one_bot() {
    let mut s = Supervisor::new(3);
    s.stop_fired(1);
    assert!(s.is_running(0));
    assert!(!s.is_running(1));
    assert!(s.is_running(2));
    assert!(!s.is_serving());
    s.stop_fired(1);
    assert!(s.is_running(0));
    assert!(!s.is_running(1));
}

#[test]
fn server_failure_stops_every_bot() {
    let mut s = Supervisor::new(3);
    let fire = s.server_failed();
    assert_eq!(fire, vec![0, 1, 2]);
    for i in 0..3 {
        assert!(!s.is_running(i));
    }
    assert!(!s.is_serving());
}

#[test]
fn bot_error_keeps_its_parts() {
    let e = BotError::new("12".to_string(), 7u8);
    assert_eq!(e.bot_id(), "12");
    assert_eq!(*e.inner(), 7);
    let (id, inner) = e.into_parts();
    assert_eq!(id, "12");
    assert_eq!(inner, 7);
}

#[test]
fn id_parse_subject_is_token() {
    let e = AddBotError::IdParse("tok".to_string());
    assert_eq!(e.subject(), "tok");
}
