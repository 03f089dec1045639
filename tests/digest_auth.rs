use abbrws::digest_auth_cache::usable_answer;
use abbrws::{AuthStep, DigestAuthCache, Method};

const CHALLENGE: &str = "Digest realm=\"validusers@robapi.abb\", domain=\"/\", qop=\"auth\", nonce=\"8b0b05b3a7e0d0e1b3f5\", algorithm=MD5, stale=FALSE";

fn cache() -> DigestAuthCache {
    DigestAuthCache::new("Default User".to_string(), "robotics".to_string())
}

#[test]
fn no_challenge_then_401_then_200_sends_twice() {
    let mut cache = cache();
    let mut attempt = cache.start();
    let mut sent = 0;
    assert!(cache.authorization(Method::Get, "/rw/iosystem/signals").is_none());
    sent += 1;
    let step = cache.on_response(&mut attempt, 401, Some(CHALLENGE.as_bytes()));
    assert_eq!(step, AuthStep::Retry);
    assert!(cache.has_challenge());
    let header = cache.authorization(Method::Get, "/rw/iosystem/signals").unwrap();
    assert!(header.starts_with("Digest "));
    assert!(header.contains("username=\"Default User\""));
    assert!(header.contains("uri=\"/rw/iosystem/signals\""));
    sent += 1;
    assert_eq!(cache.on_response(&mut attempt, 200, None), AuthStep::Done);
    assert_eq!(sent, 2);
    assert!(cache.has_challenge());
}

#[test]
fn cached_challenge_then_200_sends_once() {
    let mut cache = cache();
    let mut first = cache.start();
    assert_eq!(cache.on_response(&mut first, 401, Some(CHALLENGE.as_bytes())), AuthStep::Retry);
    let mut attempt = cache.start();
    assert!(cache.authorization(Method::Post, "/rw/iosystem/signals/x").is_some());
    assert_eq!(cache.on_response(&mut attempt, 200, None), AuthStep::Done);
}

#[test]
fn cached_challenge_then_unparsable_401_is_returned() {
    let mut cache = cache();
    let mut first = cache.start();
    assert_eq!(cache.on_response(&mut first, 401, Some(CHALLENGE.as_bytes())), AuthStep::Retry);
    let mut attempt = cache.start();
    assert_eq!(cache.on_response(&mut attempt, 401, Some(b"Basic realm=\"x\"".as_slice())), AuthStep::Done);
    assert_eq!(cache.on_response(&mut attempt, 401, None), AuthStep::Done);
    assert!(cache.has_challenge());
}

#[test]
fn second_401_is_not_retried() {
    let mut cache = cache();
    let mut attempt = cache.start();
    assert_eq!(cache.on_response(&mut attempt, 401, Some(CHALLENGE.as_bytes())), AuthStep::Retry);
    assert_eq!(cache.on_response(&mut attempt, 401, Some(CHALLENGE.as_bytes())), AuthStep::Done);
}

#[test]
fn put_answer_names_the_path() {
    let mut cache = cache();
    let mut attempt = cache.start();
    cache.on_response(&mut attempt, 401, Some(CHALLENGE.as_bytes()));
    let header = cache.authorization(Method::Put, "/fileservice/HOME/a.txt").unwrap();
    assert!(header.contains("uri=\"/fileservice/HOME/a.txt\""));
}

#[test]
fn answers_must_be_header_values() {
    assert_eq!(usable_answer(None), None);
    assert_eq!(usable_answer(Some("Digest a=\"b\"".to_string())), Some("Digest a=\"b\"".to_string()));
    assert_eq!(usable_answer(Some("bad\nvalue".to_string())), None);
    assert_eq!(usable_answer(Some("tab\tis fine".to_string())), Some("tab\tis fine".to_string()));
    assert_eq!(usable_answer(Some("del\u{7f}".to_string())), None);
    assert_eq!(usable_answer(Some("caf\u{e9}".to_string())), Some("caf\u{e9}".to_string()));
}

#[test]
fn non_ascii_challenge_is_not_read() {
    let mut cache = cache();
    let mut attempt = cache.start();
    let header = "Digest realm=\"r\u{e9}\", a\u{e9}=1, nonce=\"n\"";
    assert_eq!(cache.on_response(&mut attempt, 401, Some(header.as_bytes())), AuthStep::Done);
    assert!(!cache.has_challenge());
}

#[test]
fn answer_quotes_user_and_path() {
    let mut cache = DigestAuthCache::new("a\"b\\c".to_string(), "pw".to_string());
    let mut attempt = cache.start();
    assert_eq!(cache.on_response(&mut attempt, 401, Some(CHALLENGE.as_bytes())), AuthStep::Retry);
    let header = cache.authorization(Method::Get, "/p\"q").unwrap();
    assert!(header.starts_with("Digest username=\"a\\\"b\\\\c\", "), "{}", header);
    assert!(header.contains(", uri=\"/p\\\"q\""), "{}", header);
}

#[test]
fn newer_challenge_replaces_cached_one() {
    let mut cache = cache();
    let mut first = cache.start();
    assert_eq!(cache.on_response(&mut first, 401, Some(CHALLENGE.as_bytes())), AuthStep::Retry);
    let newer = "Digest realm=\"other\", qop=\"auth\", nonce=\"fresh\", algorithm=MD5";
    let mut second = cache.start();
    assert_eq!(cache.on_response(&mut second, 401, Some(newer.as_bytes())), AuthStep::Retry);
    let header = cache.authorization(Method::Get, "/").unwrap();
    assert!(header.contains("realm=\"other\""), "{}", header);
    assert!(header.contains("nonce=\"fresh\""), "{}", header);
}
