use intiface_webhook::session_manager::SessionManager;

fn is_uuid_v4_text(s: &str) -> bool {
    let b = s.as_bytes();
    if b.len() != 36 {
        return false;
    }
    for (i, c) in b.iter().enumerate() {
        let ok = if i == 8 || i == 13 || i == 18 || i == 23 {
            *c == b'-'
        } else {
            c.is_ascii_digit() || (b'a'..=b'f').contains(c)
        };
        if !ok {
            return false;
        }
    }
    b[14] == b'4' && matches!(b[19], b'8' | b'9' | b'a' | b'b')
}

#[test]
fn new_manager_is_empty() {
    let m = SessionManager::new(5);
    assert!(m.list_sessions().is_empty());
    assert!(m.validate_pairing_token("anything").is_none());
}

#[test]
fn create_session_stores_a_fresh_session() {
    let mut m = SessionManager::new(5);
    let s = m.create_session("user-1".to_string());
    assert_eq!(s.firebase_uid, "user-1");
    assert!(s.react_webhook_url.is_none());
    assert!(is_uuid_v4_text(&s.session_id));
    assert!(is_uuid_v4_text(&s.pairing_token));
    assert_ne!(s.session_id, s.pairing_token);
    assert!(s.created_at > 1_600_000_000);
    let found = m.validate_pairing_token(&s.pairing_token).unwrap();
    assert_eq!(found.session_id, s.session_id);
    assert_eq!(m.list_sessions().len(), 1);
}

#[test]
fn uuid_strings_have_the_v4_shape_and_differ() {
    let mut m = SessionManager::new(5);
    let a = m.create_session("u".to_string()).session_id;
    let b = m.create_session("u".to_string()).session_id;
    assert!(is_uuid_v4_text(&a));
    assert!(is_uuid_v4_text(&b));
    assert_ne!(a, b);
}

#[test]
fn validate_pairing_token_finds_only_known_tokens() {
    let mut m = SessionManager::new(5);
    m.add_session("u1".to_string(), "s1".to_string(), "t1".to_string(), 10);
    m.add_session("u2".to_string(), "s2".to_string(), "t2".to_string(), 20);
    assert_eq!(m.validate_pairing_token("t2").unwrap().session_id, "s2");
    assert_eq!(m.validate_pairing_token("t1").unwrap().firebase_uid, "u1");
    assert!(m.validate_pairing_token("t3").is_none());
    assert!(m.validate_pairing_token("").is_none());
    assert!(m.validate_pairing_token("s1").is_none());
}

#[test]
fn revoke_session_reports_whether_it_existed() {
    let mut m = SessionManager::new(5);
    m.add_session("u1".to_string(), "s1".to_string(), "t1".to_string(), 10);
    assert!(m.revoke_session("s1"));
    assert!(m.validate_pairing_token("t1").is_none());
    assert!(!m.revoke_session("s1"));
    assert!(!m.revoke_session("never"));
    assert!(m.list_sessions().is_empty());
}

#[test]
fn list_sessions_orders_by_creation_time() {
    let mut m = SessionManager::new(10);
    m.add_session("u".to_string(), "c".to_string(), "tc".to_string(), 30);
    m.add_session("u".to_string(), "a".to_string(), "ta".to_string(), 10);
    m.add_session("u".to_string(), "d".to_string(), "td".to_string(), 40);
    m.add_session("u".to_string(), "b".to_string(), "tb".to_string(), 20);
    let ids: Vec<&str> = m.list_sessions().iter().map(|s| s.session_id.as_str()).collect();
    assert_eq!(ids, vec!["a", "b", "c", "d"]);
}

#[test]
fn full_manager_drops_the_oldest_session() {
    let mut m = SessionManager::new(2);
    m.add_session("u".to_string(), "s1".to_string(), "t1".to_string(), 50);
    m.add_session("u".to_string(), "s2".to_string(), "t2".to_string(), 5);
    m.add_session("u".to_string(), "s3".to_string(), "t3".to_string(), 60);
    let ids: Vec<&str> = m.list_sessions().iter().map(|s| s.session_id.as_str()).collect();
    assert_eq!(ids, vec!["s1", "s3"]);
    assert!(m.validate_pairing_token("t2").is_none());
}

#[test]
fn count_stays_within_capacity() {
    let mut m = SessionManager::new(3);
    for i in 0..10u64 {
        m.add_session("u".to_string(), format!("s{}", i), format!("t{}", i), i);
        assert!(m.list_sessions().len() <= 3);
    }
    let ids: Vec<&str> = m.list_sessions().iter().map(|s| s.session_id.as_str()).collect();
    assert_eq!(ids, vec!["s7", "s8", "s9"]);
}

#[test]
fn zero_capacity_keeps_only_the_newest() {
    let mut m = SessionManager::new(0);
    m.add_session("u".to_string(), "s1".to_string(), "t1".to_string(), 1);
    m.add_session("u".to_string(), "s2".to_string(), "t2".to_string(), 2);
    let ids: Vec<&str> = m.list_sessions().iter().map(|s| s.session_id.as_str()).collect();
    assert_eq!(ids, vec!["s2"]);
}

#[test]
fn adding_under_an_existing_id_replaces_it() {
    let mut m = SessionManager::new(5);
    m.add_session("u1".to_string(), "s".to_string(), "t1".to_string(), 1);
    m.add_session("u2".to_string(), "s".to_string(), "t2".to_string(), 2);
    let list = m.list_sessions();
    assert_eq!(list.len(), 1);
    assert_eq!(list[0].firebase_uid, "u2");
    assert!(m.validate_pairing_token("t1").is_none());
}

#[test]
fn set_react_webhook_url_on_known_and_unknown_sessions() {
    let mut m = SessionManager::new(5);
    m.add_session("u1".to_string(), "s1".to_string(), "t1".to_string(), 1);
    assert!(m.set_react_webhook_url("s1", "https://example.com/hook".to_string()));
    assert!(!m.set_react_webhook_url("s2", "https://example.com/other".to_string()));
    let list = m.list_sessions();
    assert_eq!(list.len(), 1);
    assert_eq!(list[0].react_webhook_url.as_deref(), Some("https://example.com/hook"));
    assert_eq!(list[0].pairing_token, "t1");
    assert_eq!(m.validate_pairing_token("t1").unwrap().session_id, "s1");
}

#[test]
fn ties_in_creation_time_evict_one_of_the_oldest() {
    let mut m = SessionManager::new(2);
    m.add_session("u".to_string(), "s1".to_string(), "t1".to_string(), 5);
    m.add_session("u".to_string(), "s2".to_string(), "t2".to_string(), 5);
    m.add_session("u".to_string(), "s3".to_string(), "t3".to_string(), 9);
    let ids: Vec<&str> = m.list_sessions().iter().map(|s| s.session_id.as_str()).collect();
    assert_eq!(ids.len(), 2);
    assert_eq!(ids[1], "s3");
    assert!(ids[0] == "s1" || ids[0] == "s2");
}

#[test]
fn a_sole_token_keeps_finding_its_session_across_later_calls() {
    let mut m = SessionManager::new(3);
    let s = m.create_session("uid-1".to_string());
    m.add_session("u".to_string(), "other".to_string(), "t-other".to_string(), s.created_at + 1);
    assert!(m.set_react_webhook_url(&s.session_id, "https://hook".to_string()));
    assert!(m.revoke_session("other"));
    m.add_session("u".to_string(), "late".to_string(), "t-late".to_string(), s.created_at + 2);
    let found = m.validate_pairing_token(&s.pairing_token).unwrap();
    assert_eq!(found.session_id, s.session_id);
    assert_eq!(found.firebase_uid, "uid-1");
    assert_eq!(found.pairing_token, s.pairing_token);
    assert_eq!(found.created_at, s.created_at);
    assert!(m.revoke_session(&s.session_id));
    assert!(m.validate_pairing_token(&s.pairing_token).is_none());
}
