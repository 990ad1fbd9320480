use articles::session::{open_session, start_session, SessionError, SessionRow, SessionTable};
use articles::signing::verify;

const SECRET: &[u8] = b"an example secret of thirty-two bytes or more";

#[test]
fn create_get_and_expire() {
    let mut t = SessionTable::new();
    let row = t.create_session("abc", "{}", 10, 100).unwrap();
    assert_eq!(row.expires_at, 110);
    assert_eq!(t.get_session("abc", 109).unwrap().data, "{}");
    assert_eq!(t.get_session("abc", 110).err(), Some(SessionError::Expired));
    assert_eq!(t.get_session("zzz", 100).err(), Some(SessionError::NotFound));
    assert_eq!(t.create_session("abc", "", 10, 100).err(), Some(SessionError::Duplicate));
}

#[test]
fn expiry_saturates() {
    let mut t = SessionTable::new();
    let row = t.create_session("a", "", u64::MAX, 5).unwrap();
    assert_eq!(row.expires_at, u64::MAX);
}

#[test]
fn touch_slides_expiry_and_saves_data() {
    let mut t = SessionTable::new();
    t.create_session("abc", "", 10, 100).unwrap();
    let row = t.touch_session("abc", "{\"flash\":\"saved\"}", 10, 105).unwrap();
    assert_eq!(row.expires_at, 115);
    assert_eq!(t.get_session("abc", 112).unwrap().data, "{\"flash\":\"saved\"}");
    assert_eq!(t.touch_session("nope", "", 10, 1).err(), Some(SessionError::NotFound));
}

#[test]
fn purge_removes_only_expired_rows() {
    let mut t = SessionTable::new();
    t.create_session("a", "", 10, 0).unwrap();
    t.create_session("b", "", 50, 0).unwrap();
    t.create_session("c", "", 20, 0).unwrap();
    assert_eq!(t.purge_expired(20), 2);
    assert_eq!(t.len(), 1);
    assert!(t.get_session("b", 20).is_ok());
    assert_eq!(t.purge_expired(20), 0);
}

#[test]
fn resolve_reuses_live_and_replaces_expired() {
    let mut t = SessionTable::new();
    assert_eq!(t.resolve(None, "s1", 10, 0), Ok(("s1".to_string(), true)));
    assert_eq!(t.resolve(Some("s1"), "s2", 10, 5), Ok(("s1".to_string(), false)));
    assert_eq!(t.get_session("s1", 5).unwrap().expires_at, 15);
    assert_eq!(t.resolve(Some("s1"), "s3", 10, 15), Ok(("s3".to_string(), true)));
    assert_eq!(t.resolve(Some("s9"), "s3", 10, 10), Err(SessionError::Duplicate));
}

#[test]
fn request_without_cookie_gets_signed_cookie_then_same_session() {
    let mut t = SessionTable::new();
    let (tok, cookie) = open_session(&mut t, None, SECRET, "fresh-token", 60, 0).unwrap();
    assert_eq!(tok, "fresh-token");
    let cookie = cookie.unwrap();
    assert_eq!(verify(&cookie, SECRET), Some("fresh-token".to_string()));
    let (tok2, cookie2) = open_session(&mut t, Some(&cookie), SECRET, "other", 60, 30).unwrap();
    assert_eq!(tok2, "fresh-token");
    assert!(cookie2.is_none());
    assert_eq!(t.len(), 1);
}

#[test]
fn expired_session_cookie_gets_new_session() {
    let mut t = SessionTable::new();
    let (_, cookie) = open_session(&mut t, None, SECRET, "first", 60, 0).unwrap();
    let cookie = cookie.unwrap();
    let (tok, again) = open_session(&mut t, Some(&cookie), SECRET, "second", 60, 60).unwrap();
    assert_eq!(tok, "second");
    assert!(again.is_some());
}

#[test]
fn unsigned_cookie_counts_as_none() {
    let mut t = SessionTable::new();
    t.create_session("known", "", 60, 0).unwrap();
    let (tok, cookie) = open_session(&mut t, Some("known"), SECRET, "new", 60, 1).unwrap();
    assert_eq!(tok, "new");
    assert!(cookie.is_some());
}

#[test]
fn start_session_issues_random_token() {
    let mut t = SessionTable::new();
    let (tok, cookie) = start_session(&mut t, None, SECRET, 60, 0).unwrap();
    assert_eq!(tok.len(), 88);
    assert_eq!(verify(&cookie.unwrap(), SECRET), Some(tok.clone()));
    let (tok2, none) = start_session(&mut t, Some(&articles::signing::sign(&tok, SECRET).unwrap()), SECRET, 60, 1).unwrap();
    assert_eq!(tok2, tok);
    assert!(none.is_none());
}

#[test]
fn restore_keeps_rows_and_refuses_shared_tokens() {
    let row = |id: &str, exp: u64| SessionRow { id: id.to_string(), data: String::new(), expires_at: exp };
    let t = SessionTable::restore(vec![row("a", 10), row("b", 20)]).unwrap();
    assert_eq!(t.len(), 2);
    assert_eq!(t.get_session("b", 15).unwrap().expires_at, 20);
    assert!(SessionTable::restore(vec![row("a", 10), row("b", 20), row("a", 30)]).is_none());
    assert_eq!(SessionTable::restore(Vec::new()).unwrap().len(), 0);
}
