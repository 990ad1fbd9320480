use articles::article::{ArticleError, ArticleStore};

#[test]
fn create_then_show_returns_fields() {
    let mut store = ArticleStore::new();
    let a = store.create("Hello", "World", 100).unwrap();
    assert_eq!(a.id, 1);
    let shown = store.show(a.id).unwrap();
    assert_eq!(shown.title, "Hello");
    assert_eq!(shown.body, "World");
    assert_eq!(shown.created_at, 100);
    assert_eq!(shown.updated_at, 100);
}

#[test]
fn create_trims_title_and_keeps_body() {
    let mut store = ArticleStore::new();
    let a = store.create("  \tHi there \n", "  body  ", 5).unwrap();
    assert_eq!(a.title, "Hi there");
    assert_eq!(a.body, "  body  ");
}

#[test]
fn create_accepts_empty_body() {
    let mut store = ArticleStore::new();
    let a = store.create("T", "", 1).unwrap();
    assert_eq!(store.show(a.id).unwrap().body, "");
}

#[test]
fn blank_title_is_rejected_and_nothing_stored() {
    let mut store = ArticleStore::new();
    store.create("first", "x", 1).unwrap();
    let before = store.list().len();
    assert_eq!(store.create(" \t\r\n\u{3000}", "x", 2).err(), Some(ArticleError::Validation));
    assert_eq!(store.list().len(), before);
    assert_eq!(store.len(), 1);
}

#[test]
fn empty_title_is_rejected() {
    let mut store = ArticleStore::new();
    assert_eq!(store.create("", "x", 2).err(), Some(ArticleError::Validation));
    assert_eq!(store.len(), 0);
}

#[test]
fn ids_ascend_and_list_is_ordered() {
    let mut store = ArticleStore::new();
    store.create("a", "", 1).unwrap();
    store.create("b", "", 2).unwrap();
    store.create("c", "", 3).unwrap();
    let ids: Vec<u64> = store.list().iter().map(|a| a.id).collect();
    assert_eq!(ids, vec![1, 2, 3]);
}

#[test]
fn update_changes_title_body_and_time() {
    let mut store = ArticleStore::new();
    let a = store.create("old", "old body", 100).unwrap();
    let u = store.update(a.id, " new ", "new body", 200).unwrap();
    assert_eq!(u.title, "new");
    assert_eq!(u.body, "new body");
    assert_eq!(u.created_at, 100);
    assert_eq!(u.updated_at, 200);
    let shown = store.show(a.id).unwrap();
    assert_eq!(shown.title, "new");
    assert_eq!(shown.created_at, 100);
}

#[test]
fn update_time_advances_even_with_stale_clock() {
    let mut store = ArticleStore::new();
    let a = store.create("t", "b", 100).unwrap();
    let u = store.update(a.id, "t", "c", 50).unwrap();
    assert_eq!(u.updated_at, 101);
    let u2 = store.update(a.id, "t", "d", 101).unwrap();
    assert_eq!(u2.updated_at, 102);
}

#[test]
fn update_missing_is_not_found() {
    let mut store = ArticleStore::new();
    assert_eq!(store.update(7, "t", "b", 1).err(), Some(ArticleError::NotFound));
}

#[test]
fn update_with_blank_title_is_rejected() {
    let mut store = ArticleStore::new();
    let a = store.create("t", "b", 1).unwrap();
    assert_eq!(store.update(a.id, "   ", "z", 2).err(), Some(ArticleError::Validation));
    assert_eq!(store.show(a.id).unwrap().body, "b");
}

#[test]
fn delete_then_show_is_not_found() {
    let mut store = ArticleStore::new();
    let a = store.create("t", "b", 1).unwrap();
    assert_eq!(store.delete(a.id), Ok(()));
    assert_eq!(store.show(a.id).err(), Some(ArticleError::NotFound));
    assert_eq!(store.len(), 0);
}

#[test]
fn delete_missing_is_not_found() {
    let mut store = ArticleStore::new();
    assert_eq!(store.delete(3), Err(ArticleError::NotFound));
}

#[test]
fn ids_are_not_reused_after_delete() {
    let mut store = ArticleStore::new();
    let a = store.create("a", "", 1).unwrap();
    store.delete(a.id).unwrap();
    let b = store.create("b", "", 2).unwrap();
    assert_eq!(b.id, 2);
}

#[test]
fn two_updates_leave_one_submitted_body() {
    let mut store = ArticleStore::new();
    let a = store.create("t", "start", 1).unwrap();
    store.update(a.id, "t", "first", 2).unwrap();
    store.update(a.id, "t", "second", 3).unwrap();
    assert_eq!(store.show(a.id).unwrap().body, "second");

    let mut other = ArticleStore::new();
    let b = other.create("t", "start", 1).unwrap();
    other.update(b.id, "t", "second", 2).unwrap();
    other.update(b.id, "t", "first", 3).unwrap();
    assert_eq!(other.show(b.id).unwrap().body, "first");
}

fn row(id: u64, title: &str) -> articles::article::Article {
    articles::article::Article {
        id,
        title: title.to_string(),
        body: String::new(),
        created_at: 1,
        updated_at: 1,
    }
}

#[test]
fn restore_rebuilds_and_continues_ids() {
    let mut store = ArticleStore::restore(vec![row(2, "a"), row(5, "b")]).unwrap();
    assert_eq!(store.len(), 2);
    assert_eq!(store.show(5).unwrap().title, "b");
    assert_eq!(store.create("c", "", 9).unwrap().id, 6);
    let mut empty = ArticleStore::restore(Vec::new()).unwrap();
    assert_eq!(empty.create("x", "", 1).unwrap().id, 1);
}

#[test]
fn restore_refuses_inconsistent_rows() {
    assert!(ArticleStore::restore(vec![row(5, "a"), row(2, "b")]).is_none());
    assert!(ArticleStore::restore(vec![row(1, "a"), row(1, "b")]).is_none());
    assert!(ArticleStore::restore(vec![row(1, "")]).is_none());
    assert!(ArticleStore::restore(vec![row(u64::MAX, "a")]).is_none());
}
