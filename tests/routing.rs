use articles::article::ArticleStore;
use articles::router::{handle, route, Method, Response, Route};

#[test]
fn routing_table() {
    assert_eq!(route(Method::Get, "/"), Route::Root);
    assert_eq!(route(Method::Get, "/welcome"), Route::Welcome);
    assert_eq!(route(Method::Get, "/articles"), Route::Index);
    assert_eq!(route(Method::Post, "/articles"), Route::Create);
    assert_eq!(route(Method::Get, "/articles/new"), Route::NewForm);
    assert_eq!(route(Method::Get, "/articles/7"), Route::Show(7));
    assert_eq!(route(Method::Put, "/articles/7"), Route::Update(7));
    assert_eq!(route(Method::Post, "/articles/7"), Route::Update(7));
    assert_eq!(route(Method::Delete, "/articles/7"), Route::Remove(7));
}

#[test]
fn routing_errors() {
    assert_eq!(route(Method::Get, "/articles/abc"), Route::BadId);
    assert_eq!(route(Method::Get, "/articles/"), Route::BadId);
    assert_eq!(route(Method::Delete, "/articles"), Route::MethodNotAllowed);
    assert_eq!(route(Method::Post, "/welcome"), Route::MethodNotAllowed);
    assert_eq!(route(Method::Other, "/articles/1"), Route::MethodNotAllowed);
    assert_eq!(route(Method::Get, "/nowhere"), Route::NotFound);
    assert_eq!(route(Method::Get, "/articles/1/edit"), Route::NotFound);
}

#[test]
fn post_form_then_show() {
    let mut store = ArticleStore::new();
    let r = handle(&mut store, route(Method::Post, "/articles"), "Hello", "World", 1);
    assert!(matches!(r, Response::RedirectToArticle(1)));
    match handle(&mut store, route(Method::Get, "/articles/1"), "", "", 2) {
        Response::ArticlePage(a) => {
            assert!(a.title.contains("Hello"));
            assert!(a.body.contains("World"));
        }
        _ => panic!("expected the article page"),
    }
}

#[test]
fn post_form_with_empty_title_rerenders() {
    let mut store = ArticleStore::new();
    let before = store.list().len();
    let r = handle(&mut store, route(Method::Post, "/articles"), "", "x", 1);
    assert!(matches!(r, Response::FormError));
    assert_eq!(store.list().len(), before);
}

#[test]
fn delete_then_get_is_not_found() {
    let mut store = ArticleStore::new();
    handle(&mut store, Route::Create, "t", "b", 1);
    let r = handle(&mut store, route(Method::Delete, "/articles/1"), "", "", 2);
    assert!(matches!(r, Response::RedirectToIndex));
    let r = handle(&mut store, route(Method::Get, "/articles/1"), "", "", 3);
    assert!(matches!(r, Response::NotFound));
}

#[test]
fn update_through_handler() {
    let mut store = ArticleStore::new();
    handle(&mut store, Route::Create, "t", "b", 1);
    assert!(matches!(handle(&mut store, Route::Update(1), "n", "c", 2), Response::RedirectToArticle(1)));
    assert!(matches!(handle(&mut store, Route::Update(1), " ", "c", 3), Response::FormError));
    assert!(matches!(handle(&mut store, Route::Update(9), "n", "c", 3), Response::NotFound));
    match handle(&mut store, Route::Index, "", "", 4) {
        Response::IndexPage(v) => {
            assert_eq!(v.len(), 1);
            assert_eq!(v[0].body, "c");
        }
        _ => panic!("expected the index page"),
    }
}

#[test]
fn static_routes_answer() {
    let mut store = ArticleStore::new();
    assert!(matches!(handle(&mut store, Route::Root, "", "", 0), Response::RedirectWelcome));
    assert!(matches!(handle(&mut store, Route::Welcome, "", "", 0), Response::WelcomePage));
    assert!(matches!(handle(&mut store, Route::NewForm, "", "", 0), Response::NewForm));
    assert!(matches!(handle(&mut store, Route::BadId, "", "", 0), Response::BadRequest));
    assert!(matches!(handle(&mut store, Route::NotFound, "", "", 0), Response::NotFound));
    assert!(matches!(handle(&mut store, Route::MethodNotAllowed, "", "", 0), Response::MethodNotAllowed));
}
