//! The routing table and the request handlers: which operation a method and
//! path select, and what response each outcome of that operation gives.
use vstd::prelude::*;
use crate::article::{
    Article, ArticleError, ArticleStore, spec_create, spec_delete, spec_show, spec_update,
};
use crate::text::{after_prefix, all_digits, contains_char, decimal_value, parse_u64, same_text};

verus! {

/// Request methods that the routing table tells apart.
#[derive(Debug, Clone, Copy, PartialEq, Eq, Structural)]
pub enum Method {
    Get,
    Post,
    Put,
    Delete,
    Other,
}

/// The operation a request selects.
#[derive(Debug, Clone, Copy, PartialEq, Eq, Structural)]
pub enum Route {
    /// `GET /`: redirect to the welcome page.
    Root,
    /// `GET /welcome`.
    Welcome,
    /// `GET /articles`: list.
    Index,
    /// `GET /articles/new`: the empty creation form.
    NewForm,
    /// `POST /articles`: create from the form.
    Create,
    /// `GET /articles/:id`.
    Show(u64),
    /// `PUT` or `POST /articles/:id`: update from the form.
    Update(u64),
    /// `DELETE /articles/:id`.
    Remove(u64),
    /// An article path whose id is not an unsigned integer.
    BadId,
    /// A known path with a method it does not take.
    MethodNotAllowed,
    /// No route has this path.
    NotFound,
}

/// The collection path.
pub open spec fn articles_path() -> Seq<char> {
    "/articles"@
}

/// The prefix of a single article's path.
pub open spec fn article_prefix() -> Seq<char> {
    "/articles/"@
}

/// The id segment of a path under the article prefix, if it is one.
pub open spec fn id_segment(p: Seq<char>) -> Option<Seq<char>> {
    let n = article_prefix().len();
    if n <= p.len() && p.subrange(0, n as int) == article_prefix() && !p.subrange(
        n as int,
        p.len() as int,
    ).contains('/') {
        Some(p.subrange(n as int, p.len() as int))
    } else {
        None
    }
}

/// The segment spells an unsigned 64-bit integer.
pub open spec fn is_id(seg: Seq<char>) -> bool {
    seg.len() > 0 && all_digits(seg) && decimal_value(seg) <= u64::MAX
}

/// The routing table.
pub open spec fn spec_route(m: Method, p: Seq<char>) -> Route {
    if p == "/"@ {
        if m == Method::Get { Route::Root } else { Route::MethodNotAllowed }
    } else if p == "/welcome"@ {
        if m == Method::Get { Route::Welcome } else { Route::MethodNotAllowed }
    } else if p == articles_path() {
        match m {
            Method::Get => Route::Index,
            Method::Post => Route::Create,
            _ => Route::MethodNotAllowed,
        }
    } else if p == "/articles/new"@ {
        if m == Method::Get { Route::NewForm } else { Route::MethodNotAllowed }
    } else if id_segment(p) is Some {
        let seg = id_segment(p)->Some_0;
        if m == Method::Other {
            Route::MethodNotAllowed
        } else if !is_id(seg) {
            Route::BadId
        } else {
            let id = decimal_value(seg) as u64;
            match m {
                Method::Get => Route::Show(id),
                Method::Delete => Route::Remove(id),
                _ => Route::Update(id),
            }
        }
    } else {
        Route::NotFound
    }
}

/// Selects the operation for a request.
pub fn route(method: Method, path: &str) -> (r: Route)
    ensures
        r == spec_route(method, path@),
{
    if same_text(path, "/") {
        return if method == Method::Get { Route::Root } else { Route::MethodNotAllowed };
    }
    if same_text(path, "/welcome") {
        return if method == Method::Get { Route::Welcome } else { Route::MethodNotAllowed };
    }
    if same_text(path, "/articles") {
        return match method {
            Method::Get => Route::Index,
            Method::Post => Route::Create,
            _ => Route::MethodNotAllowed,
        };
    }
    if same_text(path, "/articles/new") {
        return if method == Method::Get { Route::NewForm } else { Route::MethodNotAllowed };
    }
    let seg = match after_prefix(path, "/articles/") {
        Some(s) => s,
        None => return Route::NotFound,
    };
    if contains_char(seg.as_str(), '/') {
        return Route::NotFound;
    }
    if method == Method::Other {
        return Route::MethodNotAllowed;
    }
    match parse_u64(seg.as_str()) {
        None => Route::BadId,
        Some(id) => match method {
            Method::Get => Route::Show(id),
            Method::Delete => Route::Remove(id),
            _ => Route::Update(id),
        },
    }
}

/// What a handler answers.
pub enum Response {
    /// Redirect to `/welcome`.
    RedirectWelcome,
    /// The welcome page.
    WelcomePage,
    /// The index page with these articles.
    IndexPage(Vec<Article>),
    /// The empty creation form.
    NewForm,
    /// The submitted form again, marked invalid (a client error).
    FormError,
    /// Redirect (see other) to `/articles/:id`.
    RedirectToArticle(u64),
    /// The page of one article.
    ArticlePage(Article),
    /// Redirect to `/articles`.
    RedirectToIndex,
    /// Not found.
    NotFound,
    /// Malformed request.
    BadRequest,
    /// Method not allowed.
    MethodNotAllowed,
    /// The store could not take the write.
    ServerError,
}

/// Runs the operation that `route` selects against `store`. `title` and
/// `body` are the submitted form fields, used by creation and update; `now`
/// is the clock reading for timestamps.
pub fn handle(store: &mut ArticleStore, route: Route, title: &str, body: &str, now: u64) -> (r: Response)
    requires
        old(store).wf(),
    ensures
        final(store).wf(),
        !(route is Create || route is Update || route is Remove) ==> final(store)@ == old(store)@,
        route is Root ==> r is RedirectWelcome,
        route is Welcome ==> r is WelcomePage,
        route is NewForm ==> r is NewForm,
        route is BadId ==> r is BadRequest,
        route is MethodNotAllowed ==> r is MethodNotAllowed,
        route is NotFound ==> r is NotFound,
        route is Index ==> (r matches Response::IndexPage(v) && v@.map_values(|a: Article| a@)
            == old(store)@.rows),
        route is Create ==> ({
            let (s2, res) = spec_create(old(store)@, title@, body@, now);
            &&& final(store)@ == s2
            &&& res matches Ok(a) ==> r == Response::RedirectToArticle(a.id)
            &&& res == Err::<crate::article::ArticleModel, ArticleError>(ArticleError::Validation) ==> r is FormError
            &&& res == Err::<crate::article::ArticleModel, ArticleError>(ArticleError::Storage) ==> r is ServerError
        }),
        route matches Route::Show(id) ==> ({
            let res = spec_show(old(store)@, id);
            &&& res matches Ok(a) ==> (r matches Response::ArticlePage(b) && b@ == a)
            &&& res is Err ==> r is NotFound
        }),
        route matches Route::Update(id) ==> ({
            let (s2, res) = spec_update(old(store)@, id, title@, body@, now);
            &&& final(store)@ == s2
            &&& res matches Ok(a) ==> r == Response::RedirectToArticle(id)
            &&& res == Err::<crate::article::ArticleModel, ArticleError>(ArticleError::Validation) ==> r is FormError
            &&& res == Err::<crate::article::ArticleModel, ArticleError>(ArticleError::NotFound) ==> r is NotFound
        }),
        route matches Route::Remove(id) ==> ({
            let (s2, res) = spec_delete(old(store)@, id);
            &&& final(store)@ == s2
            &&& res is Ok ==> r is RedirectToIndex
            &&& res is Err ==> r is NotFound
        }),
{
    match route {
        Route::Root => Response::RedirectWelcome,
        Route::Welcome => Response::WelcomePage,
        Route::Index => Response::IndexPage(store.list()),
        Route::NewForm => Response::NewForm,
        Route::Create => match store.create(title, body, now) {
            Ok(a) => Response::RedirectToArticle(a.id),
            Err(ArticleError::Validation) => Response::FormError,
            Err(_) => Response::ServerError,
        },
        Route::Show(id) => match store.show(id) {
            Ok(a) => Response::ArticlePage(a),
            Err(_) => Response::NotFound,
        },
        Route::Update(id) => match store.update(id, title, body, now) {
            Ok(_) => Response::RedirectToArticle(id),
            Err(ArticleError::Validation) => Response::FormError,
            Err(_) => Response::NotFound,
        },
        Route::Remove(id) => match store.delete(id) {
            Ok(()) => Response::RedirectToIndex,
            Err(_) => Response::NotFound,
        },
        Route::BadId => Response::BadRequest,
        Route::MethodNotAllowed => Response::MethodNotAllowed,
        Route::NotFound => Response::NotFound,
    }
}

} // verus!
