//! The request router: the HTTP verbs and paths the service answers, bound to
//! the store operations and to the presentation form each route calls for.
//! The page shell itself is rendered by an outside template collaborator, so
//! the index route is handed back to the caller as an outcome of its own.

use vstd::prelude::*;

use crate::parse::{parse_create_body, spec_parse_create};
use crate::render::{
    html_of_tasks, html_of_tasks_seq, json_of_task, json_of_task_seq, json_of_tasks,
    json_of_tasks_seq,
};
use crate::store::{contains_id, Store};
use crate::strings::str_eq;

verus! {

/// The verbs the service distinguishes.
#[derive(Clone, Copy, Debug, PartialEq, Eq, Structural)]
pub enum Method {
    Get,
    Post,
}

/// What a response body holds.
#[derive(Clone, Copy, Debug, PartialEq, Eq, Structural)]
pub enum ContentType {
    Html,
    Json,
}

/// The routes the service serves.
#[derive(Clone, Copy, Debug, PartialEq, Eq, Structural)]
pub enum Route {
    Index,
    FragmentList,
    ApiList,
    ApiCreate,
    NotFound,
}

/// A response: its status code, what the body holds, and the body.
pub struct HttpResponse {
    pub status: u16,
    pub content_type: ContentType,
    pub body: String,
}

/// What a request leads to: either the caller renders the page shell (the
/// template collaborator's job), or the service answers with a response.
pub enum Outcome {
    RenderIndex,
    Respond(HttpResponse),
}

/// Which route a verb and a path name.
pub open spec fn route_of(m: Method, path: Seq<char>) -> Route {
    if m == Method::Get && path == "/"@ {
        Route::Index
    } else if m == Method::Get && path == "/fragment-list"@ {
        Route::FragmentList
    } else if m == Method::Get && path == "/api/tasks"@ {
        Route::ApiList
    } else if m == Method::Post && path == "/api/tasks"@ {
        Route::ApiCreate
    } else {
        Route::NotFound
    }
}

/// Resolve a verb and a path to a route.
pub fn dispatch(m: Method, path: &str) -> (r: Route)
    ensures
        r == route_of(m, path@),
{
    match m {
        Method::Get => {
            if str_eq(path, "/") {
                Route::Index
            } else if str_eq(path, "/fragment-list") {
                Route::FragmentList
            } else if str_eq(path, "/api/tasks") {
                Route::ApiList
            } else {
                Route::NotFound
            }
        },
        Method::Post => {
            if str_eq(path, "/api/tasks") {
                Route::ApiCreate
            } else {
                Route::NotFound
            }
        },
    }
}

/// Answer the fragment-list route: every task, as an HTML fragment.
pub fn handle_fragment_list(store: &Store) -> (r: HttpResponse)
    ensures
        r.status == 200,
        r.content_type == ContentType::Html,
        r.body@ == html_of_tasks_seq(store@),
{
    HttpResponse { status: 200, content_type: ContentType::Html, body: html_of_tasks(store.list_all()) }
}

/// Answer the JSON list route: every task, as a JSON array.
pub fn handle_api_list(store: &Store) -> (r: HttpResponse)
    ensures
        r.status == 200,
        r.content_type == ContentType::Json,
        r.body@ == json_of_tasks_seq(store@),
{
    HttpResponse { status: 200, content_type: ContentType::Json, body: json_of_tasks(store.list_all()) }
}

/// Answer the creation route. A malformed body is rejected with a client
/// error before the store is touched; a store failure — only ever an id
/// collision, which an empty store cannot have — surfaces as a server error
/// with the store unchanged; otherwise the created task comes back as JSON
/// under a created status.
pub fn handle_api_create(store: &mut Store, body: &str) -> (r: HttpResponse)
    requires
        old(store).wf(),
    ensures
        final(store).wf(),
        r.status == 400 || r.status == 201 || r.status == 500,
        (r.status == 400) <==> spec_parse_create(body@) is None,
        r.status == 400 || r.status == 500 ==> final(store)@ == old(store)@ && r.body@
            == Seq::<char>::empty(),
        r.status == 500 ==> old(store)@.len() > 0,
        r.status == 201 ==> final(store)@.len() == old(store)@.len() + 1 && final(store)@
            == old(store)@.push(final(store)@.last()) && Some(final(store)@.last().text)
            == spec_parse_create(body@) && final(store)@.last().completed == false
            && final(store)@.last().id.len() == 36 && !contains_id(
            old(store)@,
            final(store)@.last().id,
        ) && r.content_type == ContentType::Json && r.body@ == json_of_task_seq(
            final(store)@.last(),
        ),
{
    match parse_create_body(body) {
        Err(_) => HttpResponse { status: 400, content_type: ContentType::Json, body: String::new() },
        Ok(text) => {
            match store.create(text) {
                Err(_) => HttpResponse {
                    status: 500,
                    content_type: ContentType::Json,
                    body: String::new(),
                },
                Ok(t) => {
                    let b = json_of_task(&t);
                    proof {
                        assert(store@.last() == t@);
                    }
                    HttpResponse { status: 201, content_type: ContentType::Json, body: b }
                },
            }
        },
    }
}

/// A route nothing serves.
pub fn handle_not_found() -> (r: HttpResponse)
    ensures
        r.status == 404,
        r.body@ == Seq::<char>::empty(),
{
    HttpResponse { status: 404, content_type: ContentType::Html, body: String::new() }
}

/// Serve one request: resolve the route, run the operation it names against
/// the store, and answer in the form the route calls for. The index route is
/// handed back to the caller, which renders the page shell.
pub fn handle_request(store: &mut Store, m: Method, path: &str, body: &str) -> (r: Outcome)
    requires
        old(store).wf(),
    ensures
        final(store).wf(),
        (r is RenderIndex) <==> route_of(m, path@) == Route::Index,
        route_of(m, path@) == Route::Index ==> final(store)@ == old(store)@,
        route_of(m, path@) == Route::FragmentList ==> (r matches Outcome::Respond(resp)
            && resp.status == 200 && resp.content_type == ContentType::Html && resp.body@
            == html_of_tasks_seq(old(store)@) && final(store)@ == old(store)@),
        route_of(m, path@) == Route::ApiList ==> (r matches Outcome::Respond(resp) && resp.status
            == 200 && resp.content_type == ContentType::Json && resp.body@ == json_of_tasks_seq(
            old(store)@,
        ) && final(store)@ == old(store)@),
        route_of(m, path@) == Route::NotFound ==> (r matches Outcome::Respond(resp) && resp.status
            == 404 && final(store)@ == old(store)@),
        route_of(m, path@) == Route::ApiCreate ==> (r matches Outcome::Respond(resp) && (resp.status
            == 400 || resp.status == 201 || resp.status == 500) && ((resp.status == 400)
            <==> spec_parse_create(body@) is None) && (resp.status == 400 || resp.status == 500
            ==> final(store)@ == old(store)@) && (resp.status == 500 ==> old(store)@.len() > 0) && (
        resp.status == 201 ==> final(store)@.len() == old(store)@.len() + 1 && final(store)@ == old(
            store,
        )@.push(final(store)@.last()) && Some(final(store)@.last().text) == spec_parse_create(
            body@,
        ) && final(store)@.last().completed == false && final(store)@.last().id.len() == 36
            && !contains_id(old(store)@, final(store)@.last().id) && resp.content_type
            == ContentType::Json && resp.body@ == json_of_task_seq(final(store)@.last()))),
{
    let route = dispatch(m, path);
    match route {
        Route::Index => Outcome::RenderIndex,
        Route::FragmentList => Outcome::Respond(handle_fragment_list(store)),
        Route::ApiList => Outcome::Respond(handle_api_list(store)),
        Route::ApiCreate => Outcome::Respond(handle_api_create(store, body)),
        Route::NotFound => Outcome::Respond(handle_not_found()),
    }
}

} // verus!
