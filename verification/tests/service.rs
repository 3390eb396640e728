use todolist::{
    dispatch, handle_api_create, handle_api_list, handle_fragment_list, handle_not_found,
    handle_request, html_of_task, json_of_task, parse_create_body, ContentType, Error, Method,
    Outcome, Route, Store, Task,
};

fn post_create(store: &mut Store, body: &str) -> todolist::HttpResponse {
    match handle_request(store, Method::Post, "/api/tasks", body) {
        Outcome::Respond(resp) => resp,
        Outcome::RenderIndex => panic!("create must not render the index"),
    }
}

fn get_list(store: &mut Store) -> todolist::HttpResponse {
    match handle_request(store, Method::Get, "/api/tasks", "") {
        Outcome::Respond(resp) => resp,
        Outcome::RenderIndex => panic!("list must not render the index"),
    }
}

#[test]
fn create_then_list_finds_the_task() {
    let mut store = Store::new();
    let created = store.create(String::from("buy milk")).unwrap();
    assert_eq!(created.text, "buy milk");
    assert!(!created.completed);
    let listed = store.list_all();
    assert!(listed
        .iter()
        .any(|t| t.text == "buy milk" && !t.completed && t.id == created.id));
}

#[test]
fn created_ids_are_pairwise_distinct() {
    let mut store = Store::new();
    let a = store.create(String::from("a")).unwrap();
    let b = store.create(String::from("b")).unwrap();
    let c = store.create(String::from("a")).unwrap();
    assert_ne!(a.id, b.id);
    assert_ne!(a.id, c.id);
    assert_ne!(b.id, c.id);
}

#[test]
fn generated_ids_are_hyphenated_uuids() {
    let mut store = Store::new();
    let t = store.create(String::from("x")).unwrap();
    assert_eq!(t.id.chars().count(), 36);
    assert!(t.id.chars().all(|c| c == '-' || c.is_ascii_hexdigit()));
}

#[test]
fn list_all_on_empty_store_is_empty() {
    let store = Store::new();
    assert!(store.list_all().is_empty());
    assert_eq!(store.len(), 0);
}

#[test]
fn json_and_html_renderings_agree() {
    let t = Task::new(String::from("id-1"), String::from("wash & dry <now>"));
    let json = json_of_task(&t);
    let html = html_of_task(&t);
    assert_eq!(
        json,
        "{\"id\":\"id-1\",\"text\":\"wash & dry <now>\",\"completed\":false}"
    );
    assert_eq!(
        html,
        "<li><input type=\"checkbox\"><span>wash &amp; dry &lt;now&gt;</span></li>"
    );
    // Both report the same completion state and the same text content.
    assert!(json.contains("\"completed\":false"));
    assert!(!html.contains(" checked"));
    assert!(json.contains("wash & dry <now>"));
    assert!(html
        .replace("&amp;", "&")
        .replace("&lt;", "<")
        .replace("&gt;", ">")
        .contains("wash & dry <now>"));
}

#[test]
fn completed_task_renders_consistently() {
    let mut t = Task::new(String::from("id-2"), String::from("done"));
    t.completed = true;
    let json = json_of_task(&t);
    let html = html_of_task(&t);
    assert_eq!(json, "{\"id\":\"id-2\",\"text\":\"done\",\"completed\":true}");
    assert_eq!(
        html,
        "<li><input type=\"checkbox\" checked><span>done</span></li>"
    );
}

#[test]
fn json_escapes_quotes_backslashes_and_newlines() {
    let t = Task::new(String::from("id-3"), String::from("say \"hi\"\\\n\tok\r"));
    let json = json_of_task(&t);
    assert_eq!(
        json,
        "{\"id\":\"id-3\",\"text\":\"say \\\"hi\\\"\\\\\\n\\tok\\r\",\"completed\":false}"
    );
}

#[test]
fn post_create_returns_created_json() {
    let mut store = Store::new();
    let resp = post_create(&mut store, "{\"text\": \"buy milk\"}");
    assert_eq!(resp.status, 201);
    assert_eq!(resp.content_type, ContentType::Json);
    assert!(resp.body.starts_with("{\"id\":\""));
    let id = &store.list_all()[0].id;
    assert_eq!(
        resp.body,
        format!("{{\"id\":\"{}\",\"text\":\"buy milk\",\"completed\":false}}", id)
    );
    assert_eq!(id.chars().count(), 36);
}

#[test]
fn get_list_after_two_creates_returns_both() {
    let mut store = Store::new();
    let first = post_create(&mut store, "{\"text\": \"a\"}");
    let second = post_create(&mut store, "{\"text\": \"b\"}");
    assert_eq!(first.status, 201);
    assert_eq!(second.status, 201);
    let resp = get_list(&mut store);
    assert_eq!(resp.status, 200);
    assert_eq!(resp.content_type, ContentType::Json);
    let tasks = store.list_all();
    assert_eq!(tasks.len(), 2);
    assert_eq!(tasks[0].text, "a");
    assert_eq!(tasks[1].text, "b");
    let expected = format!(
        "[{{\"id\":\"{}\",\"text\":\"a\",\"completed\":false}},{{\"id\":\"{}\",\"text\":\"b\",\"completed\":false}}]",
        tasks[0].id, tasks[1].id
    );
    assert_eq!(resp.body, expected);
}

#[test]
fn post_with_missing_text_creates_nothing() {
    let mut store = Store::new();
    let before = store.len();
    let resp = post_create(&mut store, "{\"note\": \"buy milk\"}");
    assert_eq!(resp.status, 400);
    assert_eq!(store.len(), before);
    let resp = post_create(&mut store, "{}");
    assert_eq!(resp.status, 400);
    assert_eq!(store.len(), before);
}

#[test]
fn parse_accepts_whitespace_and_escapes() {
    let text = parse_create_body("  { \"text\" :\t\"a \\\"b\\\" \\n c\" }\n").unwrap();
    assert_eq!(text, "a \"b\" \n c");
    let text = parse_create_body("{\"text\":\"\"}").unwrap();
    assert_eq!(text, "");
}

#[test]
fn json_escapes_control_characters() {
    let t = Task::new(String::from("id-4"), String::from("a\u{0008}b\u{0000}c\u{001f}"));
    let json = json_of_task(&t);
    assert_eq!(
        json,
        "{\"id\":\"id-4\",\"text\":\"a\\u0008b\\u0000c\\u001f\",\"completed\":false}"
    );
}

#[test]
fn parse_accepts_unicode_escapes_below_256() {
    let text = parse_create_body("{\"text\": \"caf\\u00e9\"}").unwrap();
    assert_eq!(text, "caf\u{00e9}");
    let text = parse_create_body("{\"text\": \"a\\u0008\\u001F\"}").unwrap();
    assert_eq!(text, "a\u{0008}\u{001f}");
}

#[test]
fn parse_accepts_solidus_backspace_and_formfeed_escapes() {
    let text = parse_create_body("{\"text\": \"a\\/b\\b\\f\"}").unwrap();
    assert_eq!(text, "a/b\u{0008}\u{000c}");
}

#[test]
fn parse_rejects_unicode_escapes_above_255() {
    for body in [
        "{\"text\": \"\\u0100\"}",
        "{\"text\": \"\\u2764\"}",
        "{\"text\": \"\\ud83d\\ude00\"}",
        "{\"text\": \"\\u00\"}",
        "{\"text\": \"\\u00g1\"}",
    ] {
        assert_eq!(parse_create_body(body).unwrap_err(), Error::InvalidInput);
    }
}

#[test]
fn create_on_an_empty_store_succeeds() {
    let mut store = Store::new();
    assert!(store.create(String::from("first")).is_ok());
    let resp = post_create(&mut Store::new(), "{\"text\": \"first\"}");
    assert_eq!(resp.status, 201);
}

#[test]
fn parse_rejects_malformed_bodies() {
    for body in [
        "",
        "   ",
        "text=buy+milk",
        "{\"text\": \"unterminated}",
        "{\"text\": \"bad \\x escape\"}",
        "{\"text\": \"a\"} trailing",
        "{\"text\": \"a\"",
        "[\"text\", \"a\"]",
        "{\"text\": 7}",
    ] {
        assert_eq!(parse_create_body(body).unwrap_err(), Error::InvalidInput);
    }
}

#[test]
fn duplicate_id_is_a_store_failure() {
    let mut store = Store::new();
    store
        .create_with_id(String::from("fixed"), String::from("a"))
        .unwrap();
    let before = store.len();
    let err = store
        .create_with_id(String::from("fixed"), String::from("b"))
        .unwrap_err();
    assert_eq!(err, Error::StoreUnavailable);
    assert_eq!(store.len(), before);
}

#[test]
fn dispatch_names_the_routes() {
    assert_eq!(dispatch(Method::Get, "/"), Route::Index);
    assert_eq!(dispatch(Method::Get, "/fragment-list"), Route::FragmentList);
    assert_eq!(dispatch(Method::Get, "/api/tasks"), Route::ApiList);
    assert_eq!(dispatch(Method::Post, "/api/tasks"), Route::ApiCreate);
    assert_eq!(dispatch(Method::Post, "/"), Route::NotFound);
    assert_eq!(dispatch(Method::Get, "/api/tasks/"), Route::NotFound);
    assert_eq!(dispatch(Method::Get, "/nope"), Route::NotFound);
}

#[test]
fn index_route_is_handed_to_the_template() {
    let mut store = Store::new();
    match handle_request(&mut store, Method::Get, "/", "") {
        Outcome::RenderIndex => {}
        Outcome::Respond(_) => panic!("the index is rendered by the caller"),
    }
}

#[test]
fn unknown_route_is_not_found() {
    let mut store = Store::new();
    match handle_request(&mut store, Method::Get, "/missing", "") {
        Outcome::Respond(resp) => {
            assert_eq!(resp.status, 404);
            assert_eq!(handle_not_found().status, 404);
        }
        Outcome::RenderIndex => panic!("unknown routes are not the index"),
    }
}

#[test]
fn fragment_list_renders_every_task() {
    let mut store = Store::new();
    store
        .create_with_id(String::from("i1"), String::from("a&b"))
        .unwrap();
    store
        .create_with_id(String::from("i2"), String::from("c"))
        .unwrap();
    let resp = handle_fragment_list(&store);
    assert_eq!(resp.status, 200);
    assert_eq!(resp.content_type, ContentType::Html);
    assert_eq!(
        resp.body,
        "<ul><li><input type=\"checkbox\"><span>a&amp;b</span></li><li><input type=\"checkbox\"><span>c</span></li></ul>"
    );
}

#[test]
fn api_list_renders_every_task() {
    let mut store = Store::new();
    store
        .create_with_id(String::from("i1"), String::from("a"))
        .unwrap();
    let resp = handle_api_list(&store);
    assert_eq!(resp.status, 200);
    assert_eq!(
        resp.body,
        "[{\"id\":\"i1\",\"text\":\"a\",\"completed\":false}]"
    );
    let empty = Store::new();
    assert_eq!(handle_api_list(&empty).body, "[]");
}

#[test]
fn create_error_leaves_the_store_alone() {
    let mut store = Store::new();
    let resp = handle_api_create(&mut store, "not json");
    assert_eq!(resp.status, 400);
    assert_eq!(resp.body, "");
    assert_eq!(store.len(), 0);
}

#[test]
fn str_eq_compares_content() {
    assert!(todolist::str_eq("abc", "abc"));
    assert!(!todolist::str_eq("abc", "abd"));
    assert!(!todolist::str_eq("abc", "ab"));
    assert!(todolist::str_eq("", ""));
}

#[test]
fn text_is_stored_exactly_as_submitted() {
    let mut store = Store::new();
    let resp = post_create(&mut store, "{\"text\": \"  padded  \"}");
    assert_eq!(resp.status, 201);
    assert_eq!(store.list_all()[0].text, "  padded  ");
}
