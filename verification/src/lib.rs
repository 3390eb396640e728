//! A minimal task-list library: a record store model for tasks, with
//! JSON and HTML-fragment rendering and request dispatch for a small
//! HTTP surface.

use vstd::prelude::*;

mod ids;
pub mod parse;
pub mod render;
pub mod router;
pub mod store;
pub mod strings;
pub mod task;

pub use parse::parse_create_body;
pub use render::{html_of_task, html_of_tasks, json_of_task, json_of_tasks};
pub use router::{
    dispatch, handle_api_create, handle_api_list, handle_fragment_list, handle_not_found,
    handle_request, ContentType, HttpResponse, Method, Outcome, Route,
};
pub use store::{Error, Store};
pub use strings::str_eq;
pub use task::{Task, TaskView};

verus! {

} // verus!
