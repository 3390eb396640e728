//! The persisted entity: a to-do task with an identifier, its text and a
//! completion flag.

use vstd::prelude::*;

verus! {

/// A single to-do item. `id` is chosen by the server at creation time and is
/// never reused; `completed` starts out `false`; `text` is stored exactly as
/// submitted.
#[derive(Debug)]
pub struct Task {
    pub id: String,
    pub text: String,
    pub completed: bool,
}

/// The mathematical value of a task: its three fields as plain values.
#[verifier::ext_equal]
pub struct TaskView {
    pub id: Seq<char>,
    pub text: Seq<char>,
    pub completed: bool,
}

impl View for Task {
    type V = TaskView;

    open spec fn view(&self) -> TaskView {
        TaskView { id: self.id@, text: self.text@, completed: self.completed }
    }
}

impl Task {
    /// A fresh task: the given id and text, not yet completed.
    pub fn new(id: String, text: String) -> (t: Task)
        ensures
            t@.id == id@,
            t@.text == text@,
            t@.completed == false,
    {
        Task { id, text, completed: false }
    }

    /// A field-for-field copy.
    pub fn duplicate(&self) -> (t: Task)
        ensures
            t@ == self@,
    {
        let t = Task {
            id: self.id.clone(),
            text: self.text.clone(),
            completed: self.completed,
        };
        proof {
            assert(t@ =~= self@);
        }
        t
    }
}

} // verus!
