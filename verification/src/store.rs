//! The record store: an in-memory model of the single persistent table of
//! tasks. It owns creation (with server-generated ids) and listing, and it
//! maintains the one store-wide invariant: ids are pairwise distinct.

use vstd::prelude::*;

use crate::ids::fresh_id;
use crate::task::{Task, TaskView};

verus! {

/// The failures the service distinguishes.
#[derive(Clone, Copy, Debug, PartialEq, Eq, Structural)]
pub enum Error {
    /// The backing store refused an operation (here: an id collided with a
    /// stored one, which the table's key constraint rejects).
    StoreUnavailable,
    /// A creation request carried no usable `text` field.
    InvalidInput,
}

/// Whether some stored task already carries `id`.
pub open spec fn contains_id(tasks: Seq<TaskView>, id: Seq<char>) -> bool {
    exists|i: int| 0 <= i < tasks.len() && tasks[i].id == id
}

/// Ids of the stored tasks are pairwise distinct.
pub open spec fn ids_distinct(tasks: Seq<TaskView>) -> bool {
    forall|i: int, j: int|
        0 <= i < j < tasks.len() ==> tasks[i].id != tasks[j].id
}

/// The store: every task ever created, in insertion order. Insertion order is
/// how the model keeps the tasks; no caller may rely on it as a contract.
pub struct Store {
    pub tasks: Vec<Task>,
}

impl View for Store {
    type V = Seq<TaskView>;

    open spec fn view(&self) -> Seq<TaskView> {
        self.tasks@.map_values(|t: Task| t@)
    }
}

impl Store {
    /// The store's invariant: no id is stored twice.
    pub open spec fn wf(&self) -> bool {
        ids_distinct(self@)
    }

    /// An empty store.
    pub fn new() -> (s: Store)
        ensures
            s@ =~= Seq::<TaskView>::empty(),
            s.wf(),
    {
        Store { tasks: Vec::new() }
    }

    /// How many tasks are stored.
    pub fn len(&self) -> (n: usize)
        ensures
            n == self@.len(),
    {
        self.tasks.len()
    }

    /// Whether some stored task already carries `id`.
    fn holds_id(&self, id: &String) -> (b: bool)
        ensures
            b == contains_id(self@, id@),
    {
        let mut k: usize = 0;
        while k < self.tasks.len()
            invariant
                0 <= k <= self.tasks.len(),
                self@.len() == self.tasks.len(),
                forall|i: int| 0 <= i < k ==> self@[i].id != id@,
            decreases self.tasks.len() - k,
        {
            if self.tasks[k].id == *id {
                assert(self@[k as int].id == id@);
                return true;
            }
            k += 1;
        }
        false
    }

    /// Persist a new task under a caller-supplied id. Succeeds exactly when
    /// the id is not stored yet; a collision is rejected by the table's key
    /// constraint and surfaces as `StoreUnavailable`, with the store
    /// unchanged.
    pub fn create_with_id(&mut self, id: String, text: String) -> (r: Result<
        Task,
        Error,
    >)
        requires
            old(self).wf(),
        ensures
            final(self).wf(),
            match r {
                Ok(t) => !contains_id(old(self)@, id@) && t@.id == id@ && t@.text == text@
                    && t@.completed == false && final(self)@ =~= old(self)@.push(t@),
                Err(e) => e == Error::StoreUnavailable && contains_id(old(self)@, id@)
                    && final(self)@ == old(self)@,
            },
    {
        if self.holds_id(&id) {
            return Err(Error::StoreUnavailable);
        }
        let t = Task::new(id, text);
        let ghost pre = self@;
        let ghost tv = t@;
        let out = t.duplicate();
        self.tasks.push(t);
        proof {
            assert(self@ =~= pre.push(tv));
            assert forall|i: int, j: int| 0 <= i < j < self@.len() implies self@[i].id
                != self@[j].id by {
                if j < pre.len() {
                } else {
                    assert(self@[j] == tv);
                    assert(!contains_id(pre, tv.id));
                }
            }
        }
        Ok(out)
    }

    /// Create a task from `text`: a freshly generated id, `completed` false,
    /// appended to the store. The generated id is random; if it collides with
    /// a stored one the store is left unchanged and `StoreUnavailable` comes
    /// back. A collision needs something to collide with, so on an empty
    /// store creation always succeeds.
    pub fn create(&mut self, text: String) -> (r: Result<Task, Error>)
        requires
            old(self).wf(),
        ensures
            final(self).wf(),
            match r {
                Ok(t) => !contains_id(old(self)@, t@.id) && t@.id.len() == 36 && t@.text == text@
                    && t@.completed == false && final(self)@ =~= old(self)@.push(t@),
                Err(e) => e == Error::StoreUnavailable && final(self)@ == old(self)@ && old(
                    self,
                )@.len() > 0,
            },
    {
        let id = fresh_id();
        self.create_with_id(id, text)
    }

    /// Every stored task, in the model's own order. On an empty store this is
    /// the empty sequence, never an error.
    pub fn list_all(&self) -> (r: &Vec<Task>)
        ensures
            r@.map_values(|t: Task| t@) == self@,
            self@.len() == 0 ==> r@.len() == 0,
    {
        &self.tasks
    }
}

/// Every task a create appends is found by a later `list_all`: a store that
/// went from `pre` to `pre.push(t)` through a successful create of `text`
/// lists a task whose text is `text` and whose completion flag is false.
pub proof fn lemma_create_then_list(pre: Seq<TaskView>, t: TaskView, text: Seq<char>)
    requires
        t.text == text,
        t.completed == false,
    ensures
        exists|i: int|
            0 <= i < pre.push(t).len() && pre.push(t)[i].text == text && pre.push(t)[i].completed
                == false,
{
    assert(pre.push(t)[pre.len() as int] == t);
}

/// Distinctness of ids, spelled out: in a well-formed store no two positions
/// hold the same id, so the ids any sequence of creates produced are pairwise
/// distinct.
pub proof fn lemma_ids_pairwise_distinct(s: Store, i: int, j: int)
    requires
        s.wf(),
        0 <= i < s@.len(),
        0 <= j < s@.len(),
        i != j,
    ensures
        s@[i].id != s@[j].id,
{
}

} // verus!
