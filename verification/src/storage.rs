pub mod json_storage;

use vstd::prelude::*;

use crate::domain::tasks::{views, Status, Task, TaskView};

verus! {

/// What can go wrong in a store.
#[derive(Clone, Copy, Debug, PartialEq, Eq, Structural)]
pub enum StorageError {
    TaskNotFound(u32),
    EmptyStorage,
}

/// Whether some task carries the identifier.
pub open spec fn has_id(s: Seq<TaskView>, id: u32) -> bool {
    exists|i: int| 0 <= i < s.len() && #[trigger] s[i].id == id
}

/// Whether `i` is the position of the first task that carries the identifier.
pub open spec fn is_first_with_id(s: Seq<TaskView>, id: u32, i: int) -> bool {
    &&& 0 <= i < s.len()
    &&& s[i].id == id
    &&& forall|j: int| 0 <= j < i ==> #[trigger] s[j].id != id
}

/// The position of the first task that carries the identifier (meaningful
/// where `has_id` holds).
pub open spec fn first_index(s: Seq<TaskView>, id: u32) -> int {
    choose|i: int| is_first_with_id(s, id, i)
}

/// The tasks of a given status, in order.
pub open spec fn with_status(s: Seq<TaskView>, status: Status) -> Seq<TaskView> {
    s.filter(|t: TaskView| t.status == status)
}

/// The tasks that are not done, in order.
pub open spec fn not_done(s: Seq<TaskView>) -> Seq<TaskView> {
    s.filter(|t: TaskView| t.status != Status::Done)
}

/// Every task marked done; identifiers, descriptions and order kept.
pub open spec fn all_done(s: Seq<TaskView>) -> Seq<TaskView> {
    s.map_values(|t: TaskView| TaskView { id: t.id, description: t.description, status: Status::Done })
}

/// The task that `create` appends.
pub open spec fn new_task(id: u32, description: Seq<char>) -> TaskView {
    TaskView { id, description, status: Status::Todo }
}

/// The tasks after the first one that carries `task`'s identifier is
/// replaced by `task`.
pub open spec fn replaced(s: Seq<TaskView>, task: TaskView) -> Seq<TaskView> {
    s.update(first_index(s, task.id), task)
}

/// The tasks after the first one that carries the identifier is taken out.
pub open spec fn removed(s: Seq<TaskView>, id: u32) -> Seq<TaskView> {
    s.remove(first_index(s, id))
}

/// The first position found is the one `first_index` names.
pub proof fn lemma_first_index(s: Seq<TaskView>, id: u32, i: int)
    requires
        is_first_with_id(s, id, i),
    ensures
        first_index(s, id) == i,
        has_id(s, id),
{
    let k = first_index(s, id);
    assert(is_first_with_id(s, id, k));
    if k < i {
        assert(s[k].id != id);
    }
    if i < k {
        assert(s[i].id != id);
    }
}

/// Where some task carries the identifier, `first_index` names the first such.
pub proof fn lemma_has_id_first(s: Seq<TaskView>, id: u32)
    requires
        has_id(s, id),
    ensures
        is_first_with_id(s, id, first_index(s, id)),
    decreases s.len(),
{
    if s[0].id == id {
        lemma_first_index(s, id, 0);
    } else {
        let t = s.drop_first();
        let w = choose|i: int| 0 <= i < s.len() && #[trigger] s[i].id == id;
        assert(t[w - 1].id == id);
        lemma_has_id_first(t, id);
        let k = first_index(t, id);
        assert forall|j: int| 0 <= j < k + 1 implies #[trigger] s[j].id != id by {
            if j > 0 {
                assert(s[j] == t[j - 1]);
            }
        }
        lemma_first_index(s, id, k + 1);
    }
}

/// A store of tasks, as the command dispatcher sees it. A store states its
/// state as `contents` and, for each operation, what the operation returns
/// in that state (the `_outcome` functions); the operations are held to them.
pub trait Storage {
    type Error;

    /// The tasks held, in order.
    spec fn contents(&self) -> Seq<TaskView>;

    /// Whether `create` can be called now.
    spec fn create_allowed(&self) -> bool;

    /// The result of `create` in this state, for this description.
    spec fn create_outcome(&self, description: Seq<char>) -> Result<u32, Self::Error>;

    /// The result of `get` in this state, for this identifier.
    spec fn get_outcome(&self, id: u32) -> Result<TaskView, Self::Error>;

    /// The result, in this state, of replacing a task by the one given.
    spec fn update_outcome(&self, task: TaskView) -> Result<(), Self::Error>;

    /// The result of `remove` in this state, for this identifier.
    spec fn remove_outcome(&self, id: u32) -> Result<(), Self::Error>;

    /// The result of `clear_all` in this state.
    spec fn clear_outcome(&self) -> Result<(), Self::Error>;

    /// The result of `done_all` in this state.
    spec fn done_outcome(&self) -> Result<(), Self::Error>;

    /// Appends a new task, to do, and returns its identifier.
    fn create(&mut self, description: String) -> (r: Result<u32, Self::Error>)
        requires
            old(self).create_allowed(),
        ensures
            r == old(self).create_outcome(description@),
            r matches Ok(id) ==> final(self).contents() == old(self).contents().push(
                new_task(id, description@),
            ),
            r is Err ==> final(self).contents() == old(self).contents(),
    ;

    /// The first task with the identifier.
    fn get(&self, id: u32) -> (r: Result<Task, Self::Error>)
        ensures
            r matches Ok(t) ==> self.get_outcome(id) == Ok::<TaskView, Self::Error>(t@),
            r matches Err(e) ==> self.get_outcome(id) == Err::<TaskView, Self::Error>(e),
            r matches Ok(t) ==> has_id(self.contents(), id) && t@ == self.contents()[first_index(
                self.contents(),
                id,
            )],
    ;

    /// Replaces the first task that carries `task`'s identifier by `task`.
    fn update(&mut self, task: Task) -> (r: Result<(), Self::Error>)
        ensures
            r == old(self).update_outcome(task@),
            r is Ok ==> has_id(old(self).contents(), task.id) && final(self).contents() == replaced(
                old(self).contents(),
                task@,
            ),
            r is Err ==> final(self).contents() == old(self).contents(),
    ;

    /// Takes out the first task with the identifier.
    fn remove(&mut self, id: u32) -> (r: Result<(), Self::Error>)
        ensures
            r == old(self).remove_outcome(id),
            r is Ok ==> has_id(old(self).contents(), id) && final(self).contents() == removed(
                old(self).contents(),
                id,
            ),
            r is Err ==> final(self).contents() == old(self).contents(),
    ;

    /// All tasks, in order.
    fn list(&self) -> (r: Vec<Task>)
        ensures
            views(r@) == self.contents(),
    ;

    /// The tasks of a status, in order.
    fn list_by_status(&self, status: Status) -> (r: Vec<Task>)
        ensures
            views(r@) == with_status(self.contents(), status),
    ;

    /// Takes out every task.
    fn clear_all(&mut self) -> (r: Result<(), Self::Error>)
        ensures
            r == old(self).clear_outcome(),
            r is Ok ==> final(self).contents() == Seq::<TaskView>::empty(),
            r is Err ==> final(self).contents() == old(self).contents(),
    ;

    /// Marks every task done.
    fn done_all(&mut self) -> (r: Result<(), Self::Error>)
        ensures
            r == old(self).done_outcome(),
            r is Ok ==> final(self).contents() == all_done(old(self).contents()),
            r is Err ==> final(self).contents() == old(self).contents(),
    ;
}

} // verus!
