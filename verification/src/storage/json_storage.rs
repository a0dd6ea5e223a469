use vstd::prelude::*;

use crate::domain::tasks::{views, Status, Task, TaskView};
use crate::storage::{
    all_done, first_index, has_id, is_first_with_id, lemma_first_index, lemma_has_id_first,
    new_task, removed, replaced, with_status, Storage, StorageError,
};

verus! {

/// A store kept as JSON in a file: the path of that file. Reading and writing
/// the file is left to the caller; what the store does with the tasks read
/// from it is `TaskList`'s work.
pub struct JsonStorage {
    path: String,
}

impl View for JsonStorage {
    type V = Seq<char>;

    closed spec fn view(&self) -> Seq<char> {
        self.path@
    }
}

impl JsonStorage {
    /// A store kept in the file at `path`.
    pub fn new(path: &str) -> (r: JsonStorage)
        ensures
            r@ == path@,
    {
        JsonStorage { path: String::from_str(path) }
    }

    /// The path of the file.
    pub fn path(&self) -> (r: &str)
        ensures
            r@ == self@,
    {
        self.path.as_str()
    }
}

/// The largest identifier among the tasks (0 where there is none).
pub open spec fn max_id(s: Seq<TaskView>) -> u32
    decreases s.len(),
{
    if s.len() == 0 {
        0
    } else {
        let m = max_id(s.drop_last());
        if s.last().id > m {
            s.last().id
        } else {
            m
        }
    }
}

/// The identifier that `create` gives: 1 in an empty store, else one more
/// than the largest identifier.
pub open spec fn next_id(s: Seq<TaskView>) -> int {
    if s.len() == 0 {
        1
    } else {
        max_id(s) + 1
    }
}

/// Every identifier is at most `max_id`.
pub proof fn lemma_max_id_bounds(s: Seq<TaskView>)
    ensures
        forall|i: int| 0 <= i < s.len() ==> #[trigger] s[i].id <= max_id(s),
    decreases s.len(),
{
    if s.len() > 0 {
        lemma_max_id_bounds(s.drop_last());
        assert forall|i: int| 0 <= i < s.len() implies #[trigger] s[i].id <= max_id(s) by {
            if i < s.len() - 1 {
                assert(s[i] == s.drop_last()[i]);
            }
        }
    }
}

/// The tasks as the file holds them, with what a store does to them.
pub struct TaskList {
    tasks: Vec<Task>,
}

impl View for TaskList {
    type V = Seq<TaskView>;

    closed spec fn view(&self) -> Seq<TaskView> {
        views(self.tasks@)
    }
}

impl TaskList {
    /// An empty list.
    pub fn new() -> (r: TaskList)
        ensures
            r@ == Seq::<TaskView>::empty(),
    {
        let r = TaskList { tasks: Vec::new() };
        assert(r@ =~= Seq::<TaskView>::empty());
        r
    }

    /// The list of the given tasks, in their order.
    pub fn from_tasks(tasks: Vec<Task>) -> (r: TaskList)
        ensures
            r@ == views(tasks@),
    {
        TaskList { tasks }
    }

    /// The tasks, in order.
    pub fn into_tasks(self) -> (r: Vec<Task>)
        ensures
            views(r@) == self@,
    {
        self.tasks
    }

    /// The number of tasks.
    pub fn len(&self) -> (r: usize)
        ensures
            r == self@.len(),
    {
        self.tasks.len()
    }

    /// Whether `create` can give a new identifier: the largest one held is
    /// below `u32::MAX`.
    pub fn can_create(&self) -> (r: bool)
        ensures
            r == (max_id(self@) < u32::MAX),
    {
        self.largest_id() < u32::MAX
    }

    /// The largest identifier held.
    fn largest_id(&self) -> (r: u32)
        ensures
            r == max_id(self@),
    {
        let mut m: u32 = 0;
        let mut i: usize = 0;
        while i < self.tasks.len()
            invariant
                i <= self.tasks.len(),
                self@ == views(self.tasks@),
                m == max_id(self@.take(i as int)),
            decreases self.tasks.len() - i,
        {
            assert(self@.take(i + 1).drop_last() == self@.take(i as int));
            if self.tasks[i].id > m {
                m = self.tasks[i].id;
            }
            i = i + 1;
        }
        assert(self@.take(i as int) == self@);
        m
    }

    /// The position of the first task with the identifier, if any.
    fn position(&self, id: u32) -> (r: Option<usize>)
        ensures
            r matches Some(i) ==> is_first_with_id(self@, id, i as int),
            r is None ==> !has_id(self@, id),
    {
        let mut i: usize = 0;
        while i < self.tasks.len()
            invariant
                i <= self.tasks.len(),
                self@ == views(self.tasks@),
                forall|j: int| 0 <= j < i ==> #[trigger] self@[j].id != id,
            decreases self.tasks.len() - i,
        {
            if self.tasks[i].id == id {
                return Some(i);
            }
            i = i + 1;
        }
        None
    }
}

impl Storage for TaskList {
    type Error = StorageError;

    open spec fn contents(&self) -> Seq<TaskView> {
        self@
    }

    open spec fn create_allowed(&self) -> bool {
        max_id(self@) < u32::MAX
    }

    open spec fn create_outcome(&self, description: Seq<char>) -> Result<u32, StorageError> {
        Ok(next_id(self@) as u32)
    }

    open spec fn get_outcome(&self, id: u32) -> Result<TaskView, StorageError> {
        if self@.len() == 0 {
            Err(StorageError::EmptyStorage)
        } else if has_id(self@, id) {
            Ok(self@[first_index(self@, id)])
        } else {
            Err(StorageError::TaskNotFound(id))
        }
    }

    open spec fn update_outcome(&self, task: TaskView) -> Result<(), StorageError> {
        if self@.len() == 0 {
            Err(StorageError::EmptyStorage)
        } else if has_id(self@, task.id) {
            Ok(())
        } else {
            Err(StorageError::TaskNotFound(task.id))
        }
    }

    open spec fn remove_outcome(&self, id: u32) -> Result<(), StorageError> {
        if has_id(self@, id) {
            Ok(())
        } else {
            Err(StorageError::TaskNotFound(id))
        }
    }

    open spec fn clear_outcome(&self) -> Result<(), StorageError> {
        Ok(())
    }

    open spec fn done_outcome(&self) -> Result<(), StorageError> {
        Ok(())
    }

    fn create(&mut self, description: String) -> (r: Result<u32, StorageError>)
        ensures
            r == Ok::<u32, StorageError>(next_id(old(self)@) as u32),
            final(self)@ == old(self)@.push(new_task(next_id(old(self)@) as u32, description@)),
            max_id(final(self)@) == next_id(old(self)@),
    {
        let next = if self.tasks.len() == 0 {
            1
        } else {
            self.largest_id() + 1
        };
        let ghost d = description@;
        self.tasks.push(Task { id: next, description, status: Status::Todo });
        assert(self@ =~= old(self)@.push(new_task(next, d)));
        proof {
            lemma_max_id_bounds(old(self)@);
            assert(self@.drop_last() == old(self)@);
            if old(self)@.len() > 0 {
                assert(old(self)@[0].id <= max_id(old(self)@));
            }
        }
        Ok(next)
    }

    fn get(&self, id: u32) -> (r: Result<Task, StorageError>)
        ensures
            self@.len() == 0 ==> r == Err::<Task, StorageError>(StorageError::EmptyStorage),
            self@.len() > 0 && !has_id(self@, id) ==> r == Err::<Task, StorageError>(
                StorageError::TaskNotFound(id),
            ),
            self@.len() > 0 && has_id(self@, id) ==> r is Ok,
    {
        if self.tasks.len() == 0 {
            return Err(StorageError::EmptyStorage);
        }
        match self.position(id) {
            Some(i) => {
                proof {
                    lemma_first_index(self@, id, i as int);
                }
                Ok(self.tasks[i].duplicate())
            },
            None => Err(StorageError::TaskNotFound(id)),
        }
    }

    fn update(&mut self, task: Task) -> (r: Result<(), StorageError>)
        ensures
            old(self)@.len() == 0 ==> r == Err::<(), StorageError>(StorageError::EmptyStorage),
            old(self)@.len() > 0 && !has_id(old(self)@, task.id) ==> r == Err::<(), StorageError>(
                StorageError::TaskNotFound(task.id),
            ),
            old(self)@.len() > 0 && has_id(old(self)@, task.id) ==> r is Ok,
    {
        if self.tasks.len() == 0 {
            return Err(StorageError::EmptyStorage);
        }
        match self.position(task.id) {
            Some(i) => {
                proof {
                    lemma_first_index(self@, task.id, i as int);
                }
                let ghost t = task@;
                self.tasks.set(i, task);
                assert(self@ =~= replaced(old(self)@, t));
                Ok(())
            },
            None => Err(StorageError::TaskNotFound(task.id)),
        }
    }

    fn remove(&mut self, id: u32) -> (r: Result<(), StorageError>)
        ensures
            has_id(old(self)@, id) ==> r is Ok,
            !has_id(old(self)@, id) ==> r == Err::<(), StorageError>(StorageError::TaskNotFound(id)),
    {
        match self.position(id) {
            Some(i) => {
                proof {
                    lemma_first_index(self@, id, i as int);
                }
                self.tasks.remove(i);
                assert(self@ =~= removed(old(self)@, id));
                Ok(())
            },
            None => Err(StorageError::TaskNotFound(id)),
        }
    }

    fn list(&self) -> (r: Vec<Task>) {
        let mut out: Vec<Task> = Vec::new();
        let mut i: usize = 0;
        while i < self.tasks.len()
            invariant
                i <= self.tasks.len(),
                out@ == self.tasks@.take(i as int),
            decreases self.tasks.len() - i,
        {
            out.push(self.tasks[i].duplicate());
            assert(self.tasks@.take(i + 1) == self.tasks@.take(i as int).push(self.tasks@[i as int]));
            i = i + 1;
        }
        assert(self.tasks@.take(i as int) == self.tasks@);
        out
    }

    fn list_by_status(&self, status: Status) -> (r: Vec<Task>) {
        let mut out: Vec<Task> = Vec::new();
        let mut i: usize = 0;
        while i < self.tasks.len()
            invariant
                i <= self.tasks.len(),
                self@ == views(self.tasks@),
                views(out@) == with_status(self@.take(i as int), status),
            decreases self.tasks.len() - i,
        {
            proof {
                assert(self@.take(i + 1).drop_last() == self@.take(i as int));
                reveal_with_fuel(Seq::<_>::filter, 1);
            }
            if self.tasks[i].status == status {
                let ghost before = out@;
                out.push(self.tasks[i].duplicate());
                assert(views(out@) =~= views(before).push(self@[i as int]));
            }
            i = i + 1;
        }
        assert(self@.take(i as int) == self@);
        out
    }

    fn clear_all(&mut self) -> (r: Result<(), StorageError>)
        ensures
            r is Ok,
    {
        self.tasks.clear();
        assert(self@ =~= Seq::<TaskView>::empty());
        Ok(())
    }

    fn done_all(&mut self) -> (r: Result<(), StorageError>)
        ensures
            r is Ok,
    {
        let mut i: usize = 0;
        while i < self.tasks.len()
            invariant
                i <= self.tasks.len(),
                self.tasks@.len() == old(self).tasks@.len(),
                forall|j: int| #![trigger self.tasks@[j]]
                    0 <= j < i ==> self.tasks@[j]@ == all_done(old(self)@)[j],
                forall|j: int| i <= j < self.tasks@.len() ==> #[trigger] self.tasks@[j] == old(self).tasks@[j],
            decreases self.tasks.len() - i,
        {
            let mut t = self.tasks[i].duplicate();
            t.status = Status::Done;
            self.tasks.set(i, t);
            i = i + 1;
        }
        assert(self@ =~= all_done(old(self)@));
        Ok(())
    }
}

} // verus!

verus! {

/// Whether no two tasks share an identifier.
pub open spec fn unique_ids(s: Seq<TaskView>) -> bool {
    forall|i: int, j: int| 0 <= i < j < s.len() ==> #[trigger] s[i].id != #[trigger] s[j].id
}

/// The identifier that `create` gives is larger than every identifier held,
/// so no task carries it yet.
pub proof fn law_create_gives_unused_id(s: Seq<TaskView>)
    requires
        max_id(s) < u32::MAX,
    ensures
        forall|i: int| 0 <= i < s.len() ==> #[trigger] s[i].id < next_id(s),
        !has_id(s, next_id(s) as u32),
{
    lemma_max_id_bounds(s);
}

/// Identifiers count up by one from one create to the next.
pub proof fn law_successive_creates_count_up(s: Seq<TaskView>, description: Seq<char>)
    requires
        max_id(s) < u32::MAX,
    ensures
        next_id(s.push(new_task(next_id(s) as u32, description))) == next_id(s) + 1,
{
    let t = s.push(new_task(next_id(s) as u32, description));
    assert(t.drop_last() == s);
    lemma_max_id_bounds(s);
    if s.len() > 0 {
        assert(s[0].id <= max_id(s));
    }
}

/// Reading a task just created gives it back: to do, with its description.
pub proof fn law_get_after_create(s: Seq<TaskView>, description: Seq<char>)
    requires
        max_id(s) < u32::MAX,
    ensures
        ({
            let id = next_id(s) as u32;
            let t = s.push(new_task(id, description));
            &&& has_id(t, id)
            &&& first_index(t, id) == s.len()
            &&& t[first_index(t, id)] == new_task(id, description)
            &&& t[first_index(t, id)].id == id
            &&& t[first_index(t, id)].description == description
            &&& t[first_index(t, id)].status == Status::Todo
        }),
{
    let id = next_id(s) as u32;
    let t = s.push(new_task(id, description));
    law_create_gives_unused_id(s);
    assert forall|j: int| 0 <= j < s.len() implies #[trigger] t[j].id != id by {
        assert(t[j] == s[j]);
    }
    lemma_first_index(t, id, s.len() as int);
}

/// Removing the task just created gives back the tasks held before.
pub proof fn law_remove_undoes_create(s: Seq<TaskView>, description: Seq<char>)
    requires
        max_id(s) < u32::MAX,
    ensures
        removed(s.push(new_task(next_id(s) as u32, description)), next_id(s) as u32) == s,
{
    law_get_after_create(s, description);
    let t = s.push(new_task(next_id(s) as u32, description));
    assert(t.remove(s.len() as int) =~= s);
}

/// Reading a task just replaced gives back the replacement.
pub proof fn law_get_after_update(s: Seq<TaskView>, task: TaskView)
    requires
        has_id(s, task.id),
    ensures
        has_id(replaced(s, task), task.id),
        first_index(replaced(s, task), task.id) == first_index(s, task.id),
        replaced(s, task)[first_index(replaced(s, task), task.id)] == task,
{
    lemma_has_id_first(s, task.id);
    let k = first_index(s, task.id);
    let t = replaced(s, task);
    assert forall|j: int| 0 <= j < k implies #[trigger] t[j].id != task.id by {
        assert(t[j] == s[j]);
    }
    lemma_first_index(t, task.id, k);
}

/// Every operation of the store keeps identifiers unique.
pub proof fn law_operations_keep_ids_unique(s: Seq<TaskView>, description: Seq<char>, task: TaskView, id: u32)
    requires
        unique_ids(s),
    ensures
        max_id(s) < u32::MAX ==> unique_ids(s.push(new_task(next_id(s) as u32, description))),
        has_id(s, task.id) ==> unique_ids(replaced(s, task)),
        has_id(s, id) ==> unique_ids(removed(s, id)),
        unique_ids(all_done(s)),
        unique_ids(Seq::<TaskView>::empty()),
{
    if max_id(s) < u32::MAX {
        law_create_gives_unused_id(s);
        let t = s.push(new_task(next_id(s) as u32, description));
        assert forall|i: int, j: int| 0 <= i < j < t.len() implies #[trigger] t[i].id != #[trigger] t[j].id by {
            if j == s.len() {
                assert(t[i] == s[i]);
            } else {
                assert(t[i] == s[i] && t[j] == s[j]);
            }
        }
    }
    if has_id(s, task.id) {
        lemma_has_id_first(s, task.id);
        let k = first_index(s, task.id);
        let t = replaced(s, task);
        assert forall|i: int, j: int| 0 <= i < j < t.len() implies #[trigger] t[i].id != #[trigger] t[j].id by {
            if i == k {
                assert(s[j].id != s[k].id);
            } else if j == k {
                assert(s[i].id != s[k].id);
            } else {
                assert(t[i] == s[i] && t[j] == s[j]);
            }
        }
    }
    if has_id(s, id) {
        lemma_has_id_first(s, id);
        let k = first_index(s, id);
        let t = removed(s, id);
        assert forall|i: int, j: int| 0 <= i < j < t.len() implies #[trigger] t[i].id != #[trigger] t[j].id by {
            if j < k {
                assert(t[i] == s[i] && t[j] == s[j]);
            } else if i < k {
                assert(t[i] == s[i] && t[j] == s[j + 1]);
            } else {
                assert(t[i] == s[i + 1] && t[j] == s[j + 1]);
            }
        }
    }
    let d = all_done(s);
    assert forall|i: int, j: int| 0 <= i < j < d.len() implies #[trigger] d[i].id != #[trigger] d[j].id by {
        assert(d[i].id == s[i].id && d[j].id == s[j].id);
    }
}

/// Every task has exactly one status: the three lists by status together
/// hold as many tasks as the store.
pub proof fn law_statuses_partition(s: Seq<TaskView>)
    ensures
        with_status(s, Status::Todo).len() + with_status(s, Status::InProgress).len()
            + with_status(s, Status::Done).len() == s.len(),
    decreases s.len(),
{
    reveal_with_fuel(Seq::<_>::filter, 1);
    if s.len() > 0 {
        law_statuses_partition(s.drop_last());
    }
}

/// After marking everything done, every task is listed as done and none as
/// pending.
pub proof fn law_done_all_leaves_nothing_pending(s: Seq<TaskView>)
    ensures
        with_status(all_done(s), Status::Done) == all_done(s),
        crate::storage::not_done(all_done(s)) == Seq::<TaskView>::empty(),
    decreases s.len(),
{
    reveal_with_fuel(Seq::<_>::filter, 1);
    if s.len() > 0 {
        law_done_all_leaves_nothing_pending(s.drop_last());
        assert(all_done(s).drop_last() == all_done(s.drop_last()));
    }
}

} // verus!

verus! {

/// A filter that keeps every element keeps the whole sequence.
proof fn lemma_filter_keeps_all(s: Seq<TaskView>, id: u32)
    requires
        forall|i: int| 0 <= i < s.len() ==> #[trigger] s[i].id != id,
    ensures
        s.filter(|t: TaskView| t.id != id) == s,
    decreases s.len(),
{
    reveal_with_fuel(Seq::<_>::filter, 1);
    if s.len() > 0 {
        let d = s.drop_last();
        assert forall|i: int| 0 <= i < d.len() implies #[trigger] d[i].id != id by {
            assert(d[i] == s[i]);
        }
        lemma_filter_keeps_all(d, id);
        assert(s.last().id != id);
        assert(d.push(s.last()) == s);
    }
}

/// Where identifiers are unique, removing a task takes out exactly the task
/// with that identifier and keeps every other task, in order.
pub proof fn law_remove_keeps_the_others(s: Seq<TaskView>, id: u32)
    requires
        unique_ids(s),
        has_id(s, id),
    ensures
        removed(s, id) == s.filter(|t: TaskView| t.id != id),
{
    broadcast use Seq::filter_distributes_over_add;

    lemma_has_id_first(s, id);
    let k = first_index(s, id);
    let front = s.take(k);
    let back = s.skip(k + 1);
    assert forall|i: int| 0 <= i < front.len() implies #[trigger] front[i].id != id by {
        assert(front[i] == s[i]);
    }
    assert forall|i: int| 0 <= i < back.len() implies #[trigger] back[i].id != id by {
        assert(back[i] == s[k + 1 + i]);
        assert(s[k].id != s[k + 1 + i].id);
    }
    lemma_filter_keeps_all(front, id);
    lemma_filter_keeps_all(back, id);
    let mid = seq![s[k]];
    reveal_with_fuel(Seq::<_>::filter, 2);
    assert(mid.drop_last() =~= Seq::<TaskView>::empty());
    assert(mid.filter(|t: TaskView| t.id != id) =~= Seq::<TaskView>::empty());
    assert(s =~= front + mid + back);
    assert(removed(s, id) =~= front + back);
}

} // verus!

verus! {

/// Creating a task appends exactly one task at the end, keeping every task
/// before it: the new task carries the identifier that `create` returns,
/// exactly the description it was given, and the status to do.
pub proof fn law_create_appends_the_given_task(s: Seq<TaskView>, id: u32, description: Seq<char>)
    ensures
        s.push(new_task(id, description)).len() == s.len() + 1,
        forall|i: int| 0 <= i < s.len() ==> #[trigger] s.push(new_task(id, description))[i] == s[i],
        s.push(new_task(id, description)).last().id == id,
        s.push(new_task(id, description)).last().description == description,
        s.push(new_task(id, description)).last().status == Status::Todo,
{
}

/// Listing by status keeps the store's order: an empty store lists nothing,
/// and a task added at the end is listed at the end when it has the status,
/// and not at all otherwise.
pub proof fn law_listing_by_status_keeps_store_order(s: Seq<TaskView>, t: TaskView, status: Status)
    ensures
        with_status(Seq::<TaskView>::empty(), status) == Seq::<TaskView>::empty(),
        with_status(s.push(t), status) == if t.status == status {
            with_status(s, status).push(t)
        } else {
            with_status(s, status)
        },
{
    reveal_with_fuel(Seq::<_>::filter, 1);
    assert(s.push(t).drop_last() == s);
}

/// The default listing keeps the store's order in the same way: a task added
/// at the end is listed at the end when it is not done, and not at all
/// otherwise.
pub proof fn law_default_listing_keeps_store_order(s: Seq<TaskView>, t: TaskView)
    ensures
        crate::storage::not_done(Seq::<TaskView>::empty()) == Seq::<TaskView>::empty(),
        crate::storage::not_done(s.push(t)) == if t.status != Status::Done {
            crate::storage::not_done(s).push(t)
        } else {
            crate::storage::not_done(s)
        },
{
    reveal_with_fuel(Seq::<_>::filter, 1);
    assert(s.push(t).drop_last() == s);
}

/// Marking every task done changes the status and nothing else: the same
/// number of tasks, each with its identifier and description, in the same
/// order, now done.
pub proof fn law_done_all_changes_only_the_status(s: Seq<TaskView>)
    ensures
        all_done(s).len() == s.len(),
        forall|i: int|
            0 <= i < s.len() ==> {
                &&& #[trigger] all_done(s)[i].id == s[i].id
                &&& all_done(s)[i].description == s[i].description
                &&& all_done(s)[i].status == Status::Done
            },
{
}

} // verus!

verus! {

/// The identifier that `create` gives is one more than the largest
/// identifier held, or 1 in an empty store: it exceeds every identifier held,
/// and one less than it is 0 in an empty store and an identifier held
/// otherwise.
pub proof fn law_create_gives_largest_plus_one(s: Seq<TaskView>)
    ensures
        s.len() == 0 ==> next_id(s) == 1,
        forall|i: int| 0 <= i < s.len() ==> #[trigger] s[i].id < next_id(s),
        s.len() > 0 ==> exists|i: int| 0 <= i < s.len() && #[trigger] s[i].id == next_id(s) - 1,
    decreases s.len(),
{
    lemma_max_id_bounds(s);
    if s.len() > 0 {
        let d = s.drop_last();
        if d.len() > 0 {
            law_create_gives_largest_plus_one(d);
            let w = choose|i: int| 0 <= i < d.len() && #[trigger] d[i].id == next_id(d) - 1;
            assert(s[w] == d[w]);
        }
        assert(max_id(s) == if s.last().id > max_id(d) { s.last().id } else { max_id(d) });
        if s.last().id > max_id(d) {
            assert(s[s.len() - 1].id == next_id(s) - 1);
        } else if d.len() == 0 {
            assert(max_id(d) == 0);
            assert(s[s.len() - 1].id == next_id(s) - 1);
        } else {
            let w = choose|i: int| 0 <= i < d.len() && #[trigger] d[i].id == next_id(d) - 1;
            assert(s[w] == d[w]);
            assert(s[w].id == next_id(s) - 1);
        }
    }
}

} // verus!
