pub mod commands;

use vstd::prelude::*;
use vstd::string::*;

use crate::app::commands::Commands;
use crate::domain::status::{parse_status, parsed_status};
use crate::domain::tasks::{views, Status, Task, TaskView};
use crate::domain::text::{blank, decimal, is_blank, push_decimal};
use crate::storage::{
    all_done, first_index, has_id, lemma_has_id_first, new_task, not_done, removed, replaced,
    with_status, Storage, StorageError,
};

verus! {

/// What a command can fail with.
#[derive(Clone, Copy, Debug, PartialEq, Eq, Structural)]
pub enum AppError {
    TaskNotFound(u32),
    EmptyStorage,
    InvalidDescription,
}

/// The command error that a store error becomes.
pub open spec fn app_error(e: StorageError) -> AppError {
    match e {
        StorageError::TaskNotFound(id) => AppError::TaskNotFound(id),
        StorageError::EmptyStorage => AppError::EmptyStorage,
    }
}

impl From<StorageError> for AppError {
    fn from(err: StorageError) -> (r: Self) {
        match err {
            StorageError::TaskNotFound(id) => AppError::TaskNotFound(id),
            StorageError::EmptyStorage => AppError::EmptyStorage,
        }
    }
}

impl vstd::std_specs::convert::FromSpecImpl<StorageError> for AppError {
    open spec fn obeys_from_spec() -> bool {
        true
    }

    open spec fn from_spec(v: StorageError) -> AppError {
        app_error(v)
    }
}

/// What a command writes: lines for standard output and for standard error.
#[derive(Clone, Debug, PartialEq)]
pub struct Output {
    pub stdout: Vec<String>,
    pub stderr: Vec<String>,
}

/// The texts of a sequence of lines.
pub open spec fn texts(v: Seq<String>) -> Seq<Seq<char>> {
    v.map_values(|s: String| s@)
}

/// Whether an output writes exactly these lines.
pub open spec fn shows(o: Output, out: Seq<Seq<char>>, err: Seq<Seq<char>>) -> bool {
    texts(o.stdout@) == out && texts(o.stderr@) == err
}

/// How a status is shown in a listing.
pub open spec fn status_label(s: Status) -> Seq<char> {
    match s {
        Status::Todo => "to-do"@,
        Status::InProgress => "in progress"@,
        Status::Done => "done"@,
    }
}

/// The line of a task in a listing: `<id>: (<status>) <description>`.
pub open spec fn task_line(t: TaskView) -> Seq<char> {
    decimal(t.id as nat) + ": ("@ + status_label(t.status) + ") "@ + t.description
}

/// The lines of a listing.
pub open spec fn task_lines(s: Seq<TaskView>) -> Seq<Seq<char>> {
    s.map_values(|t: TaskView| task_line(t))
}

/// What `create` writes when it is given no description.
pub open spec fn create_usage() -> Seq<Seq<char>> {
    seq!["Nothing has changed."@, "Usage: create --description \"text\""@]
}

/// What `update` writes when it is given nothing to change.
pub open spec fn update_usage() -> Seq<Seq<char>> {
    seq![
        "Nothing has changed."@,
        "Usage: update <id> --description \"text\" or --status [todo|in-progress|done]"@,
    ]
}

/// What `clear` writes when it is given neither flag.
pub open spec fn clear_usage() -> Seq<Seq<char>> {
    seq!["Nothing has changed."@, "Usage: clear --yes or --done"@]
}

/// The text of an optional text.
pub open spec fn text_of(o: Option<String>) -> Option<Seq<char>> {
    match o {
        Some(s) => Some(s@),
        None => None,
    }
}

/// The status that an optional status text names, where it names one.
pub open spec fn status_choice(o: Option<String>) -> Option<Status> {
    match o {
        Some(s) => match parsed_status(s@) {
            Ok(p) => Some(p),
            Err(_) => None,
        },
        None => None,
    }
}

/// A task with the description and the status replaced where new ones are given.
pub open spec fn updated(t: TaskView, description: Option<Seq<char>>, status: Option<Status>) -> TaskView {
    TaskView {
        id: t.id,
        description: match description {
            Some(d) => d,
            None => t.description,
        },
        status: match status {
            Some(s) => s,
            None => t.status,
        },
    }
}

/// The text of a status in a listing.
pub fn status_text(s: Status) -> (r: &'static str)
    ensures
        r@ == status_label(s),
{
    match s {
        Status::Todo => "to-do",
        Status::InProgress => "in progress",
        Status::Done => "done",
    }
}

/// The line of a task in a listing.
pub fn format_task(task: &Task) -> (r: String)
    ensures
        r@ == task_line(task@),
{
    let mut line = String::new();
    push_decimal(&mut line, task.id);
    line.append(": (");
    line.append(status_text(task.status));
    line.append(") ");
    line.append(task.description.as_str());
    assert(line@ =~= task_line(task@));
    line
}

/// The lines of a listing, one per task, in order.
pub fn format_tasks(tasks: &Vec<Task>) -> (r: Vec<String>)
    ensures
        texts(r@) == task_lines(views(tasks@)),
{
    let mut out: Vec<String> = Vec::new();
    let mut i: usize = 0;
    while i < tasks.len()
        invariant
            i <= tasks.len(),
            texts(out@) == task_lines(views(tasks@)).take(i as int),
        decreases tasks.len() - i,
    {
        let line = format_task(&tasks[i]);
        let ghost before = out@;
        out.push(line);
        assert(texts(out@) =~= texts(before).push(line@));
        assert(task_lines(views(tasks@)).take(i + 1) =~= task_lines(views(tasks@)).take(i as int).push(
            task_line(tasks@[i as int]@),
        ));
        i = i + 1;
    }
    assert(task_lines(views(tasks@)).take(i as int) =~= task_lines(views(tasks@)));
    out
}

/// The tasks that are not done, in order.
pub fn pending(tasks: Vec<Task>) -> (r: Vec<Task>)
    ensures
        views(r@) == not_done(views(tasks@)),
{
    let mut out: Vec<Task> = Vec::new();
    let mut i: usize = 0;
    while i < tasks.len()
        invariant
            i <= tasks.len(),
            views(out@) == not_done(views(tasks@).take(i as int)),
        decreases tasks.len() - i,
    {
        proof {
            assert(views(tasks@).take(i + 1).drop_last() == views(tasks@).take(i as int));
            reveal_with_fuel(Seq::<_>::filter, 1);
        }
        if tasks[i].status != Status::Done {
            let ghost before = out@;
            out.push(tasks[i].duplicate());
            assert(views(out@) =~= views(before).push(tasks@[i as int]@));
        }
        i = i + 1;
    }
    assert(views(tasks@).take(i as int) == views(tasks@));
    out
}

fn nothing() -> (r: Output)
    ensures
        shows(r, seq![], seq![]),
{
    let r = Output { stdout: Vec::new(), stderr: Vec::new() };
    assert(texts(r.stdout@) =~= seq![]);
    assert(texts(r.stderr@) =~= seq![]);
    r
}

fn usage(second: &str) -> (r: Output)
    ensures
        shows(r, seq![], seq!["Nothing has changed."@, second@]),
{
    let r = Output {
        stdout: Vec::new(),
        stderr: vec![String::from_str("Nothing has changed."), String::from_str(second)],
    };
    assert(texts(r.stdout@) =~= seq![]);
    assert(texts(r.stderr@) =~= seq!["Nothing has changed."@, second@]);
    r
}

/// The view of a read that gives a task.
pub open spec fn found_view(found: Result<Task, StorageError>) -> Result<TaskView, StorageError> {
    match found {
        Ok(t) => Ok(t@),
        Err(e) => Err(e),
    }
}

/// What an update makes of the task that was read: the store's error where
/// the read failed, `EmptyStorage` where the status given cannot be read,
/// else the task with the description and status given.
pub open spec fn update_result(
    found: Result<TaskView, StorageError>,
    description: Option<String>,
    status: Option<String>,
) -> Result<TaskView, AppError> {
    match found {
        Err(e) => Err(app_error(e)),
        Ok(t) => if status is Some && parsed_status(status->0@) is Err {
            Err(AppError::EmptyStorage)
        } else {
            Ok(updated(t, text_of(description), status_choice(status)))
        },
    }
}

/// Applies an update's description and status to the task that was read.
pub fn apply_update(
    found: Result<Task, StorageError>,
    description: Option<String>,
    status: Option<String>,
) -> (r: Result<Task, AppError>)
    ensures
        match update_result(found_view(found), description, status) {
            Ok(u) => r matches Ok(t) && t@ == u,
            Err(e) => r == Err::<Task, AppError>(e),
        },
{
    let ghost dv = text_of(description);
    let ghost sv = status_choice(status);
    let mut task = match found {
        Ok(t) => t,
        Err(e) => {
            return Err(AppError::from(e));
        },
    };
    let ghost read = task@;
    if let Some(desc) = description {
        task.description = desc;
    }
    if let Some(status_str) = status {
        match parse_status(status_str.as_str()) {
            Ok(p) => {
                task.status = p;
            },
            Err(_) => {
                return Err(AppError::EmptyStorage);
            },
        }
    }
    assert(task@ == updated(read, dv, sv));
    Ok(task)
}

/// The task manager: a store and what each command does to it.
pub struct App<S> {
    pub storage: S,
}

impl<S: Storage<Error = StorageError>> App<S> {
    /// A task manager over the given store.
    pub fn new(storage: S) -> (r: Self)
        ensures
            r.storage == storage,
    {
        App { storage }
    }

    /// Carries out a command and says what to write.
    pub fn dispatch(&mut self, command: Commands) -> (r: Result<Output, AppError>)
        requires
            command matches Commands::Create { description: Some(d) } && !blank(d@)
                ==> old(self).storage.create_allowed(),
        ensures
            match command {
                Commands::Create { description } => match description {
                    None => r matches Ok(o) && shows(o, seq![], create_usage()) && *final(self)
                        == *old(self),
                    Some(d) => if blank(d@) {
                        r == Err::<Output, AppError>(AppError::InvalidDescription) && *final(self)
                            == *old(self)
                    } else {
                        match old(self).storage.create_outcome(d@) {
                            Ok(id) => r matches Ok(o) && shows(o, seq![], seq![])
                                && final(self).storage.contents() == old(
                                self,
                            ).storage.contents().push(new_task(id, d@)),
                            Err(e) => r == Err::<Output, AppError>(app_error(e))
                                && final(self).storage.contents() == old(self).storage.contents(),
                        }
                    },
                },
                Commands::Remove { id } => match old(self).storage.remove_outcome(id) {
                    Ok(_) => r matches Ok(o) && shows(o, seq![], seq![]) && has_id(
                        old(self).storage.contents(),
                        id,
                    ) && final(self).storage.contents() == removed(old(self).storage.contents(), id),
                    Err(e) => r == Err::<Output, AppError>(app_error(e))
                        && final(self).storage.contents() == old(self).storage.contents(),
                },
                Commands::Update { id, description, status } => if description is None
                    && status is None {
                    r matches Ok(o) && shows(o, seq![], update_usage()) && *final(self) == *old(self)
                } else {
                    let before = old(self).storage.contents();
                    match update_result(old(self).storage.get_outcome(id), description, status) {
                        Err(e) => r == Err::<Output, AppError>(e) && final(self).storage.contents()
                            == before,
                        Ok(u) => match old(self).storage.update_outcome(u) {
                            Ok(_) => r matches Ok(o) && shows(o, seq![], seq![]) && has_id(before, id)
                                && u.id == id && u == updated(
                                before[first_index(before, id)],
                                text_of(description),
                                status_choice(status),
                            ) && final(self).storage.contents() == replaced(before, u),
                            Err(e) => r == Err::<Output, AppError>(app_error(e))
                                && final(self).storage.contents() == before,
                        },
                    }
                },
                Commands::List { all, status } => {
                    let tasks = old(self).storage.contents();
                    &&& *final(self) == *old(self)
                    &&& all ==> (r matches Ok(o) && shows(o, task_lines(tasks), seq![]))
                    &&& !all && status is None ==> (r matches Ok(o) && shows(
                        o,
                        task_lines(not_done(tasks)),
                        seq![],
                    ))
                    &&& !all && status is Some ==> match parsed_status(status->0@) {
                        Ok(p) => r matches Ok(o) && shows(o, task_lines(with_status(tasks, p)), seq![]),
                        Err(_) => r == Err::<Output, AppError>(AppError::EmptyStorage),
                    }
                },
                Commands::Clear { yes, done } => if !yes && !done {
                    r matches Ok(o) && shows(o, seq![], clear_usage()) && *final(self) == *old(self)
                } else {
                    let outcome = if done {
                        old(self).storage.done_outcome()
                    } else {
                        old(self).storage.clear_outcome()
                    };
                    match outcome {
                        Ok(_) => r matches Ok(o) && shows(o, seq![], seq![])
                            && final(self).storage.contents() == if done {
                            all_done(old(self).storage.contents())
                        } else {
                            Seq::<TaskView>::empty()
                        },
                        Err(e) => r == Err::<Output, AppError>(app_error(e))
                            && final(self).storage.contents() == old(self).storage.contents(),
                    }
                },
            },
    {
        match command {
            Commands::Create { description } => {
                match description {
                    None => Ok(usage("Usage: create --description \"text\"")),
                    Some(d) => {
                        if is_blank(d.as_str()) {
                            return Err(AppError::InvalidDescription);
                        }
                        let ghost dv = d@;
                        match self.storage.create(d) {
                            Ok(id) => {
                                assert(self.storage.contents() == old(self).storage.contents().push(
                                    new_task(id, dv),
                                ));
                                Ok(nothing())
                            },
                            Err(e) => Err(AppError::from(e)),
                        }
                    },
                }
            },
            Commands::Remove { id } => {
                match self.storage.remove(id) {
                    Ok(()) => Ok(nothing()),
                    Err(e) => Err(AppError::from(e)),
                }
            },
            Commands::Update { id, description, status } => {
                if description.is_none() && status.is_none() {
                    return Ok(
                        usage(
                            "Usage: update <id> --description \"text\" or --status [todo|in-progress|done]",
                        ),
                    );
                }
                let ghost before = self.storage.contents();
                let found = self.storage.get(id);
                proof {
                    if found is Ok {
                        lemma_has_id_first(before, id);
                    }
                }
                let task = match apply_update(found, description, status) {
                    Ok(t) => t,
                    Err(e) => {
                        return Err(e);
                    },
                };
                match self.storage.update(task) {
                    Ok(()) => Ok(nothing()),
                    Err(e) => Err(AppError::from(e)),
                }
            },
            Commands::List { all, status } => {
                let tasks = if all {
                    self.storage.list()
                } else {
                    match status {
                        Some(s) => {
                            match parse_status(s.as_str()) {
                                Ok(p) => self.storage.list_by_status(p),
                                Err(_) => {
                                    return Err(AppError::EmptyStorage);
                                },
                            }
                        },
                        None => pending(self.storage.list()),
                    }
                };
                let stdout = format_tasks(&tasks);
                let o = Output { stdout, stderr: Vec::new() };
                assert(texts(o.stderr@) =~= seq![]);
                Ok(o)
            },
            Commands::Clear { yes, done } => {
                if done {
                    match self.storage.done_all() {
                        Ok(()) => Ok(nothing()),
                        Err(e) => Err(AppError::from(e)),
                    }
                } else if yes {
                    match self.storage.clear_all() {
                        Ok(()) => Ok(nothing()),
                        Err(e) => Err(AppError::from(e)),
                    }
                } else {
                    Ok(usage("Usage: clear --yes or --done"))
                }
            },
        }
    }
}

} // verus!

verus! {

/// An update changes only what it is given: the identifier always stays,
/// the description stays where none is given, and the status stays where
/// none is given.
pub proof fn law_update_changes_only_given_fields(
    t: TaskView,
    description: Option<Seq<char>>,
    status: Option<Status>,
)
    ensures
        updated(t, description, status).id == t.id,
        description is None ==> updated(t, description, status).description == t.description,
        status is None ==> updated(t, description, status).status == t.status,
        description matches Some(d) ==> updated(t, description, status).description == d,
        status matches Some(s) ==> updated(t, description, status).status == s,
        updated(t, None, None) == t,
{
}

/// The default listing leaves out exactly the tasks that are done: every
/// task it shows is not done, and every task not done is shown.
pub proof fn law_default_listing_hides_done(s: Seq<TaskView>)
    ensures
        forall|i: int| 0 <= i < not_done(s).len() ==> #[trigger] not_done(s)[i].status != Status::Done,
        forall|i: int|
            0 <= i < s.len() && s[i].status != Status::Done ==> not_done(s).contains(#[trigger] s[i]),
        task_lines(not_done(s)).len() == not_done(s).len(),
{
    s.filter_lemma(|t: TaskView| t.status != Status::Done);
}

} // verus!

verus! {

/// An update of a task that was read: the identifier always stays; where no
/// description is given the description stays, else it becomes the one given;
/// where no status is given the status stays, else it becomes the status that
/// the text names, and a text that names none refuses the update with
/// `EmptyStorage`.
pub proof fn law_update_keeps_what_is_not_given(
    t: TaskView,
    description: Option<String>,
    status: Option<String>,
)
    ensures
        update_result(Ok(t), description, status) is Ok ==> {
            let u = update_result(Ok(t), description, status)->Ok_0;
            &&& u.id == t.id
            &&& description is None ==> u.description == t.description
            &&& description matches Some(d) ==> u.description == d@
            &&& status is None ==> u.status == t.status
            &&& status matches Some(st) ==> parsed_status(st@) == Ok::<Status, Seq<char>>(u.status)
        },
        status is None ==> update_result(Ok(t), description, status) is Ok,
        status matches Some(st) ==> (update_result(Ok(t), description, status) is Err
            <==> parsed_status(st@) is Err),
        status matches Some(st) && parsed_status(st@) is Err ==> update_result(
            Ok(t),
            description,
            status,
        ) == Err::<TaskView, AppError>(AppError::EmptyStorage),
{
}

/// A store error met by an update comes out as the command error it maps to.
pub proof fn law_update_passes_store_errors_on(
    e: StorageError,
    description: Option<String>,
    status: Option<String>,
)
    ensures
        update_result(Err(e), description, status) == Err::<TaskView, AppError>(
            match e {
                StorageError::TaskNotFound(id) => AppError::TaskNotFound(id),
                StorageError::EmptyStorage => AppError::EmptyStorage,
            },
        ),
{
}

} // verus!

verus! {

/// A listing has one line per task, in the order of the tasks, and the line
/// of a task ends with its description.
pub proof fn law_listing_lines_follow_the_tasks(s: Seq<TaskView>)
    ensures
        task_lines(s).len() == s.len(),
        forall|i: int|
            0 <= i < s.len() ==> {
                let line = #[trigger] task_lines(s)[i];
                &&& line == task_line(s[i])
                &&& line.len() >= s[i].description.len()
                &&& line.subrange(line.len() - s[i].description.len(), line.len() as int)
                    == s[i].description
            },
{
    assert forall|i: int| 0 <= i < s.len() implies {
        let line = #[trigger] task_lines(s)[i];
        &&& line == task_line(s[i])
        &&& line.len() >= s[i].description.len()
        &&& line.subrange(line.len() - s[i].description.len(), line.len() as int)
            == s[i].description
    } by {
        let t = s[i];
        let head = decimal(t.id as nat) + ": ("@ + status_label(t.status) + ") "@;
        assert(task_line(t) == head + t.description);
        assert((head + t.description).subrange(head.len() as int, (head + t.description).len() as int)
            =~= t.description);
    }
}

} // verus!
