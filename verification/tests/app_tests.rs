use std::cell::RefCell;
use std::rc::Rc;

use task_cli::app::commands::Commands;
use task_cli::app::{App, AppError};
use task_cli::domain::tasks::{Status, Task, TaskView};
use vstd::seq::Seq;
use task_cli::storage::{Storage, StorageError};

pub struct MockStorage {
    tasks: Vec<Task>,
    list_called_times: Rc<RefCell<u8>>,
}

// The mock is not verified: it states nothing of itself, and its
// specification items are never run.
impl Storage for MockStorage {
    type Error = StorageError;

    fn contents(&self) -> Seq<TaskView> {
        unreachable!()
    }

    fn create_allowed(&self) -> bool {
        unreachable!()
    }

    fn create_outcome(&self, _description: Seq<char>) -> Result<u32, Self::Error> {
        unreachable!()
    }

    fn get_outcome(&self, _id: u32) -> Result<TaskView, Self::Error> {
        unreachable!()
    }

    fn update_outcome(&self, _task: TaskView) -> Result<(), Self::Error> {
        unreachable!()
    }

    fn remove_outcome(&self, _id: u32) -> Result<(), Self::Error> {
        unreachable!()
    }

    fn clear_outcome(&self) -> Result<(), Self::Error> {
        unreachable!()
    }

    fn done_outcome(&self) -> Result<(), Self::Error> {
        unreachable!()
    }

    fn create(&mut self, description: String) -> Result<u32, Self::Error> {
        let id = (self.tasks.len() + 1) as u32;
        self.tasks.push(Task {
            id,
            description,
            status: Status::Todo,
        });
        Ok(id)
    }

    fn get(&self, id: u32) -> Result<Task, Self::Error> {
        if self.tasks.is_empty() {
            return Err(StorageError::EmptyStorage);
        }
        self.tasks
            .iter()
            .find(|t| t.id == id)
            .cloned()
            .ok_or(StorageError::TaskNotFound(id))
    }

    fn update(&mut self, task: Task) -> Result<(), Self::Error> {
        if self.tasks.is_empty() {
            return Err(StorageError::EmptyStorage);
        }
        let existing = self.tasks.iter_mut().find(|t| t.id == task.id);
        match existing {
            Some(t) => *t = task,
            None => return Err(StorageError::TaskNotFound(task.id)),
        }
        Ok(())
    }

    fn remove(&mut self, id: u32) -> Result<(), Self::Error> {
        if self.tasks.is_empty() {
            return Err(StorageError::EmptyStorage);
        }
        let pos = self.tasks.iter().position(|t| t.id == id);
        match pos {
            Some(i) => {
                self.tasks.remove(i);
                Ok(())
            }
            None => Err(StorageError::TaskNotFound(id)),
        }
    }

    fn list(&self) -> Vec<Task> {
        *self.list_called_times.borrow_mut() += 1;
        self.tasks.clone()
    }

    fn list_by_status(&self, status: Status) -> Vec<Task> {
        self.tasks
            .iter()
            .filter(|t| t.status == status)
            .cloned()
            .collect()
    }

    fn clear_all(&mut self) -> Result<(), Self::Error> {
        self.tasks.clear();
        Ok(())
    }

    fn done_all(&mut self) -> Result<(), Self::Error> {
        for task in &mut self.tasks {
            task.status = Status::Done;
        }
        Ok(())
    }
}

impl MockStorage {
    pub fn new() -> Self {
        MockStorage {
            tasks: Vec::new(),
            list_called_times: Rc::new(RefCell::new(0)),
        }
    }
}

#[test]
fn app_dispatch_creates_one_task() {
    let mut app = App::new(MockStorage::new());
    let command = Commands::Create {
        description: Some("Task".into()),
    };
    let result = app.dispatch(command);
    assert!(result.is_ok());
    assert_eq!(
        app.storage.list(),
        vec![Task {
            id: 1,
            description: "Task".into(),
            status: Status::Todo,
        }]
    );
}

#[test]
fn app_dispatch_creates_sequential_id_tasks() {
    let mut app = App::new(MockStorage::new());
    for i in 1..=3 {
        let _result = app.dispatch(Commands::Create {
            description: Some(format!("Task {}", i)),
        });
    }
    for (i, task) in app.storage.list().iter().enumerate() {
        assert_eq!((i + 1) as u32, task.id);
    }
}

#[test]
fn app_dispatch_removes_one_task() {
    let mut app = App::new(MockStorage::new());
    let _result = app.dispatch(Commands::Create {
        description: Some("Remove me".into()),
    });
    let command = Commands::Remove { id: 1 };
    let result = app.dispatch(command);
    assert!(result.is_ok());
    assert_eq!(app.storage.list(), vec![]);
}

#[test]
fn app_dispatch_trying_to_remove_from_empty_storage_returns_empty_storage_error() {
    let mut app = App::new(MockStorage::new());
    let command = Commands::Remove { id: 1 };
    let result = app.dispatch(command);
    assert!(result.is_err());
    assert_eq!(result, Err(AppError::EmptyStorage));
}

#[test]
fn app_dispatch_trying_to_remove_invalid_id_returns_task_not_found_error() {
    let mut app = App::new(MockStorage::new());
    let _result = app.dispatch(Commands::Create {
        description: Some("Task".into()),
    });
    let command = Commands::Remove { id: 2 };
    let result = app.dispatch(command);
    assert!(result.is_err());
    assert_eq!(result, Err(AppError::TaskNotFound(2)));
}

#[test]
fn app_dispatch_update_no_options_prints_nothing_changed() {
    let mut app = App::new(MockStorage::new());
    let _ = app.dispatch(Commands::Create {
        description: Some("Task".into()),
    });
    let command = Commands::Update {
        id: 1,
        description: None,
        status: None,
    };
    let result = app.dispatch(command);
    assert!(result.is_ok());
}

#[test]
fn app_dispatch_update_only_description_updates_description_preserves_status() {
    let mut app = App::new(MockStorage::new());
    let _ = app.dispatch(Commands::Create {
        description: Some("Original".into()),
    });
    let command = Commands::Update {
        id: 1,
        description: Some("Updated".into()),
        status: None,
    };
    let result = app.dispatch(command);
    assert!(result.is_ok());
    assert_eq!(
        app.storage.list(),
        vec![Task {
            id: 1,
            description: "Updated".into(),
            status: Status::Todo,
        }]
    );
}

#[test]
fn app_dispatch_update_only_status_updates_status_preserves_description() {
    let mut app = App::new(MockStorage::new());
    let _ = app.dispatch(Commands::Create {
        description: Some("Task".into()),
    });
    let command = Commands::Update {
        id: 1,
        description: None,
        status: Some("done".into()),
    };
    let result = app.dispatch(command);
    assert!(result.is_ok());
    assert_eq!(
        app.storage.list(),
        vec![Task {
            id: 1,
            description: "Task".into(),
            status: Status::Done,
        }]
    );
}

#[test]
fn app_dispatch_update_both_description_and_status_updates_both() {
    let mut app = App::new(MockStorage::new());
    let _ = app.dispatch(Commands::Create {
        description: Some("Original".into()),
    });
    let command = Commands::Update {
        id: 1,
        description: Some("Updated".into()),
        status: Some("done".into()),
    };
    let result = app.dispatch(command);
    assert!(result.is_ok());
    assert_eq!(
        app.storage.list(),
        vec![Task {
            id: 1,
            description: "Updated".into(),
            status: Status::Done,
        }]
    );
}

#[test]
fn app_dispatch_update_invalid_status_returns_error() {
    let mut app = App::new(MockStorage::new());
    let _ = app.dispatch(Commands::Create {
        description: Some("Task".into()),
    });
    let command = Commands::Update {
        id: 1,
        description: None,
        status: Some("invalid".into()),
    };
    let result = app.dispatch(command);
    assert!(result.is_err());
}

#[test]
fn app_dispatch_update_nonexistent_id_returns_task_not_found() {
    let mut app = App::new(MockStorage::new());
    let _ = app.dispatch(Commands::Create {
        description: Some("Task".into()),
    });
    let command = Commands::Update {
        id: 99,
        description: Some("Updated".into()),
        status: None,
    };
    let result = app.dispatch(command);
    assert!(result.is_err());
    assert_eq!(result, Err(AppError::TaskNotFound(99)));
}

#[test]
fn app_dispatch_update_empty_storage_returns_error() {
    let mut app = App::new(MockStorage::new());
    let command = Commands::Update {
        id: 1,
        description: Some("Updated".into()),
        status: None,
    };
    let result = app.dispatch(command);
    assert!(result.is_err());
    assert_eq!(result, Err(AppError::EmptyStorage));
}

#[test]
fn app_dispatch_calls_storage_list_method() {
    let mock = MockStorage::new();
    let list_called_times = mock.list_called_times.clone();
    let mut app = App::new(mock);
    assert_eq!(*list_called_times.borrow(), 0);
    let result = app.dispatch(Commands::List {
        all: false,
        status: None,
    });
    assert!(result.is_ok());
    assert_eq!(*list_called_times.borrow(), 1);
}

#[test]
fn app_dispatch_list_default_shows_todo_and_in_progress_but_not_done() {
    let mut app = App::new(MockStorage::new());
    let _ = app.dispatch(Commands::Create {
        description: Some("Todo task".into()),
    });
    let command = Commands::List {
        all: false,
        status: None,
    };
    let result = app.dispatch(command);
    assert!(result.is_ok());
}

#[test]
fn app_dispatch_list_all_shows_everything() {
    let mut app = App::new(MockStorage::new());
    let command = Commands::List {
        all: true,
        status: None,
    };
    let result = app.dispatch(command);
    assert!(result.is_ok());
}

#[test]
fn app_dispatch_list_with_status_uses_list_by_status() {
    let mut app = App::new(MockStorage::new());
    let command = Commands::List {
        all: false,
        status: Some("todo".into()),
    };
    let result = app.dispatch(command);
    assert!(result.is_ok());
}

#[test]
fn app_dispatch_list_with_status_done_uses_list_by_status() {
    let mut app = App::new(MockStorage::new());
    let command = Commands::List {
        all: false,
        status: Some("done".into()),
    };
    let result = app.dispatch(command);
    assert!(result.is_ok());
}

#[test]
fn app_dispatch_create_empty_description_returns_invalid_description_error() {
    let mut app = App::new(MockStorage::new());
    let command = Commands::Create {
        description: Some("".into()),
    };
    let result = app.dispatch(command);
    assert!(result.is_err());
    assert_eq!(result, Err(AppError::InvalidDescription));
}

#[test]
fn app_dispatch_create_whitespace_description_returns_invalid_description_error() {
    let mut app = App::new(MockStorage::new());
    let command = Commands::Create {
        description: Some("   ".into()),
    };
    let result = app.dispatch(command);
    assert!(result.is_err());
    assert_eq!(result, Err(AppError::InvalidDescription));
}

#[test]
fn app_dispatch_create_without_args_prints_usage_message() {
    let mut app = App::new(MockStorage::new());
    let command = Commands::Create { description: None };
    let result = app.dispatch(command);
    assert!(result.is_ok());
}
