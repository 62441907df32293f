//! A task list kept in memory and saved through a storage backend.

use vstd::prelude::*;
use vstd::string::StringExecFns;

verus! {

/// Name of the file tasks are saved to unless another is configured.
pub const TODO_FILE: &'static str = "todo.json";

/// One task.
#[derive(Debug, Clone)]
pub struct Task {
    /// Identifier, unique within a list.
    pub id: u32,
    /// Short name.
    pub title: String,
    /// What is to be done.
    pub description: String,
    /// Whether it has been done.
    pub completed: bool,
}

/// What went wrong with an operation on a list.
#[derive(Debug, Clone)]
pub enum TodoError {
    /// No task has the identifier that was asked for; the text says which.
    NotFound(String),
    /// The storage backend failed; the text is its report.
    Storage(String),
}

/// The character of the decimal digit `d`.
pub open spec fn digit_char(d: nat) -> char
    recommends
        d < 10,
{
    if d == 0 {
        '0'
    } else if d == 1 {
        '1'
    } else if d == 2 {
        '2'
    } else if d == 3 {
        '3'
    } else if d == 4 {
        '4'
    } else if d == 5 {
        '5'
    } else if d == 6 {
        '6'
    } else if d == 7 {
        '7'
    } else if d == 8 {
        '8'
    } else {
        '9'
    }
}

/// `n` written in decimal, without leading zeros.
pub open spec fn decimal(n: nat) -> Seq<char>
    decreases n,
{
    if n < 10 {
        seq![digit_char(n)]
    } else {
        decimal(n / 10).push(digit_char(n % 10))
    }
}

/// The one-character text of the decimal digit `d`.
fn digit_str(d: u32) -> (s: &'static str)
    requires
        d < 10,
    ensures
        s@ == seq![digit_char(d as nat)],
{
    proof {
        reveal_strlit("0");
        reveal_strlit("1");
        reveal_strlit("2");
        reveal_strlit("3");
        reveal_strlit("4");
        reveal_strlit("5");
        reveal_strlit("6");
        reveal_strlit("7");
        reveal_strlit("8");
        reveal_strlit("9");
    }
    let s = if d == 0 {
        "0"
    } else if d == 1 {
        "1"
    } else if d == 2 {
        "2"
    } else if d == 3 {
        "3"
    } else if d == 4 {
        "4"
    } else if d == 5 {
        "5"
    } else if d == 6 {
        "6"
    } else if d == 7 {
        "7"
    } else if d == 8 {
        "8"
    } else {
        "9"
    };
    assert(s@ =~= seq![digit_char(d as nat)]);
    s
}

/// Appends `n` in decimal to `text`.
fn push_decimal(text: &mut String, n: u32)
    ensures
        final(text)@ == old(text)@ + decimal(n as nat),
    decreases n,
{
    if n >= 10 {
        push_decimal(text, n / 10);
    }
    text.append(digit_str(n % 10));
    assert(text@ =~= old(text)@ + decimal(n as nat));
}

/// The report that no task has identifier `id`, as completing gives it.
pub open spec fn completion_failure(id: u32) -> Seq<char> {
    "Task with id "@ + decimal(id as nat) + " not found"@
}

/// The report that no task has identifier `id`, as removing gives it.
pub open spec fn removal_failure(id: u32) -> Seq<char> {
    "Task "@ + decimal(id as nat) + " not found"@
}

/// The greatest identifier among `tasks`, or zero without any.
pub open spec fn max_id(tasks: Seq<Task>) -> nat
    decreases tasks.len(),
{
    if tasks.len() == 0 {
        0
    } else {
        let rest = max_id(tasks.drop_last());
        if tasks.last().id > rest {
            tasks.last().id as nat
        } else {
            rest
        }
    }
}

/// Position of the first of `tasks` with identifier `id`, if there is one.
pub open spec fn position_of(tasks: Seq<Task>, id: u32) -> Option<int>
    decreases tasks.len(),
{
    if tasks.len() == 0 {
        None
    } else if tasks[0].id == id {
        Some(0)
    } else {
        match position_of(tasks.skip(1), id) {
            Some(i) => Some(i + 1),
            None => None,
        }
    }
}

/// Where [`position_of`] points: at a task with the identifier and none
/// such before it, or nowhere when no task has it.
pub proof fn lemma_position_of(tasks: Seq<Task>, id: u32)
    ensures
        match position_of(tasks, id) {
            Some(i) => 0 <= i < tasks.len() && tasks[i].id == id && forall|j: int|
                0 <= j < i ==> (#[trigger] tasks[j]).id != id,
            None => forall|j: int| 0 <= j < tasks.len() ==> (#[trigger] tasks[j]).id != id,
        },
    decreases tasks.len(),
{
    if tasks.len() > 0 && tasks[0].id != id {
        let rest = tasks.skip(1);
        lemma_position_of(rest, id);
        match position_of(rest, id) {
            Some(i) => {
                assert(tasks[i + 1] == rest[i]);
                assert forall|j: int| 0 <= j < i + 1 implies (#[trigger] tasks[j]).id != id by {
                    if j > 0 {
                        assert(tasks[j] == rest[j - 1]);
                    }
                }
            },
            None => {
                assert forall|j: int| 0 <= j < tasks.len() implies (#[trigger] tasks[j]).id
                    != id by {
                    if j > 0 {
                        assert(tasks[j] == rest[j - 1]);
                    }
                }
            },
        }
    }
}

/// `task` with its completion mark set.
pub open spec fn completed(task: Task) -> Task {
    Task { completed: true, ..task }
}

impl Task {
    /// A task that is not yet done.
    pub fn new(id: u32, title: String, description: String) -> (task: Self)
        ensures
            task == (Task { id, title, description, completed: false }),
    {
        Self { id, title, description, completed: false }
    }

    /// The identifier for the next task of `tasks`: one more than the
    /// greatest in use.
    pub fn find_next_id(tasks: &[Task]) -> (id: u32)
        requires
            max_id(tasks@) < u32::MAX,
        ensures
            id == max_id(tasks@) + 1,
    {
        let mut max: u32 = 0;
        let mut i: usize = 0;
        while i < tasks.len()
            invariant
                i <= tasks@.len(),
                max == max_id(tasks@.take(i as int)),
            decreases tasks@.len() - i,
        {
            proof {
                assert(tasks@.take(i + 1).drop_last() =~= tasks@.take(i as int));
            }
            if tasks[i].id > max {
                max = tasks[i].id;
            }
            i += 1;
        }
        proof {
            assert(tasks@.take(i as int) =~= tasks@);
        }
        max + 1
    }

    /// Marks the first task with identifier `id` as done. Without such a
    /// task nothing changes and the error says so.
    pub fn mark_task_completed(tasks: &mut [Task], id: u32) -> (r: Result<(), String>)
        ensures
            match r {
                Ok(_) => position_of(old(tasks)@, id) matches Some(i) && final(tasks)@ == old(
                    tasks,
                )@.update(i, completed(old(tasks)@[i])),
                Err(text) => position_of(old(tasks)@, id) is None && final(tasks)@ == old(tasks)@
                    && text@ == completion_failure(id),
            },
    {
        let len: usize = tasks.len();
        let mut i: usize = 0;
        while i < len
            invariant
                i <= len,
                len == tasks@.len(),
                tasks@ == old(tasks)@,
                forall|j: int| 0 <= j < i ==> (#[trigger] tasks@[j]).id != id,
            decreases len - i,
        {
            if tasks[i].id == id {
                proof {
                    lemma_position_of(tasks@, id);
                }
                tasks[i].completed = true;
                assert(tasks@ =~= old(tasks)@.update(i as int, completed(old(tasks)@[i as int])));
                return Ok(());
            }
            i += 1;
        }
        proof {
            lemma_position_of(tasks@, id);
        }
        let mut text = String::from_str("Task with id ");
        push_decimal(&mut text, id);
        text.append(" not found");
        Err(text)
    }
}

/// A place tasks are loaded from and saved to.
pub trait TodoStorage {
    /// Reads the saved tasks, or reports why they cannot be read.
    fn load(&self) -> Result<Vec<Task>, String>;

    /// Saves `tasks`, or reports why they cannot be saved.
    fn save(&self, tasks: &Vec<Task>) -> Result<(), String>;
}

/// Storage in a JSON file: the file's path, and the rule for a file that
/// holds nothing yet. Reading and writing the file is left to the program
/// that owns it.
#[derive(Debug)]
pub struct JsonFileStorage {
    file_path: String,
}

impl JsonFileStorage {
    /// Path of the file.
    pub closed spec fn spec_file_path(&self) -> Seq<char> {
        self.file_path@
    }

    /// Storage in the configured file, or in [`TODO_FILE`] when none is
    /// configured.
    pub fn new(configured: Option<String>) -> (storage: Self)
        ensures
            storage.spec_file_path() == match configured {
                Some(path) => path@,
                None => TODO_FILE@,
            },
    {
        let file_path = match configured {
            Some(path) => path,
            None => String::from_str(TODO_FILE),
        };
        Self { file_path }
    }

    /// Path of the file.
    pub fn file_path(&self) -> (path: &String)
        ensures
            path@ == self.spec_file_path(),
    {
        &self.file_path
    }

    /// Whether a file stands for an empty list without being parsed, given
    /// whether it is `present` and its `length` in bytes: a missing file and
    /// an empty file both do.
    pub fn starts_empty(present: bool, length: u64) -> (empty: bool)
        ensures
            empty == (!present || length == 0),
    {
        !present || length == 0
    }
}

/// The outcome of an operation that saved the list: `value` if the save
/// went through, the storage's report otherwise.
pub fn after_save<T>(value: T, saved: Result<(), String>) -> (r: Result<T, TodoError>)
    ensures
        match saved {
            Ok(_) => r == Ok::<T, TodoError>(value),
            Err(report) => r == Err::<T, TodoError>(TodoError::Storage(report)),
        },
{
    match saved {
        Ok(_) => Ok(value),
        Err(report) => Err(TodoError::Storage(report)),
    }
}

/// The line that shows `task` in a listing.
pub open spec fn task_line(task: Task) -> Seq<char> {
    (if task.completed {
        "[✓]"@
    } else {
        "[ ]"@
    }) + " ID: "@ + decimal(task.id as nat) + " - Title: "@ + task.title@ + " | Description: "@
        + task.description@
}

/// The lines that show `tasks`: one per task, in order, or a single line
/// that says there are none.
pub open spec fn listing(tasks: Seq<Task>) -> Seq<Seq<char>> {
    if tasks.len() == 0 {
        seq!["No tasks found."@]
    } else {
        Seq::new(tasks.len(), |i: int| task_line(tasks[i]))
    }
}

/// Whether `lines` reads as `texts`, line for line.
pub open spec fn reads_as(lines: Seq<String>, texts: Seq<Seq<char>>) -> bool {
    &&& lines.len() == texts.len()
    &&& forall|i: int| 0 <= i < lines.len() ==> (#[trigger] lines[i])@ == texts[i]
}

/// The line that shows `task` in a listing.
fn render_task(task: &Task) -> (line: String)
    ensures
        line@ == task_line(*task),
{
    let mut line = String::from_str(
        if task.completed {
            "[✓]"
        } else {
            "[ ]"
        },
    );
    line.append(" ID: ");
    push_decimal(&mut line, task.id);
    line.append(" - Title: ");
    line.append(task.title.as_str());
    line.append(" | Description: ");
    line.append(task.description.as_str());
    line
}

/// A command of the task list program.
#[derive(Debug)]
pub enum Commands {
    /// Add a new task.
    Add {
        /// Title of the task.
        title: String,
        /// Description of the task.
        description: String,
    },
    /// List all tasks.
    List,
    /// Mark a task as completed.
    Complete { id: u32 },
    /// Remove a task.
    Remove { id: u32 },
}

/// The parsed command line of the task list program.
#[derive(Debug)]
pub struct Cli {
    /// The command to run.
    pub command: Commands,
}

/// What the program prints after `command` went through on a list that
/// held `before`.
pub open spec fn report(command: Commands, before: Seq<Task>) -> Seq<Seq<char>> {
    match command {
        Commands::Add { .. } => seq![
            "Task added successfully with ID: "@ + decimal(max_id(before) + 1),
        ],
        Commands::List => listing(before),
        Commands::Complete { id } => seq![
            "Task "@ + decimal(id as nat) + " marked as completed"@,
        ],
        Commands::Remove { id } => seq!["Task "@ + decimal(id as nat) + " removed successfully"@],
    }
}

/// What `command` makes of the tasks `before`, whether or not the result
/// could be saved. A command that names a task that is not there changes
/// nothing.
pub open spec fn applied(command: Commands, before: Seq<Task>) -> Seq<Task> {
    match command {
        Commands::Add { title, description } => before.push(
            Task { id: (max_id(before) + 1) as u32, title, description, completed: false },
        ),
        Commands::List => before,
        Commands::Complete { id } => match position_of(before, id) {
            Some(i) => before.update(i, completed(before[i])),
            None => before,
        },
        Commands::Remove { id } => match position_of(before, id) {
            Some(i) => before.remove(i),
            None => before,
        },
    }
}

/// The tasks in memory, with the storage they are saved to after every
/// change.
pub struct TodoList<S: TodoStorage> {
    storage: S,
    tasks: Vec<Task>,
}

impl<S: TodoStorage> TodoList<S> {
    /// The tasks, in the order they were added.
    pub closed spec fn spec_tasks(&self) -> Seq<Task> {
        self.tasks@
    }

    /// The storage the list is saved to.
    pub closed spec fn spec_storage(&self) -> S {
        self.storage
    }

    /// The list that holds what the storage gave when it was read, or the
    /// storage's report when it could not be read.
    pub fn opened(storage: S, loaded: Result<Vec<Task>, String>) -> (r: Result<Self, TodoError>)
        ensures
            match loaded {
                Ok(tasks) => r matches Ok(list) && list.spec_tasks() == tasks@
                    && list.spec_storage() == storage,
                Err(report) => r matches Err(TodoError::Storage(text)) && text == report,
            },
    {
        match loaded {
            Ok(tasks) => Ok(Self { storage, tasks }),
            Err(report) => Err(TodoError::Storage(report)),
        }
    }

    /// Reads the list from `storage`, and keeps the storage to save to.
    /// Whether the read succeeds, and with which tasks, is the storage's to
    /// say; [`TodoList::opened`] tells what becomes of each answer.
    pub fn load(storage: S) -> (r: Result<Self, TodoError>)
        ensures
            r matches Ok(list) ==> list.spec_storage() == storage,
            r matches Err(e) ==> e is Storage,
    {
        let loaded = storage.load();
        Self::opened(storage, loaded)
    }

    /// Saves the tasks to the storage.
    fn save(&self) -> Result<(), String> {
        self.storage.save(&self.tasks)
    }

    /// The tasks, in the order they were added.
    pub fn tasks(&self) -> (tasks: &Vec<Task>)
        ensures
            tasks@ == self.spec_tasks(),
    {
        &self.tasks
    }

    /// The storage the list is saved to.
    pub fn storage(&self) -> (storage: &S)
        ensures
            *storage == self.spec_storage(),
    {
        &self.storage
    }

    /// Adds a task under the next free identifier and saves the list.
    /// Returns the identifier. The task stays in memory even when the save
    /// fails.
    pub fn add(&mut self, title: String, description: String) -> (r: Result<u32, TodoError>)
        requires
            max_id(old(self).spec_tasks()) < u32::MAX,
        ensures
            final(self).spec_tasks() == applied(
                Commands::Add { title, description },
                old(self).spec_tasks(),
            ),
            match r {
                Ok(id) => id == max_id(old(self).spec_tasks()) + 1,
                Err(e) => e is Storage,
            },
    {
        let next_id = Task::find_next_id(self.tasks.as_slice());
        let new_task = Task::new(next_id, title, description);
        self.tasks.push(new_task);
        let saved = self.save();
        after_save(next_id, saved)
    }

    /// The lines that show the tasks.
    pub fn list(&self) -> (lines: Vec<String>)
        ensures
            reads_as(lines@, listing(self.spec_tasks())),
    {
        let mut lines: Vec<String> = Vec::new();
        if self.tasks.len() == 0 {
            lines.push(String::from_str("No tasks found."));
            return lines;
        }
        let mut i: usize = 0;
        while i < self.tasks.len()
            invariant
                i <= self.tasks@.len(),
                lines@.len() == i,
                forall|j: int| 0 <= j < i ==> (#[trigger] lines@[j])@ == task_line(self.tasks@[j]),
            decreases self.tasks@.len() - i,
        {
            lines.push(render_task(&self.tasks[i]));
            i += 1;
        }
        lines
    }

    /// Marks the first task with identifier `id` as done and saves the
    /// list. Without such a task nothing changes and nothing is saved.
    pub fn complete(&mut self, id: u32) -> (r: Result<(), TodoError>)
        ensures
            final(self).spec_tasks() == applied(Commands::Complete { id }, old(self).spec_tasks()),
            match r {
                Ok(_) => position_of(old(self).spec_tasks(), id) is Some,
                Err(TodoError::NotFound(text)) => position_of(old(self).spec_tasks(), id) is None
                    && text@ == completion_failure(id),
                Err(TodoError::Storage(_)) => position_of(old(self).spec_tasks(), id) is Some,
            },
    {
        match Task::mark_task_completed(self.tasks.as_mut_slice(), id) {
            Ok(_) => {
                let saved = self.save();
                after_save((), saved)
            },
            Err(text) => Err(TodoError::NotFound(text)),
        }
    }

    /// Removes the first task with identifier `id` and saves the list.
    /// Without such a task nothing changes and nothing is saved.
    pub fn remove(&mut self, id: u32) -> (r: Result<(), TodoError>)
        ensures
            final(self).spec_tasks() == applied(Commands::Remove { id }, old(self).spec_tasks()),
            match r {
                Ok(_) => position_of(old(self).spec_tasks(), id) is Some,
                Err(TodoError::NotFound(text)) => position_of(old(self).spec_tasks(), id) is None
                    && text@ == removal_failure(id),
                Err(TodoError::Storage(_)) => position_of(old(self).spec_tasks(), id) is Some,
            },
    {
        let len: usize = self.tasks.len();
        let mut i: usize = 0;
        while i < len
            invariant
                i <= len,
                len == self.tasks@.len(),
                self.tasks@ == old(self).tasks@,
                forall|j: int| 0 <= j < i ==> (#[trigger] self.tasks@[j]).id != id,
            decreases len - i,
        {
            if self.tasks[i].id == id {
                proof {
                    lemma_position_of(self.tasks@, id);
                }
                self.tasks.remove(i);
                let saved = self.save();
                return after_save((), saved);
            }
            i += 1;
        }
        proof {
            lemma_position_of(self.tasks@, id);
        }
        let mut text = String::from_str("Task ");
        push_decimal(&mut text, id);
        text.append(" not found");
        Err(TodoError::NotFound(text))
    }

    /// Runs one command of the program and returns the lines to print.
    pub fn execute(&mut self, command: Commands) -> (r: Result<Vec<String>, TodoError>)
        requires
            command is Add ==> max_id(old(self).spec_tasks()) < u32::MAX,
        ensures
            final(self).spec_tasks() == applied(command, old(self).spec_tasks()),
            r matches Ok(lines) ==> reads_as(lines@, report(command, old(self).spec_tasks())),
            r matches Err(TodoError::NotFound(text)) ==> match command {
                Commands::Complete { id } => position_of(old(self).spec_tasks(), id) is None
                    && text@ == completion_failure(id),
                Commands::Remove { id } => position_of(old(self).spec_tasks(), id) is None
                    && text@ == removal_failure(id),
                _ => false,
            },
            match command {
                Commands::Complete { id } | Commands::Remove { id } => position_of(
                    old(self).spec_tasks(),
                    id,
                ) is None <==> r matches Err(TodoError::NotFound(_)),
                Commands::Add { .. } => !(r matches Err(TodoError::NotFound(_))),
                Commands::List => r is Ok,
            },
    {
        let mut lines: Vec<String> = Vec::new();
        match command {
            Commands::Add { title, description } => {
                match self.add(title, description) {
                    Ok(id) => {
                        let mut line = String::from_str("Task added successfully with ID: ");
                        push_decimal(&mut line, id);
                        lines.push(line);
                        Ok(lines)
                    },
                    Err(e) => Err(e),
                }
            },
            Commands::List => Ok(self.list()),
            Commands::Complete { id } => {
                match self.complete(id) {
                    Ok(_) => {
                        let mut line = String::from_str("Task ");
                        push_decimal(&mut line, id);
                        line.append(" marked as completed");
                        lines.push(line);
                        Ok(lines)
                    },
                    Err(e) => Err(e),
                }
            },
            Commands::Remove { id } => {
                match self.remove(id) {
                    Ok(_) => {
                        let mut line = String::from_str("Task ");
                        push_decimal(&mut line, id);
                        line.append(" removed successfully");
                        lines.push(line);
                        Ok(lines)
                    },
                    Err(e) => Err(e),
                }
            },
        }
    }
}

} // verus!
