//! The task/note data model: the root aggregate that is persisted and the
//! configuration record, together with their mathematical views.

use vstd::prelude::*;

verus! {

/// A sub-note of a task: free text plus a done flag.
pub struct Note {
    pub text: String,
    pub completed: bool,
}

/// A to-do item: free text plus an ordered list of sub-notes.
pub struct Task {
    pub text: String,
    pub notes: Vec<Note>,
}

/// The root aggregate: the working list and the shelf, each an ordered
/// list of tasks. Duplicates are permitted; order is significant.
pub struct TaskState {
    pub current: Vec<Task>,
    pub shelf: Vec<Task>,
}

/// The persisted configuration: the textual hotkey specification.
pub struct AppConfig {
    pub hotkey: String,
}

/// Mathematical value of a `Note`.
pub struct NoteView {
    pub text: Seq<char>,
    pub completed: bool,
}

/// Mathematical value of a `Task`.
pub struct TaskView {
    pub text: Seq<char>,
    pub notes: Seq<NoteView>,
}

/// Mathematical value of a `TaskState`.
pub struct StateView {
    pub current: Seq<TaskView>,
    pub shelf: Seq<TaskView>,
}

/// The values of a sequence of notes.
pub open spec fn notes_view(s: Seq<Note>) -> Seq<NoteView> {
    Seq::new(s.len(), |i: int| s[i]@)
}

/// The values of a sequence of tasks.
pub open spec fn tasks_view(s: Seq<Task>) -> Seq<TaskView> {
    Seq::new(s.len(), |i: int| s[i]@)
}

impl View for Note {
    type V = NoteView;

    open spec fn view(&self) -> NoteView {
        NoteView { text: self.text@, completed: self.completed }
    }
}

impl View for Task {
    type V = TaskView;

    open spec fn view(&self) -> TaskView {
        TaskView { text: self.text@, notes: notes_view(self.notes@) }
    }
}

impl View for TaskState {
    type V = StateView;

    open spec fn view(&self) -> StateView {
        StateView { current: tasks_view(self.current@), shelf: tasks_view(self.shelf@) }
    }
}

impl View for AppConfig {
    type V = Seq<char>;

    open spec fn view(&self) -> Seq<char> {
        self.hotkey@
    }
}

impl Note {
    /// An independent copy carrying the same value.
    pub fn duplicate(&self) -> (r: Note)
        ensures
            r@ == self@,
    {
        Note { text: self.text.clone(), completed: self.completed }
    }
}

impl Task {
    /// An independent copy carrying the same value.
    pub fn duplicate(&self) -> (r: Task)
        ensures
            r@ == self@,
    {
        let mut notes: Vec<Note> = Vec::new();
        let mut i: usize = 0;
        while i < self.notes.len()
            invariant
                i <= self.notes.len(),
                notes@.len() == i,
                forall|j: int| 0 <= j < i ==> notes@[j]@ == self.notes@[j]@,
            decreases self.notes.len() - i,
        {
            notes.push(self.notes[i].duplicate());
            i = i + 1;
        }
        proof {
            assert(notes_view(notes@) =~= notes_view(self.notes@));
        }
        Task { text: self.text.clone(), notes }
    }
}

/// An independent copy of a whole task list, value for value.
pub fn duplicate_tasks(tasks: &Vec<Task>) -> (r: Vec<Task>)
    ensures
        tasks_view(r@) == tasks_view(tasks@),
{
    let mut out: Vec<Task> = Vec::new();
    let mut i: usize = 0;
    while i < tasks.len()
        invariant
            i <= tasks.len(),
            out@.len() == i,
            forall|j: int| 0 <= j < i ==> out@[j]@ == tasks@[j]@,
        decreases tasks.len() - i,
    {
        out.push(tasks[i].duplicate());
        i = i + 1;
    }
    proof {
        assert(tasks_view(out@) =~= tasks_view(tasks@));
    }
    out
}

impl TaskState {
    /// The empty aggregate: no current tasks, no shelved tasks.
    pub fn empty() -> (r: TaskState)
        ensures
            r@.current.len() == 0,
            r@.shelf.len() == 0,
    {
        TaskState { current: Vec::new(), shelf: Vec::new() }
    }

    /// An independent deep copy carrying the same value.
    pub fn duplicate(&self) -> (r: TaskState)
        ensures
            r@ == self@,
    {
        TaskState {
            current: duplicate_tasks(&self.current),
            shelf: duplicate_tasks(&self.shelf),
        }
    }
}

impl Default for TaskState {
    /// The default aggregate is the empty one.
    fn default() -> (r: TaskState)
        ensures
            r@.current.len() == 0,
            r@.shelf.len() == 0,
    {
        TaskState::empty()
    }
}

impl AppConfig {
    /// An independent copy carrying the same value.
    pub fn duplicate(&self) -> (r: AppConfig)
        ensures
            r@ == self@,
    {
        AppConfig { hotkey: self.hotkey.clone() }
    }
}

impl Default for AppConfig {
    /// The default configuration carries the built-in hotkey.
    fn default() -> (r: AppConfig)
        ensures
            r@ == "Cmd+Ctrl+Alt+Shift+="@,
    {
        AppConfig { hotkey: crate::default_hotkey() }
    }
}

} // verus!
