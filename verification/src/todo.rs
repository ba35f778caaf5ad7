//! The todo-list process template: tasks with an id, a text and a
//! completion flag, added, toggled, exported and imported.
use vstd::prelude::*;
use crate::text::{chars_of, trim, trim_chars, push_str, push_all, string_of};

verus! {

/// One task of the list.
#[derive(Clone, Debug)]
pub struct TodoItem {
    pub id: String,
    pub text: String,
    pub completed: bool,
}

/// The list of tasks, in the order they were added.
#[derive(Clone, Debug)]
pub struct HyperappTodoState {
    pub tasks: Vec<TodoItem>,
}

/// A task as plain values: id, text, completion.
pub type TaskView = (Seq<char>, Seq<char>, bool);

pub open spec fn item_view(t: TodoItem) -> TaskView {
    (t.id@, t.text@, t.completed)
}

pub open spec fn tasks_view(ts: Seq<TodoItem>) -> Seq<TaskView> {
    ts.map_values(|t: TodoItem| item_view(t))
}

/// Lower-case hexadecimal digit.
pub open spec fn is_lower_hex(c: char) -> bool {
    ('0' <= c && c <= '9') || ('a' <= c && c <= 'f')
}

/// The text form of a random (version 4) UUID: 36 characters, hyphens at
/// 8, 13, 18 and 23, lower-case hex digits elsewhere, the version digit `4`
/// at 14 and one of `8`, `9`, `a`, `b` at 19.
pub open spec fn uuid_v4_text(s: Seq<char>) -> bool {
    &&& s.len() == 36
    &&& forall|i: int|
        0 <= i < 36 ==> (if i == 8 || i == 13 || i == 18 || i == 23 {
            s[i] == '-'
        } else {
            is_lower_hex(#[trigger] s[i])
        })
    &&& s[14] == '4'
    &&& (s[19] == '8' || s[19] == '9' || s[19] == 'a' || s[19] == 'b')
}

/// A fresh random task id (`Uuid::new_v4().to_string()` of the uuid crate).
/// Which id comes back is chance; every outcome has the hyphenated
/// lower-case version-4 form.
#[verifier::external_body]
fn new_task_id() -> (r: String)
    ensures
        uuid_v4_text(r@),
{
    uuid::Uuid::new_v4().to_string()
}

/// The text holds nothing but whitespace.
pub open spec fn is_blank(s: Seq<char>) -> bool {
    trim(s).len() == 0
}

/// The first task from position `j` on whose id is `id`.
pub open spec fn find_task(ts: Seq<TaskView>, id: Seq<char>, j: int) -> Option<int>
    decreases ts.len() - j,
{
    if j < 0 || j >= ts.len() {
        None
    } else if ts[j].0 == id {
        Some(j)
    } else {
        find_task(ts, id, j + 1)
    }
}

/// The list with the completion of task `i` flipped.
pub open spec fn toggled(ts: Seq<TaskView>, i: int) -> Seq<TaskView> {
    ts.update(i, (ts[i].0, ts[i].1, !ts[i].2))
}

/// The list after toggling the task with id `id` (unchanged if there is none).
pub open spec fn toggle_outcome(ts: Seq<TaskView>, id: Seq<char>) -> Seq<TaskView> {
    match find_task(ts, id, 0) {
        Some(i) => toggled(ts, i),
        None => ts,
    }
}

/// The list after an import: the parsed tasks, or the old list when the
/// data did not parse.
pub open spec fn import_outcome(ts: Seq<TaskView>, parsed: Result<Seq<TaskView>, Seq<char>>) -> Seq<
    TaskView,
> {
    match parsed {
        Ok(imported) => imported,
        Err(_) => ts,
    }
}

/// A parse outcome as plain values.
pub open spec fn parsed_view(p: Result<HyperappTodoState, String>) -> Result<Seq<TaskView>, Seq<char>> {
    match p {
        Ok(s) => Ok(tasks_view(s.tasks@)),
        Err(e) => Err(e@),
    }
}

fn copy_item(t: &TodoItem) -> (r: TodoItem)
    ensures
        item_view(r) == item_view(*t),
{
    TodoItem { id: t.id.clone(), text: t.text.clone(), completed: t.completed }
}

fn copy_tasks(ts: &Vec<TodoItem>) -> (r: Vec<TodoItem>)
    ensures
        tasks_view(r@) == tasks_view(ts@),
{
    let mut r: Vec<TodoItem> = Vec::new();
    let mut i: usize = 0;
    while i < ts.len()
        invariant
            i <= ts.len(),
            tasks_view(r@) == tasks_view(ts@).take(i as int),
        decreases ts.len() - i,
    {
        let ghost before = r@;
        r.push(copy_item(&ts[i]));
        assert(tasks_view(r@) =~= tasks_view(before).push(item_view(ts@[i as int])));
        assert(tasks_view(ts@).take(i + 1) =~= tasks_view(ts@).take(i as int).push(
            item_view(ts@[i as int]),
        ));
        i = i + 1;
    }
    assert(tasks_view(ts@).take(ts.len() as int) =~= tasks_view(ts@));
    r
}

impl Default for HyperappTodoState {
    fn default() -> (r: HyperappTodoState)
        ensures
            r.tasks@.len() == 0,
    {
        HyperappTodoState { tasks: Vec::new() }
    }
}

impl HyperappTodoState {
    /// Starts with an empty list.
    pub fn initialize(&mut self)
        ensures
            final(self).tasks@.len() == 0,
    {
        self.tasks = Vec::new();
    }

    /// Adds a task with the given id, unless the text is blank.
    pub fn add_task_with_id(&mut self, text: String, id: String) -> (r: Result<TodoItem, String>)
        ensures
            is_blank(text@) ==> {
                &&& r matches Err(e) && e@ == "Task text cannot be empty"@
                &&& tasks_view(final(self).tasks@) == tasks_view(old(self).tasks@)
            },
            !is_blank(text@) ==> {
                &&& r matches Ok(t) && item_view(t) == (id@, text@, false)
                &&& tasks_view(final(self).tasks@) == tasks_view(old(self).tasks@).push(
                    (id@, text@, false),
                )
            },
    {
        let trimmed = trim_chars(&chars_of(&text));
        if trimmed.len() == 0 {
            return Err("Task text cannot be empty".to_owned());
        }
        let new_task = TodoItem { id, text, completed: false };
        let ghost before = self.tasks@;
        self.tasks.push(copy_item(&new_task));
        assert(tasks_view(self.tasks@) =~= tasks_view(before).push(item_view(new_task)));
        Ok(new_task)
    }

    /// Adds a task under a fresh random id, unless the text is blank.
    pub fn add_task(&mut self, text: String) -> (r: Result<TodoItem, String>)
        ensures
            is_blank(text@) ==> {
                &&& r matches Err(e) && e@ == "Task text cannot be empty"@
                &&& tasks_view(final(self).tasks@) == tasks_view(old(self).tasks@)
            },
            !is_blank(text@) ==> (r matches Ok(t) && t.text@ == text@ && !t.completed
                && uuid_v4_text(t.id@) && tasks_view(final(self).tasks@) == tasks_view(
                old(self).tasks@,
            ).push(item_view(t))),
    {
        let trimmed = trim_chars(&chars_of(&text));
        if trimmed.len() == 0 {
            return Err("Task text cannot be empty".to_owned());
        }
        let id = new_task_id();
        self.add_task_with_id(text, id)
    }

    /// All tasks (the argument is not used).
    pub fn get_tasks(&self, request: String) -> (r: Result<Vec<TodoItem>, String>)
        ensures
            r matches Ok(v) && tasks_view(v@) == tasks_view(self.tasks@),
    {
        Ok(copy_tasks(&self.tasks))
    }

    /// Flips the completion of the first task with the given id.
    pub fn toggle_task(&mut self, id: String) -> (r: Result<TodoItem, String>)
        ensures
            tasks_view(final(self).tasks@) == toggle_outcome(tasks_view(old(self).tasks@), id@),
            match find_task(tasks_view(old(self).tasks@), id@, 0) {
                Some(i) => r matches Ok(t) && item_view(t) == tasks_view(final(self).tasks@)[i],
                None => r matches Err(e) && e@ == "Task with ID "@ + id@ + " not found"@,
            },
    {
        let ghost ts = tasks_view(self.tasks@);
        let mut j: usize = 0;
        while j < self.tasks.len()
            invariant
                ts == tasks_view(self.tasks@),
                ts == tasks_view(old(self).tasks@),
                j <= self.tasks.len(),
                find_task(ts, id@, 0) == find_task(ts, id@, j as int),
            decreases self.tasks.len() - j,
        {
            assert(ts[j as int].0 == self.tasks@[j as int].id@);
            if self.tasks[j].id == id {
                assert(find_task(ts, id@, j as int) == Some(j as int));
                let t = copy_item(&self.tasks[j]);
                let flipped = TodoItem { id: t.id, text: t.text, completed: !t.completed };
                let out = copy_item(&flipped);
                self.tasks.set(j, flipped);
                assert(tasks_view(self.tasks@) =~= toggled(ts, j as int));
                return Ok(out);
            }
            j = j + 1;
        }
        let mut msg: Vec<char> = Vec::new();
        push_str(&mut msg, "Task with ID ");
        push_all(&mut msg, &chars_of(&id));
        push_str(&mut msg, " not found");
        Err(string_of(&msg))
    }

    /// The whole state.
    pub fn export_state(&self) -> (r: Result<HyperappTodoState, String>)
        ensures
            r matches Ok(s) && tasks_view(s.tasks@) == tasks_view(self.tasks@),
    {
        Ok(HyperappTodoState { tasks: copy_tasks(&self.tasks) })
    }

    /// Replaces the tasks with those of a parsed state; `parsed` is the
    /// outcome of reading the imported data, its error the parser's message.
    pub fn import_state(&mut self, parsed: Result<HyperappTodoState, String>) -> (r: Result<
        bool,
        String,
    >)
        ensures
            tasks_view(final(self).tasks@) == import_outcome(tasks_view(old(self).tasks@), parsed_view(parsed)),
            match parsed {
                Ok(s) => r == Ok::<bool, String>(true),
                Err(e) => r matches Err(m) && m@ == "Failed to deserialize state data: "@ + e@,
            },
    {
        match parsed {
            Ok(s) => {
                self.tasks = s.tasks;
                Ok(true)
            },
            Err(e) => {
                let mut msg: Vec<char> = Vec::new();
                push_str(&mut msg, "Failed to deserialize state data: ");
                push_all(&mut msg, &chars_of(&e));
                Err(string_of(&msg))
            },
        }
    }
}

proof fn lemma_find_task_ids(a: Seq<TaskView>, b: Seq<TaskView>, id: Seq<char>, j: int)
    requires
        a.len() == b.len(),
        forall|k: int| 0 <= k < a.len() ==> (#[trigger] a[k]).0 == b[k].0,
    ensures
        find_task(a, id, j) == find_task(b, id, j),
    decreases a.len() - j,
{
    if 0 <= j < a.len() {
        assert(a[j].0 == b[j].0);
        lemma_find_task_ids(a, b, id, j + 1);
    }
}

proof fn lemma_find_task_hit(ts: Seq<TaskView>, id: Seq<char>, j: int)
    requires
        find_task(ts, id, j) is Some,
    ensures
        0 <= find_task(ts, id, j).unwrap() < ts.len(),
        ts[find_task(ts, id, j).unwrap()].0 == id,
    decreases ts.len() - j,
{
    if 0 <= j < ts.len() && ts[j].0 != id {
        lemma_find_task_hit(ts, id, j + 1);
    }
}

/// Toggling the same id twice gives back the list it started from.
pub proof fn lemma_toggle_twice(ts: Seq<TaskView>, id: Seq<char>)
    ensures
        toggle_outcome(toggle_outcome(ts, id), id) == ts,
{
    match find_task(ts, id, 0) {
        Some(i) => {
            lemma_find_task_hit(ts, id, 0);
            let once = toggled(ts, i);
            lemma_find_task_ids(ts, once, id, 0);
            assert(toggled(once, i) =~= ts);
        },
        None => {},
    }
}

/// Toggling changes the completion of at most one task and nothing else:
/// ids, texts and the number of tasks stay as they were.
pub proof fn lemma_toggle_keeps_ids_and_texts(ts: Seq<TaskView>, id: Seq<char>)
    ensures
        toggle_outcome(ts, id).len() == ts.len(),
        forall|k: int|
            0 <= k < ts.len() ==> (#[trigger] toggle_outcome(ts, id)[k]).0 == ts[k].0
                && toggle_outcome(ts, id)[k].1 == ts[k].1,
{
    if let Some(i) = find_task(ts, id, 0) {
        lemma_find_task_hit(ts, id, 0);
    }
}

/// What an import of a parsed state puts in, an export gives back.
pub proof fn lemma_export_after_import(ts: Seq<TaskView>, imported: Seq<TaskView>)
    ensures
        import_outcome(ts, Ok(imported)) == imported,
{
}

/// An import that fails to parse leaves the list as it was.
pub proof fn lemma_failed_import_keeps_tasks(ts: Seq<TaskView>, e: Seq<char>)
    ensures
        import_outcome(ts, Err(e)) == ts,
{
}

} // verus!
