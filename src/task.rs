use vstd::prelude::*;

verus! {

/// One stored task, as the storage engine hands it back.
#[derive(Debug)]
pub struct TaskItem {
    /// Stable identity, assigned by the storage engine and never reused.
    pub id: u32,
    /// The task's text.
    pub value: String,
    /// Whether the task has been completed.
    pub checked: bool,
    /// Creation timestamp as text, e.g. `2024-05-01 09:30:00`.
    pub date_created: String,
}

/// The mathematical value of a task.
pub struct TaskModel {
    pub id: u32,
    pub value: Seq<char>,
    pub checked: bool,
    pub date_created: Seq<char>,
}

impl View for TaskItem {
    type V = TaskModel;

    open spec fn view(&self) -> TaskModel {
        TaskModel {
            id: self.id,
            value: self.value@,
            checked: self.checked,
            date_created: self.date_created@,
        }
    }
}

/// The models of a sequence of tasks, position by position.
pub open spec fn models(rows: Seq<TaskItem>) -> Seq<TaskModel> {
    rows.map_values(|t: TaskItem| t@)
}

/// Lexicographic order on text from position `i` on, comparing characters
/// by their code points; a prefix comes before any longer text.
pub open spec fn text_le_from(a: Seq<char>, b: Seq<char>, i: int) -> bool
    decreases a.len() - i,
{
    if i < 0 || i >= a.len() {
        true
    } else if i >= b.len() {
        false
    } else if a[i] != b[i] {
        (a[i] as u32) < (b[i] as u32)
    } else {
        text_le_from(a, b, i + 1)
    }
}

/// `a` sorts no later than `b`. Timestamps written as
/// `YYYY-MM-DD HH:MM:SS` sort this way in time order.
pub open spec fn text_le(a: Seq<char>, b: Seq<char>) -> bool {
    text_le_from(a, b, 0)
}

/// The text order is transitive.
pub proof fn lemma_text_le_from_transitive(a: Seq<char>, b: Seq<char>, c: Seq<char>, i: int)
    requires
        0 <= i,
        text_le_from(a, b, i),
        text_le_from(b, c, i),
    ensures
        text_le_from(a, c, i),
    decreases a.len() - i,
{
    if i < a.len() && i < b.len() && i < c.len() && a[i] == b[i] && b[i] == c[i] {
        lemma_text_le_from_transitive(a, b, c, i + 1);
    }
}

/// The text order is transitive.
pub proof fn lemma_text_le_transitive(a: Seq<char>, b: Seq<char>, c: Seq<char>)
    requires
        text_le(a, b),
        text_le(b, c),
    ensures
        text_le(a, c),
{
    lemma_text_le_from_transitive(a, b, c, 0);
}

/// Decides `text_le(a@, b@)`.
pub fn created_no_later(a: &str, b: &str) -> (r: bool)
    ensures
        r == text_le(a@, b@),
{
    let la = a.unicode_len();
    let lb = b.unicode_len();
    let mut i: usize = 0;
    while i < la && i < lb
        invariant
            la == a@.len(),
            lb == b@.len(),
            i <= la,
            i <= lb,
            text_le(a@, b@) == text_le_from(a@, b@, i as int),
        decreases la - i,
    {
        let ca = a.get_char(i);
        let cb = b.get_char(i);
        if ca != cb {
            return (ca as u32) < (cb as u32);
        }
        i = i + 1;
    }
    i >= la
}

impl TaskItem {
    /// Builds a task from the columns of a stored row; any nonzero
    /// completion column means completed.
    pub fn from_columns(id: u32, value: String, checked: u32, date_created: String) -> (r: TaskItem)
        ensures
            r.id == id,
            r.value == value,
            r.checked == (checked != 0),
            r.date_created == date_created,
    {
        TaskItem { id, value, checked: checked != 0, date_created }
    }
}

} // verus!
