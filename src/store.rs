use vstd::prelude::*;

use crate::task::{created_no_later, lemma_text_le_transitive, models, text_le, TaskItem, TaskModel};

verus! {

/// What can go wrong with a task-store operation.
#[derive(Debug, Clone, Copy, PartialEq, Eq, Structural)]
pub enum StoreError {
    /// The backing store could not be opened or created.
    StorageUnavailable,
    /// A write to the backing store failed.
    StorageWriteError,
    /// A read from the backing store failed, or gave rows that break the
    /// store's ordering or identity rules.
    StorageReadError,
    /// The task text was empty.
    InvalidInput,
    /// A display index outside `1..=len`.
    IndexOutOfRange,
}

/// One user intent.
pub enum Operation {
    Add(String),
    Check(usize),
    Delete(usize),
    Empty,
}

/// The single storage step that an operation asks for.
pub enum StorageAction {
    /// Append a task with this text, not completed, created now.
    Insert(String),
    /// Set the completion flag of the task with this identity.
    MarkCompleted(u32),
    /// Delete the task with this identity.
    Remove(u32),
    /// Touch nothing.
    Nothing,
}

/// One line of the listing handed to the presentation layer.
pub struct DisplayRow {
    /// 1-based position in the ordered listing.
    pub index: usize,
    pub completed: bool,
    pub text: String,
    pub created_at: String,
}

/// Tasks are in ascending order of creation time.
pub open spec fn sorted_by_creation(s: Seq<TaskModel>) -> bool {
    forall|i: int, j: int|
        0 <= i < j < s.len() ==> text_le(#[trigger] s[i].date_created, #[trigger] s[j].date_created)
}

/// No two tasks share an identity.
pub open spec fn ids_unique(s: Seq<TaskModel>) -> bool {
    forall|i: int, j: int| 0 <= i < j < s.len() ==> #[trigger] s[i].id != #[trigger] s[j].id
}

/// What every listing held by the store satisfies.
pub open spec fn valid_listing(s: Seq<TaskModel>) -> bool {
    sorted_by_creation(s) && ids_unique(s)
}

/// A display index names a position of a listing of length `len`.
pub open spec fn index_in_range(len: int, display_index: int) -> bool {
    1 <= display_index <= len
}

/// The number of tasks not yet completed.
pub open spec fn pending(s: Seq<TaskModel>) -> nat
    decreases s.len(),
{
    if s.len() == 0 {
        0
    } else {
        pending(s.drop_last()) + if s.last().checked {
            0nat
        } else {
            1nat
        }
    }
}

/// Decides whether an add of `task` is accepted.
pub fn plan_add(task: String) -> (r: Result<StorageAction, StoreError>)
    ensures
        task@.len() == 0 ==> r == Err::<StorageAction, StoreError>(StoreError::InvalidInput),
        task@.len() != 0 ==> r == Ok::<StorageAction, StoreError>(StorageAction::Insert(task)),
{
    if task.as_str().unicode_len() == 0 {
        Err(StoreError::InvalidInput)
    } else {
        Ok(StorageAction::Insert(task))
    }
}

/// The in-memory, ordered view of every stored task, refreshed from storage
/// after each mutation.
pub struct TaskStore {
    items: Vec<TaskItem>,
}

impl View for TaskStore {
    type V = Seq<TaskModel>;

    closed spec fn view(&self) -> Seq<TaskModel> {
        models(self.items@)
    }
}

impl TaskStore {
    pub open spec fn wf(&self) -> bool {
        valid_listing(self@)
    }

    /// A store that holds no task yet.
    pub fn empty() -> (r: TaskStore)
        ensures
            r.wf(),
            r@ == Seq::<TaskModel>::empty(),
    {
        let r = TaskStore { items: Vec::new() };
        assert(r@ =~= Seq::<TaskModel>::empty());
        r
    }

    /// Checks that rows read from storage form a valid listing.
    pub fn rows_are_valid(rows: &Vec<TaskItem>) -> (r: bool)
        ensures
            r == valid_listing(models(rows@)),
    {
        let ghost s = models(rows@);
        let n = rows.len();
        let mut i: usize = 0;
        while i < n
            invariant
                n == rows@.len(),
                s == models(rows@),
                i <= n,
                valid_listing(s.take(i as int)),
            decreases n - i,
        {
            if i > 0 {
                if !created_no_later(rows[i - 1].date_created.as_str(), rows[i].date_created.as_str()) {
                    assert(s[i - 1] == rows@[i - 1]@);
                    assert(s[i as int] == rows@[i as int]@);
                    assert(!text_le(s[i - 1].date_created, s[i as int].date_created));
                    assert(!sorted_by_creation(s));
                    return false;
                }
            }
            let mut j: usize = 0;
            while j < i
                invariant
                    n == rows@.len(),
                    s == models(rows@),
                    j <= i < n,
                    forall|k: int| 0 <= k < j ==> s[k].id != s[i as int].id,
                decreases i - j,
            {
                if rows[j].id == rows[i].id {
                    assert(s[j as int].id == s[i as int].id);
                    assert(!ids_unique(s));
                    return false;
                }
                j = j + 1;
            }
            proof {
                let t = s.take(i as int + 1);
                assert forall|a: int, b: int| 0 <= a < b < t.len() implies text_le(
                    #[trigger] t[a].date_created,
                    #[trigger] t[b].date_created,
                ) by {
                    if b == i {
                        if a < i - 1 {
                            assert(s.take(i as int)[a] == s[a]);
                            assert(s.take(i as int)[i - 1] == s[i - 1]);
                            lemma_text_le_transitive(
                                s[a].date_created,
                                s[i - 1].date_created,
                                s[b].date_created,
                            );
                        }
                    } else {
                        assert(s.take(i as int)[a] == s[a]);
                        assert(s.take(i as int)[b] == s[b]);
                    }
                }
                assert forall|a: int, b: int| 0 <= a < b < t.len() implies #[trigger] t[a].id
                    != #[trigger] t[b].id by {
                    if b < i {
                        assert(s.take(i as int)[a] == s[a]);
                        assert(s.take(i as int)[b] == s[b]);
                    }
                }
            }
            i = i + 1;
        }
        assert(s.take(n as int) =~= s);
        true
    }

    /// Builds the store from the first read of storage.
    pub fn from_rows(rows: Vec<TaskItem>) -> (r: Result<TaskStore, StoreError>)
        ensures
            valid_listing(models(rows@)) <==> r is Ok,
            r matches Ok(st) ==> st.wf() && st@ == models(rows@),
            r is Err ==> r == Err::<TaskStore, StoreError>(StoreError::StorageReadError),
    {
        if Self::rows_are_valid(&rows) {
            Ok(TaskStore { items: rows })
        } else {
            Err(StoreError::StorageReadError)
        }
    }

    /// Replaces the held listing with a fresh full read of storage. Rows
    /// that break the ordering or identity rules are refused and the
    /// previous listing is kept.
    pub fn refresh(&mut self, rows: Vec<TaskItem>) -> (r: Result<(), StoreError>)
        requires
            old(self).wf(),
        ensures
            final(self).wf(),
            valid_listing(models(rows@)) <==> r is Ok,
            r is Ok ==> final(self)@ == models(rows@),
            r is Err ==> r == Err::<(), StoreError>(StoreError::StorageReadError) && final(self)@
                == old(self)@,
    {
        if Self::rows_are_valid(&rows) {
            self.items = rows;
            Ok(())
        } else {
            Err(StoreError::StorageReadError)
        }
    }

    /// The number of tasks held.
    pub fn len(&self) -> (r: usize)
        ensures
            r == self@.len(),
    {
        self.items.len()
    }

    /// The held listing, in ascending order of creation time.
    pub fn get_tasks(&self) -> (r: &Vec<TaskItem>)
        ensures
            models(r@) == self@,
    {
        &self.items
    }

    /// The task at a 1-based display index of the current listing.
    pub fn resolve_index(&self, display_index: usize) -> (r: Result<&TaskItem, StoreError>)
        ensures
            index_in_range(self@.len() as int, display_index as int) <==> r is Ok,
            r matches Ok(t) ==> t@ == self@[display_index - 1],
            r is Err ==> r == Err::<&TaskItem, StoreError>(StoreError::IndexOutOfRange),
    {
        if display_index < 1 || display_index > self.items.len() {
            Err(StoreError::IndexOutOfRange)
        } else {
            Ok(&self.items[display_index - 1])
        }
    }

    /// The number of tasks not yet completed.
    pub fn pending_count(&self) -> (r: usize)
        ensures
            r == pending(self@),
    {
        let ghost s = self@;
        let n = self.items.len();
        let mut count: usize = 0;
        let mut i: usize = 0;
        while i < n
            invariant
                s == self@,
                n == s.len(),
                i <= n,
                count == pending(s.take(i as int)),
                count <= i,
            decreases n - i,
        {
            assert(s.take(i as int + 1).drop_last() =~= s.take(i as int));
            if !self.items[i].checked {
                count = count + 1;
            }
            i = i + 1;
        }
        assert(s.take(n as int) =~= s);
        count
    }

    /// The listing as the presentation layer shows it: each task with its
    /// 1-based display index.
    pub fn display_rows(&self) -> (r: Vec<DisplayRow>)
        ensures
            r@.len() == self@.len(),
            forall|k: int|
                0 <= k < r@.len() ==> {
                    &&& (#[trigger] r@[k]).index == k + 1
                    &&& r@[k].completed == self@[k].checked
                    &&& r@[k].text@ == self@[k].value
                    &&& r@[k].created_at@ == self@[k].date_created
                },
    {
        let n = self.items.len();
        let mut out: Vec<DisplayRow> = Vec::new();
        let mut i: usize = 0;
        while i < n
            invariant
                n == self@.len(),
                i <= n,
                out@.len() == i,
                forall|k: int|
                    0 <= k < i ==> {
                        &&& (#[trigger] out@[k]).index == k + 1
                        &&& out@[k].completed == self@[k].checked
                        &&& out@[k].text@ == self@[k].value
                        &&& out@[k].created_at@ == self@[k].date_created
                    },
            decreases n - i,
        {
            let t = &self.items[i];
            out.push(
                DisplayRow {
                    index: i + 1,
                    completed: t.checked,
                    text: t.value.clone(),
                    created_at: t.date_created.clone(),
                },
            );
            i = i + 1;
        }
        out
    }

    /// Decides the storage step for one user intent.
    pub fn plan(&self, op: Operation) -> (r: Result<StorageAction, StoreError>)
        ensures
            op matches Operation::Add(task) ==> {
                &&& task@.len() == 0 ==> r == Err::<StorageAction, StoreError>(
                    StoreError::InvalidInput,
                )
                &&& task@.len() != 0 ==> r == Ok::<StorageAction, StoreError>(
                    StorageAction::Insert(task),
                )
            },
            op matches Operation::Check(k) ==> {
                &&& index_in_range(self@.len() as int, k as int) ==> r == Ok::<
                    StorageAction,
                    StoreError,
                >(StorageAction::MarkCompleted(self@[k - 1].id))
                &&& !index_in_range(self@.len() as int, k as int) ==> r == Err::<
                    StorageAction,
                    StoreError,
                >(StoreError::IndexOutOfRange)
            },
            op matches Operation::Delete(k) ==> {
                &&& index_in_range(self@.len() as int, k as int) ==> r == Ok::<
                    StorageAction,
                    StoreError,
                >(StorageAction::Remove(self@[k - 1].id))
                &&& !index_in_range(self@.len() as int, k as int) ==> r == Err::<
                    StorageAction,
                    StoreError,
                >(StoreError::IndexOutOfRange)
            },
            op is Empty ==> r == Ok::<StorageAction, StoreError>(StorageAction::Nothing),
    {
        match op {
            Operation::Add(task) => plan_add(task),
            Operation::Check(k) => self.plan_check(k),
            Operation::Delete(k) => self.plan_delete(k),
            Operation::Empty => Ok(StorageAction::Nothing),
        }
    }

    /// Decides the storage step that completes the task at a display index.
    pub fn plan_check(&self, display_index: usize) -> (r: Result<StorageAction, StoreError>)
        ensures
            index_in_range(self@.len() as int, display_index as int) ==> r
                == Ok::<StorageAction, StoreError>(
                StorageAction::MarkCompleted(self@[display_index - 1].id),
            ),
            !index_in_range(self@.len() as int, display_index as int) ==> r == Err::<
                StorageAction,
                StoreError,
            >(StoreError::IndexOutOfRange),
    {
        match self.resolve_index(display_index) {
            Ok(t) => Ok(StorageAction::MarkCompleted(t.id)),
            Err(e) => Err(e),
        }
    }

    /// Decides the storage step that deletes the task at a display index.
    pub fn plan_delete(&self, display_index: usize) -> (r: Result<StorageAction, StoreError>)
        ensures
            index_in_range(self@.len() as int, display_index as int) ==> r
                == Ok::<StorageAction, StoreError>(
                StorageAction::Remove(self@[display_index - 1].id),
            ),
            !index_in_range(self@.len() as int, display_index as int) ==> r == Err::<
                StorageAction,
                StoreError,
            >(StoreError::IndexOutOfRange),
    {
        match self.resolve_index(display_index) {
            Ok(t) => Ok(StorageAction::Remove(t.id)),
            Err(e) => Err(e),
        }
    }
}

} // verus!
