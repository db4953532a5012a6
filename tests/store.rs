use ptodo::store::{plan_add, Operation, StorageAction, StoreError, TaskStore};
use ptodo::task::{created_no_later, TaskItem};

fn item(id: u32, value: &str, checked: bool, date: &str) -> TaskItem {
    TaskItem { id, value: value.to_string(), checked, date_created: date.to_string() }
}

fn copy_rows(rows: &[TaskItem]) -> Vec<TaskItem> {
    rows.iter().map(|t| item(t.id, &t.value, t.checked, &t.date_created)).collect()
}

/// A stand-in for the storage engine: fresh identities, creation times in
/// increasing order, rows kept in creation order.
struct FakeStorage {
    rows: Vec<TaskItem>,
    next_id: u32,
    clock: u32,
}

impl FakeStorage {
    fn new() -> Self {
        FakeStorage { rows: Vec::new(), next_id: 1, clock: 0 }
    }

    fn apply(&mut self, action: StorageAction) {
        match action {
            StorageAction::Insert(text) => {
                let date = format!("2024-01-01 10:00:{:02}", self.clock);
                self.rows.push(item(self.next_id, &text, false, &date));
                self.next_id += 1;
                self.clock += 1;
            }
            StorageAction::MarkCompleted(id) => {
                for t in self.rows.iter_mut() {
                    if t.id == id {
                        t.checked = true;
                    }
                }
            }
            StorageAction::Remove(id) => self.rows.retain(|t| t.id != id),
            StorageAction::Nothing => {}
        }
    }

    fn run(&mut self, store: &mut TaskStore, op: Operation) -> Result<(), StoreError> {
        let action = store.plan(op)?;
        self.apply(action);
        store.refresh(copy_rows(&self.rows))
    }
}

fn listing(store: &TaskStore) -> Vec<(usize, bool, String)> {
    store.display_rows().into_iter().map(|r| (r.index, r.completed, r.text)).collect()
}

fn three_tasks() -> (FakeStorage, TaskStore) {
    let mut storage = FakeStorage::new();
    let mut store = TaskStore::empty();
    for text in ["A", "B", "C"] {
        storage.run(&mut store, Operation::Add(text.to_string())).unwrap();
    }
    (storage, store)
}

#[test]
fn end_to_end_add_check_delete() {
    let mut storage = FakeStorage::new();
    let mut store = TaskStore::empty();
    storage.run(&mut store, Operation::Add("buy milk".to_string())).unwrap();
    storage.run(&mut store, Operation::Add("write report".to_string())).unwrap();
    assert_eq!(
        listing(&store),
        vec![(1, false, "buy milk".to_string()), (2, false, "write report".to_string())]
    );
    assert_eq!(store.pending_count(), 2);

    storage.run(&mut store, Operation::Check(1)).unwrap();
    assert_eq!(
        listing(&store),
        vec![(1, true, "buy milk".to_string()), (2, false, "write report".to_string())]
    );
    assert_eq!(store.pending_count(), 1);

    storage.run(&mut store, Operation::Delete(1)).unwrap();
    assert_eq!(listing(&store), vec![(1, false, "write report".to_string())]);
    assert_eq!(store.pending_count(), 1);
}

#[test]
fn delete_first_renumbers_the_rest() {
    let (mut storage, mut store) = three_tasks();
    let a = store.resolve_index(1).unwrap().id;
    let b = store.resolve_index(2).unwrap().id;
    storage.run(&mut store, Operation::Delete(1)).unwrap();
    let first = store.resolve_index(1).unwrap();
    assert_eq!(first.id, b);
    assert_eq!(first.value, "B");
    assert!(store.get_tasks().iter().all(|t| t.id != a));
    assert_eq!(store.len(), 2);
}

#[test]
fn check_and_delete_keep_identities() {
    let (mut storage, mut store) = three_tasks();
    let before: Vec<u32> = store.get_tasks().iter().map(|t| t.id).collect();
    storage.run(&mut store, Operation::Check(2)).unwrap();
    let after: Vec<u32> = store.get_tasks().iter().map(|t| t.id).collect();
    assert_eq!(before, after);
    storage.run(&mut store, Operation::Delete(2)).unwrap();
    let after: Vec<u32> = store.get_tasks().iter().map(|t| t.id).collect();
    assert_eq!(after, vec![before[0], before[2]]);
}

#[test]
fn check_twice_is_idempotent() {
    let (mut storage, mut store) = three_tasks();
    storage.run(&mut store, Operation::Check(2)).unwrap();
    assert!(store.resolve_index(2).unwrap().checked);
    assert_eq!(storage.run(&mut store, Operation::Check(2)), Ok(()));
    assert!(store.resolve_index(2).unwrap().checked);
    assert_eq!(store.pending_count(), 2);
}

#[test]
fn resolve_index_bounds() {
    let (_, store) = three_tasks();
    assert_eq!(store.resolve_index(0).err(), Some(StoreError::IndexOutOfRange));
    assert_eq!(store.resolve_index(4).err(), Some(StoreError::IndexOutOfRange));
    assert_eq!(store.resolve_index(1).unwrap().value, "A");
    assert_eq!(store.resolve_index(2).unwrap().value, "B");
    assert_eq!(store.resolve_index(3).unwrap().value, "C");
}

#[test]
fn resolve_index_on_empty_store() {
    let store = TaskStore::empty();
    assert_eq!(store.resolve_index(1).err(), Some(StoreError::IndexOutOfRange));
    assert!(matches!(store.plan_check(1), Err(StoreError::IndexOutOfRange)));
    assert!(matches!(store.plan_delete(1), Err(StoreError::IndexOutOfRange)));
}

#[test]
fn out_of_range_check_and_delete_change_nothing() {
    let (mut storage, mut store) = three_tasks();
    assert_eq!(storage.run(&mut store, Operation::Check(4)), Err(StoreError::IndexOutOfRange));
    assert_eq!(storage.run(&mut store, Operation::Delete(0)), Err(StoreError::IndexOutOfRange));
    assert_eq!(store.len(), 3);
    assert_eq!(store.pending_count(), 3);
}

#[test]
fn empty_text_is_rejected() {
    let (mut storage, mut store) = three_tasks();
    assert!(matches!(plan_add(String::new()), Err(StoreError::InvalidInput)));
    assert_eq!(
        storage.run(&mut store, Operation::Add(String::new())),
        Err(StoreError::InvalidInput)
    );
    assert_eq!(store.len(), 3);
    assert_eq!(storage.rows.len(), 3);
}

#[test]
fn plan_gives_the_storage_step() {
    let (_, store) = three_tasks();
    let b = store.resolve_index(2).unwrap().id;
    match plan_add("x".to_string()) {
        Ok(StorageAction::Insert(t)) => assert_eq!(t, "x"),
        _ => panic!("expected an insert"),
    }
    assert!(matches!(store.plan(Operation::Check(2)), Ok(StorageAction::MarkCompleted(id)) if id == b));
    assert!(matches!(store.plan(Operation::Delete(2)), Ok(StorageAction::Remove(id)) if id == b));
    assert!(matches!(store.plan(Operation::Empty), Ok(StorageAction::Nothing)));
}

#[test]
fn refresh_refuses_unsorted_rows() {
    let (_, mut store) = three_tasks();
    let rows = vec![
        item(7, "late", false, "2024-02-01 00:00:00"),
        item(8, "early", false, "2024-01-01 00:00:00"),
    ];
    assert_eq!(store.refresh(rows), Err(StoreError::StorageReadError));
    assert_eq!(store.len(), 3);
    assert_eq!(store.resolve_index(1).unwrap().value, "A");
}

#[test]
fn refresh_refuses_repeated_identity() {
    let mut store = TaskStore::empty();
    let rows = vec![
        item(3, "one", false, "2024-01-01 00:00:00"),
        item(3, "two", false, "2024-01-02 00:00:00"),
    ];
    assert_eq!(store.refresh(rows), Err(StoreError::StorageReadError));
    assert_eq!(store.len(), 0);
}

#[test]
fn refresh_accepts_equal_times() {
    let mut store = TaskStore::empty();
    let rows = vec![
        item(1, "one", false, "2024-01-01 00:00:00"),
        item(2, "two", true, "2024-01-01 00:00:00"),
        item(3, "three", false, "2024-01-01 00:00:01"),
    ];
    assert_eq!(store.refresh(rows), Ok(()));
    assert_eq!(store.len(), 3);
    assert_eq!(store.pending_count(), 2);
}

#[test]
fn from_rows_checks_the_first_read() {
    let good = vec![item(2, "x", false, "2024-01-01 00:00:00"), item(1, "y", false, "2024-01-03 00:00:00")];
    let store = TaskStore::from_rows(good).unwrap();
    assert_eq!(store.resolve_index(1).unwrap().id, 2);
    let bad = vec![item(1, "y", false, "2024-01-03 00:00:00"), item(2, "x", false, "2024-01-01 00:00:00")];
    assert_eq!(TaskStore::from_rows(bad).err(), Some(StoreError::StorageReadError));
}

#[test]
fn display_rows_carry_all_fields() {
    let store = TaskStore::from_rows(vec![
        item(5, "first", true, "2024-01-01 08:00:00"),
        item(9, "second", false, "2024-01-01 09:00:00"),
    ])
    .unwrap();
    let rows = store.display_rows();
    assert_eq!(rows.len(), 2);
    assert_eq!(rows[0].index, 1);
    assert!(rows[0].completed);
    assert_eq!(rows[0].text, "first");
    assert_eq!(rows[0].created_at, "2024-01-01 08:00:00");
    assert_eq!(rows[1].index, 2);
    assert!(!rows[1].completed);
    assert_eq!(rows[1].text, "second");
    assert_eq!(rows[1].created_at, "2024-01-01 09:00:00");
}

#[test]
fn pending_count_of_empty_store_is_zero() {
    assert_eq!(TaskStore::empty().pending_count(), 0);
    assert!(TaskStore::empty().display_rows().is_empty());
}

#[test]
fn timestamp_order() {
    assert!(created_no_later("2024-01-01 10:00:00", "2024-01-02 09:00:00"));
    assert!(!created_no_later("2024-01-02 09:00:00", "2024-01-01 10:00:00"));
    assert!(created_no_later("2024-01-01 10:00:00", "2024-01-01 10:00:00"));
    assert!(created_no_later("2024-01-01", "2024-01-01 10:00:00"));
    assert!(!created_no_later("2024-01-01 10:00:00", "2024-01-01"));
    assert!(created_no_later("", ""));
}

#[test]
fn row_columns_to_task() {
    let t = TaskItem::from_columns(4, "x".to_string(), 2, "2024-01-01 00:00:00".to_string());
    assert_eq!(t.id, 4);
    assert!(t.checked);
    assert_eq!(t.value, "x");
    assert_eq!(t.date_created, "2024-01-01 00:00:00");
    assert!(!TaskItem::from_columns(4, "x".to_string(), 0, String::new()).checked);
}
