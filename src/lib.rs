//! A personal task list: the ordered view of stored tasks, the mapping
//! from 1-based display indices to stable task identities, and the storage
//! steps that add, complete and delete tasks.

pub mod storage;
pub mod store;
pub mod task;
