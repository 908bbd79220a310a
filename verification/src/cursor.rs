//! The cursor store: for each ingestion task the position up to which the
//! remote source has been ingested.

use crate::table::TextMap;
use crate::text::text_of;
use vstd::prelude::*;

verus! {

/// The watermark of one task. The position is an opaque token of the
/// remote source; the time is given in seconds since the epoch.
#[derive(Debug, Clone)]
pub struct CursorEntry {
    pub last_cursor: String,
    pub updated_at: u64,
}

/// The watermarks of all tasks.
pub struct CursorStore {
    entries: TextMap<CursorEntry>,
}

impl View for CursorStore {
    type V = Map<Seq<char>, Seq<char>>;

    /// The position of each task that has one.
    closed spec fn view(&self) -> Map<Seq<char>, Seq<char>> {
        Map::new(
            |task: Seq<char>| self.entries@.contains_key(task),
            |task: Seq<char>| self.entries@[task].last_cursor@,
        )
    }
}

impl CursorStore {
    /// Whether the store is well formed.
    pub closed spec fn wf(&self) -> bool {
        self.entries.wf()
    }

    /// The time at which the position of each task was last set.
    pub closed spec fn update_times(&self) -> Map<Seq<char>, u64> {
        Map::new(
            |task: Seq<char>| self.entries@.contains_key(task),
            |task: Seq<char>| self.entries@[task].updated_at,
        )
    }

    /// A store without any watermark.
    pub fn new() -> (store: Self)
        ensures
            store.wf(),
            store@ == Map::<Seq<char>, Seq<char>>::empty(),
            store.update_times() == Map::<Seq<char>, u64>::empty(),
    {
        let store = CursorStore { entries: TextMap::new() };
        assert(store@ =~= Map::<Seq<char>, Seq<char>>::empty());
        assert(store.update_times() =~= Map::<Seq<char>, u64>::empty());
        store
    }

    /// The position of a task, if it has one.
    pub fn get_ingestion_cursor(&self, task_name: &str) -> (position: Option<String>)
        requires
            self.wf(),
        ensures
            text_of(position) == if self@.contains_key(task_name@) {
                Some(self@[task_name@])
            } else {
                None
            },
    {
        match self.entries.get(task_name) {
            Some(entry) => Some(entry.last_cursor.clone()),
            None => None,
        }
    }

    /// The time at which the position of a task was last set.
    pub fn last_update(&self, task_name: &str) -> (time: Option<u64>)
        requires
            self.wf(),
        ensures
            time == if self.update_times().contains_key(task_name@) {
                Some(self.update_times()[task_name@])
            } else {
                None
            },
    {
        match self.entries.get(task_name) {
            Some(entry) => Some(entry.updated_at),
            None => None,
        }
    }

    /// Sets the position of a task, whether it had one or not. The store
    /// does not compare the new position with the old one.
    pub fn update_ingestion_cursor(&mut self, task_name: &str, last_cursor: &str, now: u64)
        requires
            old(self).wf(),
        ensures
            final(self).wf(),
            final(self)@ == old(self)@.insert(task_name@, last_cursor@),
            final(self).update_times() == old(self).update_times().insert(task_name@, now),
    {
        let entry = CursorEntry { last_cursor: last_cursor.to_owned(), updated_at: now };
        self.entries.insert(task_name.to_owned(), entry);
        assert(self@ =~= old(self)@.insert(task_name@, last_cursor@));
        assert(self.update_times() =~= old(self).update_times().insert(task_name@, now));
    }
}

} // verus!
