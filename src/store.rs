use vstd::prelude::*;

use crate::todo::{Todo, TodoError, TodoModel};

verus! {

/// The rows of the task table, kept in order of insertion.
pub struct TodoStore {
    rows: Vec<Todo>,
    next_id: i32,
}

/// The mathematical value of the task table: its rows, and the id that the
/// next insertion is given.
pub struct StoreModel {
    pub rows: Seq<TodoModel>,
    pub next_id: int,
}

/// The row with its completion flag set.
pub open spec fn completed(t: TodoModel) -> TodoModel {
    TodoModel { id: t.id, message: t.message, is_done: true, created_at: t.created_at }
}

/// The rows after every row whose id is among `ids` has been marked done.
pub open spec fn marked_done(rows: Seq<TodoModel>, ids: Seq<i32>) -> Seq<TodoModel> {
    rows.map_values(|t: TodoModel| if ids.contains(t.id) { completed(t) } else { t })
}

/// The rows whose id is not among `ids`, in their order.
pub open spec fn without(rows: Seq<TodoModel>, ids: Seq<i32>) -> Seq<TodoModel>
    decreases rows.len(),
{
    if rows.len() == 0 {
        rows
    } else {
        let rest = without(rows.drop_last(), ids);
        if ids.contains(rows.last().id) {
            rest
        } else {
            rest.push(rows.last())
        }
    }
}

/// Some row of `rows` has the id.
pub open spec fn has_id(rows: Seq<TodoModel>, id: i32) -> bool {
    exists|i: int| 0 <= i < rows.len() && #[trigger] rows[i].id == id
}

/// Ids grow strictly along the rows, so no two rows share one.
pub open spec fn ids_ascending(rows: Seq<TodoModel>) -> bool {
    forall|i: int, j: int| 0 <= i < j < rows.len() ==> #[trigger] rows[i].id < #[trigger] rows[j].id
}

impl StoreModel {
    /// Ids are positive, ascending along the rows, and below the next id.
    pub open spec fn wf(self) -> bool {
        &&& 1 <= self.next_id <= i32::MAX
        &&& ids_ascending(self.rows)
        &&& forall|i: int| 0 <= i < self.rows.len() ==> 1 <= #[trigger] self.rows[i].id < self.next_id
    }

    /// The table after a new row has been appended under the next id.
    pub open spec fn inserted(self, message: Seq<char>, is_done: bool, created_at: u64) -> StoreModel {
        StoreModel {
            rows: self.rows.push(
                TodoModel { id: self.next_id as i32, message, is_done, created_at },
            ),
            next_id: self.next_id + 1,
        }
    }
}

impl View for TodoStore {
    type V = StoreModel;

    closed spec fn view(&self) -> StoreModel {
        StoreModel { rows: self.rows@.map_values(|t: Todo| t@), next_id: self.next_id as int }
    }
}

pub proof fn lemma_without_none(rows: Seq<TodoModel>, ids: Seq<i32>)
    requires
        forall|j: int| 0 <= j < rows.len() ==> !ids.contains(#[trigger] rows[j].id),
    ensures
        without(rows, ids) == rows,
    decreases rows.len(),
{
    if rows.len() > 0 {
        lemma_without_none(rows.drop_last(), ids);
        assert(!ids.contains(rows[rows.len() - 1].id));
        assert(rows.drop_last().push(rows.last()) =~= rows);
    }
}

proof fn lemma_without_single(rows: Seq<TodoModel>, idx: int, id: i32)
    requires
        0 <= idx < rows.len(),
        rows[idx].id == id,
        forall|j: int| 0 <= j < rows.len() && j != idx ==> #[trigger] rows[j].id != id,
    ensures
        without(rows, seq![id]) == rows.remove(idx),
    decreases rows.len(),
{
    let init = rows.drop_last();
    assert(seq![id][0] == id);
    if idx == rows.len() - 1 {
        assert forall|j: int| 0 <= j < init.len() implies !seq![id].contains(#[trigger] init[j].id) by {
            assert(init[j] == rows[j]);
        }
        lemma_without_none(init, seq![id]);
        assert(rows.remove(idx) =~= init);
    } else {
        assert forall|j: int| 0 <= j < init.len() && j != idx implies #[trigger] init[j].id != id by {
            assert(init[j] == rows[j]);
        }
        lemma_without_single(init, idx, id);
        assert(!seq![id].contains(rows.last().id));
        assert(init.remove(idx).push(rows.last()) =~= rows.remove(idx));
    }
}

/// Deleting one more id after a batch is the batch with that id added.
pub proof fn lemma_without_push(rows: Seq<TodoModel>, ids: Seq<i32>, id: i32)
    ensures
        without(without(rows, ids), seq![id]) == without(rows, ids.push(id)),
    decreases rows.len(),
{
    assert(seq![id][0] == id);
    assert(ids.push(id)[ids.len() as int] == id);
    if rows.len() > 0 {
        let init = rows.drop_last();
        let last = rows.last();
        lemma_without_push(init, ids, id);
        let rest = without(init, ids);
        if !ids.contains(last.id) {
            assert(rest.push(last).drop_last() =~= rest);
            if last.id == id {
                assert(ids.push(id).contains(last.id));
            } else {
                assert(!ids.push(id).contains(last.id)) by {
                    if ids.push(id).contains(last.id) {
                        let k = choose|k: int| 0 <= k < ids.push(id).len() && ids.push(id)[k] == last.id;
                        assert(ids[k] == last.id);
                    }
                }
            }
        } else {
            let k = choose|k: int| 0 <= k < ids.len() && ids[k] == last.id;
            assert(ids.push(id)[k] == last.id);
        }
    }
}

pub proof fn lemma_marked_done_push(rows: Seq<TodoModel>, ids: Seq<i32>, id: i32)
    ensures
        marked_done(marked_done(rows, ids), seq![id]) == marked_done(rows, ids.push(id)),
{
    assert(seq![id][0] == id);
    assert(ids.push(id)[ids.len() as int] == id);
    assert forall|j: int| 0 <= j < rows.len() implies #[trigger] marked_done(
        marked_done(rows, ids),
        seq![id],
    )[j] == marked_done(rows, ids.push(id))[j] by {
        let t = rows[j];
        if ids.contains(t.id) {
            let k = choose|k: int| 0 <= k < ids.len() && ids[k] == t.id;
            assert(ids.push(id)[k] == t.id);
        } else if t.id != id {
            assert(!ids.push(id).contains(t.id)) by {
                if ids.push(id).contains(t.id) {
                    let k = choose|k: int| 0 <= k < ids.push(id).len() && ids.push(id)[k] == t.id;
                    assert(ids[k] == t.id);
                }
            }
        }
    }
    assert(marked_done(marked_done(rows, ids), seq![id]) =~= marked_done(rows, ids.push(id)));
}

impl TodoStore {
    /// An empty table whose first row gets id 1.
    pub fn new() -> (r: TodoStore)
        ensures
            r@.rows == Seq::<TodoModel>::empty(),
            r@.next_id == 1,
            r@.wf(),
    {
        let r = TodoStore { rows: Vec::new(), next_id: 1 };
        assert(r@.rows =~= Seq::<TodoModel>::empty());
        r
    }

    /// Appends a row under the next id and returns that id; fails once the
    /// ids of `i32` are used up.
    pub fn insert(&mut self, message: String, is_done: bool, created_at: u64) -> (r: Result<i32, TodoError>)
        requires
            old(self)@.wf(),
        ensures
            final(self)@.wf(),
            old(self)@.next_id < i32::MAX ==> r == Ok::<i32, TodoError>(old(self)@.next_id as i32)
                && final(self)@ == old(self)@.inserted(message@, is_done, created_at),
            old(self)@.next_id == i32::MAX ==> r is Err && r->Err_0 is StorageError
                && final(self)@ == old(self)@,
    {
        if self.next_id == i32::MAX {
            return Err(TodoError::StorageError(String::from_str("task ids are used up")));
        }
        let id = self.next_id;
        let ghost before = self@;
        self.rows.push(Todo { id, message, is_done, created_at });
        self.next_id = id + 1;
        assert(self@.rows =~= before.inserted(message@, is_done, created_at).rows);
        Ok(id)
    }

    /// All rows, in their order.
    pub fn list_all(&self) -> (r: Vec<Todo>)
        ensures
            r@.map_values(|t: Todo| t@) == self@.rows,
    {
        let mut out: Vec<Todo> = Vec::new();
        let mut i: usize = 0;
        while i < self.rows.len()
            invariant
                i <= self.rows@.len(),
                out@.len() == i,
                forall|j: int| 0 <= j < i ==> #[trigger] out@[j]@ == self.rows@[j]@,
            decreases self.rows@.len() - i,
        {
            out.push(self.rows[i].duplicate());
            i = i + 1;
        }
        assert(out@.map_values(|t: Todo| t@) =~= self@.rows);
        out
    }

    /// The index of the row with the id, if there is one.
    fn position(&self, id: i32) -> (r: Option<usize>)
        requires
            self@.wf(),
        ensures
            match r {
                Some(i) => i < self@.rows.len() && self@.rows[i as int].id == id,
                None => !has_id(self@.rows, id),
            },
    {
        let mut i: usize = 0;
        while i < self.rows.len()
            invariant
                i <= self.rows@.len(),
                forall|j: int| 0 <= j < i ==> #[trigger] self@.rows[j].id != id,
            decreases self.rows@.len() - i,
        {
            if self.rows[i].id == id {
                return Some(i);
            }
            i = i + 1;
        }
        None
    }

    /// Sets the completion flag of the row with the id; nothing changes where
    /// no row has it.
    pub fn update_completed(&mut self, id: i32)
        requires
            old(self)@.wf(),
        ensures
            final(self)@.wf(),
            final(self)@.rows == marked_done(old(self)@.rows, seq![id]),
            final(self)@.next_id == old(self)@.next_id,
    {
        let ghost before = self@.rows;
        assert(seq![id][0] == id);
        match self.position(id) {
            Some(i) => {
                let t = self.rows[i].duplicate();
                self.rows.set(
                    i,
                    Todo { id: t.id, message: t.message, is_done: true, created_at: t.created_at },
                );
                assert forall|j: int| 0 <= j < before.len() implies #[trigger] self@.rows[j]
                    == marked_done(before, seq![id])[j] by {
                    if j != i {
                        assert(before[j].id != id);
                    }
                }
                assert(self@.rows =~= marked_done(before, seq![id]));
            },
            None => {
                assert(self@.rows =~= marked_done(before, seq![id]));
            },
        }
    }

    /// Removes the row with the id; nothing changes where no row has it.
    pub fn delete(&mut self, id: i32)
        requires
            old(self)@.wf(),
        ensures
            final(self)@.wf(),
            final(self)@.rows == without(old(self)@.rows, seq![id]),
            final(self)@.next_id == old(self)@.next_id,
    {
        let ghost before = self@.rows;
        assert(seq![id][0] == id);
        match self.position(id) {
            Some(i) => {
                self.rows.remove(i);
                assert forall|j: int| 0 <= j < before.len() && j != i implies #[trigger] before[j].id
                    != id by {
                    if j < i {
                        assert(before[j].id < before[i as int].id);
                    } else {
                        assert(before[i as int].id < before[j].id);
                    }
                }
                proof {
                    lemma_without_single(before, i as int, id);
                }
                assert(self@.rows =~= before.remove(i as int));
            },
            None => {
                proof {
                    lemma_without_none(before, seq![id]);
                }
            },
        }
    }
}

} // verus!
