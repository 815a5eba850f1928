//! Properties that relate the operations of the service to the table that a
//! later listing shows.
use vstd::prelude::*;

use crate::service::ids_of;
use crate::store::StoreModel;
use crate::store::{completed, has_id, ids_ascending, lemma_without_none, marked_done, without};
use crate::text::{id_of, message_of};
use crate::todo::TodoModel;

verus! {

proof fn lemma_ids_of_single(arg: Seq<char>)
    ensures
        ids_of(seq![arg]) == (match id_of(arg) {
            Some(id) => seq![id],
            None => Seq::<i32>::empty(),
        }),
{
    assert(seq![arg].drop_last() =~= Seq::<Seq<char>>::empty());
    assert(ids_of(Seq::<Seq<char>>::empty()) == Seq::<i32>::empty());
    assert(seq![arg].last() == arg);
    if let Some(id) = id_of(arg) {
        assert(Seq::<i32>::empty().push(id) =~= seq![id]);
    }
}

proof fn lemma_without_leaves_none(rows: Seq<TodoModel>, ids: Seq<i32>)
    ensures
        forall|j: int|
            0 <= j < without(rows, ids).len() ==> !ids.contains(#[trigger] without(rows, ids)[j].id),
    decreases rows.len(),
{
    if rows.len() > 0 {
        let rest = without(rows.drop_last(), ids);
        lemma_without_leaves_none(rows.drop_last(), ids);
        if !ids.contains(rows.last().id) {
            assert forall|j: int| 0 <= j < rest.push(rows.last()).len() implies !ids.contains(
                #[trigger] rest.push(rows.last())[j].id,
            ) by {
                if j < rest.len() {
                    assert(rest.push(rows.last())[j] == rest[j]);
                }
            }
        }
    }
}

/// Adding a task keeps every message of the table non-empty: `add` inserts
/// only where the words trim to a non-empty message.
pub proof fn add_keeps_messages_non_empty(
    table: StoreModel,
    args: Seq<String>,
    created_at: u64,
)
    requires
        forall|i: int| 0 <= i < table.rows.len() ==> (#[trigger] table.rows[i]).message.len() > 0,
        message_of(args).len() > 0,
    ensures
        forall|i: int|
            0 <= i < table.inserted(message_of(args), false, created_at).rows.len() ==> (
            #[trigger] table.inserted(message_of(args), false, created_at).rows[i]).message.len()
                > 0,
{
    let after = table.inserted(message_of(args), false, created_at).rows;
    assert forall|i: int| 0 <= i < after.len() implies (#[trigger] after[i]).message.len() > 0 by {
        if i < table.rows.len() {
            assert(after[i] == table.rows[i]);
        }
    }
}

/// Marking an existing task done by its id sets that task's flag and leaves
/// every field of it and every other task as it was.
pub proof fn done_marks_that_task(rows: Seq<TodoModel>, arg: Seq<char>, i: int)
    requires
        ids_ascending(rows),
        0 <= i < rows.len(),
        id_of(arg) == Some(rows[i].id),
    ensures
        marked_done(rows, ids_of(seq![arg])).len() == rows.len(),
        marked_done(rows, ids_of(seq![arg]))[i] == completed(rows[i]),
        forall|j: int|
            0 <= j < rows.len() && j != i ==> #[trigger] marked_done(rows, ids_of(seq![arg]))[j]
                == rows[j],
{
    lemma_ids_of_single(arg);
    let id = rows[i].id;
    assert(seq![id][0] == id);
    assert forall|j: int| 0 <= j < rows.len() && j != i implies #[trigger] marked_done(
        rows,
        ids_of(seq![arg]),
    )[j] == rows[j] by {
        if j < i {
            assert(rows[j].id < rows[i].id);
        } else {
            assert(rows[i].id < rows[j].id);
        }
    }
}

/// Marking done an id that no task has changes no task.
pub proof fn done_unknown_id_changes_nothing(rows: Seq<TodoModel>, arg: Seq<char>)
    requires
        id_of(arg) is Some,
        !has_id(rows, id_of(arg)->0),
    ensures
        marked_done(rows, ids_of(seq![arg])) == rows,
{
    lemma_ids_of_single(arg);
    let id = id_of(arg)->0;
    assert(seq![id][0] == id);
    assert forall|j: int| 0 <= j < rows.len() implies #[trigger] marked_done(rows, ids_of(seq![arg]))[j]
        == rows[j] by {
        assert(rows[j].id != id);
    }
    assert(marked_done(rows, ids_of(seq![arg])) =~= rows);
}

/// Marking done a text that spells no id changes no task.
pub proof fn done_non_integer_changes_nothing(rows: Seq<TodoModel>, arg: Seq<char>)
    requires
        id_of(arg) is None,
    ensures
        marked_done(rows, ids_of(seq![arg])) == rows,
{
    lemma_ids_of_single(arg);
    assert(marked_done(rows, ids_of(seq![arg])) =~= rows);
}

/// After a task is deleted by its id no task has that id, and deleting the
/// same id again changes nothing.
pub proof fn delete_removes_and_repeats_harmlessly(rows: Seq<TodoModel>, arg: Seq<char>)
    requires
        id_of(arg) is Some,
    ensures
        !has_id(without(rows, ids_of(seq![arg])), id_of(arg)->0),
        without(without(rows, ids_of(seq![arg])), ids_of(seq![arg])) == without(
            rows,
            ids_of(seq![arg]),
        ),
{
    lemma_ids_of_single(arg);
    let id = id_of(arg)->0;
    let ids = ids_of(seq![arg]);
    assert(ids[0] == id);
    lemma_without_leaves_none(rows, ids);
    let after = without(rows, ids);
    if has_id(after, id) {
        let j = choose|j: int| 0 <= j < after.len() && #[trigger] after[j].id == id;
        assert(ids.contains(after[j].id));
    }
    lemma_without_none(after, ids);
}

} // verus!
