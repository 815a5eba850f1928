use vstd::prelude::*;

use crate::store::{marked_done, without, lemma_marked_done_push, lemma_without_push, TodoStore};
use crate::text::{build_message, id_of, message_of, parse_id, texts};
use crate::todo::{Todo, TodoError};

verus! {

/// The ids that the arguments spell, in their order; the others are left out.
pub open spec fn ids_of(args: Seq<Seq<char>>) -> Seq<i32>
    decreases args.len(),
{
    if args.len() == 0 {
        Seq::empty()
    } else {
        let rest = ids_of(args.drop_last());
        match id_of(args.last()) {
            Some(id) => rest.push(id),
            None => rest,
        }
    }
}

/// The arguments that spell no id, in their order.
pub open spec fn skipped_of(args: Seq<Seq<char>>) -> Seq<Seq<char>>
    decreases args.len(),
{
    if args.len() == 0 {
        Seq::empty()
    } else {
        let rest = skipped_of(args.drop_last());
        match id_of(args.last()) {
            Some(_) => rest,
            None => rest.push(args.last()),
        }
    }
}

/// A row to be inserted: its message, completion flag and creation time.
pub struct NewTodo {
    pub message: String,
    pub is_done: bool,
    pub created_at: u64,
}

/// The ids that a batch touches, and the arguments it skips.
pub struct IdBatch {
    pub ids: Vec<i32>,
    pub skipped: Vec<String>,
}

/// The operations of the task service.
pub struct TodoOptions;

impl TodoOptions {
    /// The row that `add` inserts: the words joined with spaces and trimmed,
    /// not done, created at `created_at`. Fails when there are no words, or
    /// when they trim to an empty message.
    pub fn new_todo(args: &[String], created_at: u64) -> (r: Result<NewTodo, TodoError>)
        ensures
            args@.len() == 0 || message_of(args@).len() == 0 ==> r == Err::<NewTodo, TodoError>(
                TodoError::InvalidArgument,
            ),
            args@.len() > 0 && message_of(args@).len() > 0 ==> r is Ok && r->Ok_0.message@
                == message_of(args@) && r->Ok_0.is_done == false && r->Ok_0.created_at
                == created_at,
    {
        if args.len() == 0 {
            return Err(TodoError::InvalidArgument);
        }
        let message = build_message(args);
        if message.as_str().is_empty() {
            return Err(TodoError::InvalidArgument);
        }
        Ok(NewTodo { message, is_done: false, created_at })
    }

    /// Reads the ids of a batch: the arguments that spell an id, and those
    /// that are skipped. Fails when there are no arguments.
    pub fn id_batch(args: &[String]) -> (r: Result<IdBatch, TodoError>)
        ensures
            args@.len() == 0 ==> r == Err::<IdBatch, TodoError>(TodoError::InvalidArgument),
            args@.len() > 0 ==> r is Ok && r->Ok_0.ids@ == ids_of(texts(args@))
                && texts(r->Ok_0.skipped@) == skipped_of(texts(args@)),
    {
        if args.len() == 0 {
            return Err(TodoError::InvalidArgument);
        }
        let mut ids: Vec<i32> = Vec::new();
        let mut skipped: Vec<String> = Vec::new();
        let mut i: usize = 0;
        while i < args.len()
            invariant
                i <= args@.len(),
                ids@ == ids_of(texts(args@).subrange(0, i as int)),
                texts(skipped@) == skipped_of(texts(args@).subrange(0, i as int)),
            decreases args@.len() - i,
        {
            let ghost done = texts(args@).subrange(0, i as int);
            let ghost next = texts(args@).subrange(0, i + 1);
            assert(next.drop_last() =~= done);
            assert(next.last() == args@[i as int]@);
            match parse_id(args[i].as_str()) {
                Ok(id) => {
                    ids.push(id);
                },
                Err(_) => {
                    let ghost before = skipped@;
                    skipped.push(args[i].clone());
                    assert(texts(skipped@) =~= texts(before).push(args@[i as int]@));
                },
            }
            i = i + 1;
        }
        assert(texts(args@).subrange(0, args@.len() as int) =~= texts(args@));
        Ok(IdBatch { ids, skipped })
    }

    /// Adds a task made of the words, created at `created_at`. Fails when
    /// there are no words or they trim to an empty message.
    pub fn add_todo(store: &mut TodoStore, args: &[String], created_at: u64) -> (r: Result<
        (),
        TodoError,
    >)
        requires
            old(store)@.wf(),
        ensures
            final(store)@.wf(),
            args@.len() == 0 || message_of(args@).len() == 0 ==> r == Err::<(), TodoError>(
                TodoError::InvalidArgument,
            ) && final(store)@ == old(store)@,
            args@.len() > 0 && message_of(args@).len() > 0 && old(store)@.next_id < i32::MAX ==> r is Ok
                && final(store)@ == old(store)@.inserted(message_of(args@), false, created_at),
            args@.len() > 0 && message_of(args@).len() > 0 && old(store)@.next_id == i32::MAX ==> r is Err
                && r->Err_0 is StorageError && final(store)@ == old(store)@,
    {
        let new = TodoOptions::new_todo(args, created_at)?;
        match store.insert(new.message, new.is_done, new.created_at) {
            Ok(_) => Ok(()),
            Err(e) => Err(e),
        }
    }

    /// Marks done every task whose id an argument spells; arguments that
    /// spell no id are skipped and handed back. Fails when there are no
    /// arguments.
    pub fn done_todo(store: &mut TodoStore, args: &[String]) -> (r: Result<Vec<String>, TodoError>)
        requires
            old(store)@.wf(),
        ensures
            final(store)@.wf(),
            args@.len() == 0 ==> r == Err::<Vec<String>, TodoError>(TodoError::InvalidArgument)
                && final(store)@ == old(store)@,
            args@.len() > 0 ==> r is Ok && texts(r->Ok_0@) == skipped_of(texts(args@))
                && final(store)@.rows == marked_done(old(store)@.rows, ids_of(texts(args@)))
                && final(store)@.next_id == old(store)@.next_id,
    {
        let batch = TodoOptions::id_batch(args)?;
        let ghost rows = store@.rows;
        let mut k: usize = 0;
        while k < batch.ids.len()
            invariant
                k <= batch.ids@.len(),
                store@.wf(),
                store@.rows == marked_done(rows, batch.ids@.subrange(0, k as int)),
                store@.next_id == old(store)@.next_id,
            decreases batch.ids@.len() - k,
        {
            let id = batch.ids[k];
            proof {
                lemma_marked_done_push(rows, batch.ids@.subrange(0, k as int), id);
                assert(batch.ids@.subrange(0, k as int).push(id) =~= batch.ids@.subrange(0, k + 1));
            }
            store.update_completed(id);
            k = k + 1;
        }
        assert(batch.ids@.subrange(0, k as int) =~= batch.ids@);
        Ok(batch.skipped)
    }

    /// Deletes every task whose id an argument spells; arguments that spell
    /// no id are skipped and handed back. Fails when there are no arguments.
    pub fn delete_todo(store: &mut TodoStore, args: &[String]) -> (r: Result<Vec<String>, TodoError>)
        requires
            old(store)@.wf(),
        ensures
            final(store)@.wf(),
            args@.len() == 0 ==> r == Err::<Vec<String>, TodoError>(TodoError::InvalidArgument)
                && final(store)@ == old(store)@,
            args@.len() > 0 ==> r is Ok && texts(r->Ok_0@) == skipped_of(texts(args@))
                && final(store)@.rows == without(old(store)@.rows, ids_of(texts(args@)))
                && final(store)@.next_id == old(store)@.next_id,
    {
        let batch = TodoOptions::id_batch(args)?;
        let ghost rows = store@.rows;
        assert(without(rows, Seq::<i32>::empty()) == rows) by {
            crate::store::lemma_without_none(rows, Seq::<i32>::empty());
        }
        assert(batch.ids@.subrange(0, 0) =~= Seq::<i32>::empty());
        let mut k: usize = 0;
        while k < batch.ids.len()
            invariant
                k <= batch.ids@.len(),
                store@.wf(),
                store@.rows == without(rows, batch.ids@.subrange(0, k as int)),
                store@.next_id == old(store)@.next_id,
            decreases batch.ids@.len() - k,
        {
            let id = batch.ids[k];
            proof {
                lemma_without_push(rows, batch.ids@.subrange(0, k as int), id);
                assert(batch.ids@.subrange(0, k as int).push(id) =~= batch.ids@.subrange(0, k + 1));
            }
            store.delete(id);
            k = k + 1;
        }
        assert(batch.ids@.subrange(0, k as int) =~= batch.ids@);
        Ok(batch.skipped)
    }

    /// All tasks, in their order. An empty table is listed as an empty
    /// sequence, not as a failure.
    pub fn todo_list(store: &TodoStore) -> (r: Result<Vec<Todo>, TodoError>)
        ensures
            r is Ok,
            r->Ok_0@.map_values(|t: Todo| t@) == store@.rows,
    {
        Ok(store.list_all())
    }
}

} // verus!
