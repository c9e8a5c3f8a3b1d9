//! One input row at a time: a record that was resolved before is taken from
//! the cache, and only a book that the cache does not hold is looked up.
use vstd::prelude::*;

use crate::book::DataBookView;
use crate::book_key;
use crate::cache::DedupCache;
use crate::db::{
    book_of, insert_plan, lemma_clash_is_held, row_of, InsertPlanView, Lookup, Store,
};
use crate::open_library_api::{
    convert_input, first_step, unmatched, BookKey, InputBook, KeyView, Step, StepView,
};

verus! {

/// The first step for an input row: done with the cached record where the
/// cache holds its book, else the search for it.
pub open spec fn row_step(cache: Map<Seq<char>, DataBookView>, input: InputBook) -> StepView {
    let key = book_key(input.identity());
    if cache.contains_key(key) {
        StepView::Done(cache[key])
    } else {
        first_step(input.identity())
    }
}

/// Begins the work on one input row. A row whose book the cache holds is
/// done at once, with the cached record, and nothing is fetched for it.
pub fn begin_row(cache: &DedupCache, input: &InputBook) -> (r: Step)
    ensures
        r@ == row_step(cache@, *input),
        cache@.contains_key(book_key(input.identity())) ==> r@ is Done,
{
    let book = input.book();
    match cache.find(&book) {
        Some(record) => Step::Done(record.clone()),
        None => convert_input(input),
    }
}

/// The record of a book that the catalog does not know is stored like any
/// other, so that the book is not asked for again: its row has no page count
/// and an empty work key, and no subject row comes with it.
pub proof fn lemma_unmatched_is_stored(key: KeyView, store: Store, new_id: i64)
    requires
        key.work_key.len() == 0,
        !store.holds(key.book),
    ensures
        insert_plan(unmatched(key), Lookup::Missing) == (InsertPlanView::Write {
            row: row_of(unmatched(key)),
            subjects: Seq::empty(),
        }),
        row_of(unmatched(key)).pages.is_none(),
        row_of(unmatched(key)).open_work_key.len() == 0,
        store.after(insert_plan(unmatched(key), Lookup::Missing), new_id).holds(key.book),
        store.after(insert_plan(unmatched(key), Lookup::Missing), new_id).subjects
            == store.subjects,
{
    let next = store.after(insert_plan(unmatched(key), Lookup::Missing), new_id);
    assert(book_of(row_of(unmatched(key))) == key.book);
    if store.clashes(row_of(unmatched(key))) {
        lemma_clash_is_held(store, row_of(unmatched(key)));
    }
    assert(next.holds_at(key.book, store.books.len() as int));
    assert(next.subjects =~= store.subjects);
}

} // verus!
