//! Storing a record once: which stored row is the row of a book, what is
//! written for a record, and a model of the two tables against which the
//! procedure is shown to be idempotent. A book is the same as a stored one
//! where the two have the same key, whatever their case and apostrophes.
use vstd::prelude::*;
use vstd::string::*;

use crate::book::{Book, BookView, DataBook, DataBookView};
use crate::json::{items, json_document, json_items, json_string, parse_document, string};
use crate::{book_key, input_book_key};

verus! {

/// What the store answered when asked for the row of a book.
#[derive(Debug, Clone, Copy, PartialEq, Eq, Structural)]
pub enum Lookup {
    /// The book has a row, with this id.
    Found(i64),
    /// The book has no row.
    Missing,
    /// The store could not answer.
    Failed,
}

/// Why, in the model of the store, a record could not be stored.
pub enum StoreError {
    /// The store could not say whether the book has a row.
    LookupFailed,
    /// The store refused the book row: its title and author have a row.
    ConstraintViolated,
}

/// The columns of a row of `books`, but for its id.
#[derive(Debug)]
pub struct BookRow {
    pub title: String,
    pub author: String,
    pub pages: Option<i64>,
    pub open_work_key: String,
    pub open_edition_key: String,
}

/// The mathematical value of a [`BookRow`].
pub struct BookRowView {
    pub title: Seq<char>,
    pub author: Seq<char>,
    pub pages: Option<i64>,
    pub open_work_key: Seq<char>,
    pub open_edition_key: Seq<char>,
}

impl View for BookRow {
    type V = BookRowView;

    open spec fn view(&self) -> BookRowView {
        BookRowView {
            title: self.title@,
            author: self.author@,
            pages: self.pages,
            open_work_key: self.open_work_key@,
            open_edition_key: self.open_edition_key@,
        }
    }
}

/// What is to be done to the store for one record.
#[derive(Debug)]
pub enum InsertPlan {
    /// The book is stored already under this id: nothing is written.
    Keep(i64),
    /// The book row is written first, then one subject row for each subject,
    /// each with the id that the book row got.
    Write { row: BookRow, subjects: Vec<String> },
    /// The lookup failed: nothing is written and the failure is reported.
    Fail,
}

/// The mathematical value of an [`InsertPlan`].
pub enum InsertPlanView {
    Keep(i64),
    Write { row: BookRowView, subjects: Seq<Seq<char>> },
    Fail,
}

/// The texts of a sequence of strings.
pub open spec fn texts(v: Seq<String>) -> Seq<Seq<char>> {
    Seq::new(v.len(), |i: int| v[i]@)
}

impl View for InsertPlan {
    type V = InsertPlanView;

    open spec fn view(&self) -> InsertPlanView {
        match self {
            InsertPlan::Keep(id) => InsertPlanView::Keep(*id),
            InsertPlan::Write { row, subjects } => InsertPlanView::Write {
                row: row@,
                subjects: texts(subjects@),
            },
            InsertPlan::Fail => InsertPlanView::Fail,
        }
    }
}

/// Whether every one of `items` is a JSON string.
pub open spec fn all_strings(items: Seq<serde_json::Value>) -> bool {
    forall|i: int| 0 <= i < items.len() ==> (#[trigger] json_string(items[i])).is_some()
}

/// The texts of `items`, each of which is a JSON string.
pub open spec fn strings_in(items: Seq<serde_json::Value>) -> Seq<Seq<char>> {
    Seq::new(items.len(), |i: int| json_string(items[i]).unwrap())
}

/// The list of strings that a JSON value is, if it is an array of strings.
pub open spec fn string_list_of(doc: serde_json::Value) -> Option<Seq<Seq<char>>> {
    match json_items(doc) {
        None => None,
        Some(items) => if all_strings(items) {
            Some(strings_in(items))
        } else {
            None
        },
    }
}

/// The subjects that a stored subjects text holds: its strings where it is a
/// JSON array of strings, none where it is empty or anything else.
pub open spec fn subjects_in(text: Seq<char>) -> Seq<Seq<char>> {
    if text.len() == 0 {
        Seq::empty()
    } else {
        match json_document(text) {
            None => Seq::empty(),
            Some(doc) => match string_list_of(doc) {
                None => Seq::empty(),
                Some(list) => list,
            },
        }
    }
}

/// The book row of a record. An unknown page count stays unknown.
pub open spec fn row_of(record: DataBookView) -> BookRowView {
    BookRowView {
        title: record.book.title,
        author: record.book.author,
        pages: record.pages,
        open_work_key: record.open_work_key,
        open_edition_key: record.open_edition_key,
    }
}

/// The book that a row is the row of.
pub open spec fn book_of(row: BookRowView) -> BookView {
    BookView { author: row.author, title: row.title }
}

/// What is done for a record: nothing where the lookup found its book or
/// failed, else its row and its subjects are written.
pub open spec fn insert_plan(record: DataBookView, found: Lookup) -> InsertPlanView {
    match found {
        Lookup::Found(id) => InsertPlanView::Keep(id),
        Lookup::Failed => InsertPlanView::Fail,
        Lookup::Missing => InsertPlanView::Write {
            row: row_of(record),
            subjects: subjects_in(record.subjects),
        },
    }
}

/// Reads a JSON value as a list of strings.
pub fn string_list(doc: &serde_json::Value) -> (r: Option<Vec<String>>)
    ensures
        (match r {
            Some(list) => string_list_of(*doc) == Some(texts(list@)),
            None => string_list_of(*doc).is_none(),
        }),
{
    let elements = match items(doc) {
        None => { return None; },
        Some(elements) => elements,
    };
    let mut out: Vec<String> = Vec::new();
    let mut i: usize = 0;
    while i < elements.len()
        invariant
            i <= elements.len(),
            json_items(*doc) == Some(elements@),
            out.len() == i,
            forall|k: int|
                0 <= k < i ==> (#[trigger] json_string(elements@[k])) == Some(out@[k]@),
        decreases elements.len() - i,
    {
        match string(&elements[i]) {
            None => {
                assert(!all_strings(elements@));
                return None;
            },
            Some(s) => {
                out.push(String::from_str(s));
            },
        }
        i += 1;
    }
    assert(all_strings(elements@));
    assert(texts(out@) =~= strings_in(elements@));
    Some(out)
}

/// The subjects held by the subjects text of a record.
pub fn subject_list(subjects: &str) -> (r: Vec<String>)
    ensures
        texts(r@) == subjects_in(subjects@),
{
    let list = if subjects.is_empty() {
        None
    } else {
        match parse_document(subjects) {
            Err(_) => None,
            Ok(doc) => string_list(&doc),
        }
    };
    match list {
        Some(list) => list,
        None => {
            let none: Vec<String> = Vec::new();
            assert(texts(none@) =~= Seq::<Seq<char>>::empty());
            none
        },
    }
}

/// Decides what is done to the store for `record`, given what the store
/// answered when asked for the row of its book.
pub fn insert_book(record: &DataBook, found: Lookup) -> (r: InsertPlan)
    ensures
        r@ == insert_plan(record@, found),
{
    match found {
        Lookup::Found(id) => InsertPlan::Keep(id),
        Lookup::Failed => InsertPlan::Fail,
        Lookup::Missing => InsertPlan::Write {
            row: BookRow {
                title: record.book.title.clone(),
                author: record.book.author.clone(),
                pages: record.pages,
                open_work_key: record.open_work_key.clone(),
                open_edition_key: record.open_edition_key.clone(),
            },
            subjects: subject_list(record.subjects.as_str()),
        },
    }
}

/// Whether two books are one: they have the same key.
pub open spec fn same_identity(a: BookView, b: BookView) -> bool {
    book_key(a) == book_key(b)
}

/// The values of the rows that the store handed over: ids and books.
pub open spec fn row_views(rows: Seq<(i64, Book)>) -> Seq<(i64, BookView)> {
    Seq::new(rows.len(), |i: int| (rows[i].0, rows[i].1@))
}

/// The answer that the rows of `books` give for `book`: the id of the first
/// row whose book is the same, or that there is none.
pub open spec fn found_among(rows: Seq<(i64, BookView)>, book: BookView) -> Lookup
    decreases rows.len(),
{
    if rows.len() == 0 {
        Lookup::Missing
    } else if same_identity(rows[0].1, book) {
        Lookup::Found(rows[0].0)
    } else {
        found_among(rows.skip(1), book)
    }
}

/// Finds the row of `book` among the rows of `books`, each given by its id
/// and its title and author as stored. The row of a book is the first one
/// whose title and author have the same key as the book's.
pub fn find_stored(rows: &Vec<(i64, Book)>, book: &Book) -> (r: Lookup)
    ensures
        r == found_among(row_views(rows@), book@),
        !(r is Failed),
{
    let key = input_book_key(book);
    let ghost all = row_views(rows@);
    let mut i: usize = 0;
    assert(all.skip(0) =~= all);
    while i < rows.len()
        invariant
            i <= rows.len(),
            all == row_views(rows@),
            key@ == book_key(book@),
            found_among(all, book@) == found_among(all.skip(i as int), book@),
        decreases rows.len() - i,
    {
        let ghost rest = all.skip(i as int);
        assert(rest[0] == (rows[i as int].0, rows[i as int].1@));
        let stored = input_book_key(&rows[i].1);
        if stored == key {
            return Lookup::Found(rows[i].0);
        }
        assert(rest.skip(1) =~= all.skip(i + 1));
        i += 1;
    }
    Lookup::Missing
}

/// What `found_among` finds: the id of a row of the same book before which
/// no row is of that book, or no row of that book at all.
pub proof fn lemma_found_among(rows: Seq<(i64, BookView)>, book: BookView)
    ensures
        (match found_among(rows, book) {
            Lookup::Found(id) => exists|i: int|
                0 <= i < rows.len() && (#[trigger] rows[i]).0 == id && same_identity(
                    rows[i].1,
                    book,
                ) && forall|j: int| 0 <= j < i ==> !same_identity((#[trigger] rows[j]).1, book),
            Lookup::Missing => forall|i: int|
                0 <= i < rows.len() ==> !same_identity((#[trigger] rows[i]).1, book),
            Lookup::Failed => false,
        }),
    decreases rows.len(),
{
    if rows.len() == 0 {
    } else if same_identity(rows[0].1, book) {
        assert(rows[0].0 == rows[0].0);
    } else {
        let rest = rows.skip(1);
        lemma_found_among(rest, book);
        match found_among(rest, book) {
            Lookup::Found(id) => {
                let i = choose|i: int|
                    0 <= i < rest.len() && (#[trigger] rest[i]).0 == id && same_identity(
                        rest[i].1,
                        book,
                    ) && forall|j: int|
                        0 <= j < i ==> !same_identity((#[trigger] rest[j]).1, book);
                assert(rows[i + 1] == rest[i]);
                assert forall|j: int| 0 <= j < i + 1 implies !same_identity(
                    (#[trigger] rows[j]).1,
                    book,
                ) by {
                    if j > 0 {
                        assert(rows[j] == rest[j - 1]);
                    }
                }
            },
            _ => {
                assert forall|i: int| 0 <= i < rows.len() implies !same_identity(
                    (#[trigger] rows[i]).1,
                    book,
                ) by {
                    if i > 0 {
                        assert(rows[i] == rest[i - 1]);
                    }
                }
            },
        }
    }
}

/// A row of `books` in the model of the store.
pub struct StoredBook {
    pub id: i64,
    pub row: BookRowView,
}

/// A row of `book_subjects` in the model of the store.
pub struct StoredSubject {
    pub book_id: i64,
    pub subject: Seq<char>,
}

/// The model of the store: the rows of its two tables, oldest first.
pub struct Store {
    pub books: Seq<StoredBook>,
    pub subjects: Seq<StoredSubject>,
}

impl Store {
    /// The rows of `books` as the store hands them over: ids and books.
    pub open spec fn identities(self) -> Seq<(i64, BookView)> {
        Seq::new(self.books.len(), |i: int| (self.books[i].id, book_of(self.books[i].row)))
    }

    /// Whether row `i` of `books` is the row of `book`: its title and author
    /// have the key of `book`.
    pub open spec fn holds_at(self, book: BookView, i: int) -> bool {
        0 <= i < self.books.len() && same_identity(book_of(self.books[i].row), book)
    }

    /// Whether `book` has a row.
    pub open spec fn holds(self, book: BookView) -> bool {
        exists|i: int| self.holds_at(book, i)
    }

    /// Whether row `i` of `books` has the very title and author of `row`.
    pub open spec fn clashes_at(self, row: BookRowView, i: int) -> bool {
        0 <= i < self.books.len() && self.books[i].row.title == row.title
            && self.books[i].row.author == row.author
    }

    /// Whether the store's own constraint refuses `row`: some row has the
    /// very same title and author. This is the last guard only; a book that
    /// differs from a stored one by case or apostrophes passes it.
    pub open spec fn clashes(self, row: BookRowView) -> bool {
        exists|i: int| self.clashes_at(row, i)
    }

    /// Whether some row of `books` has this id.
    pub open spec fn has_id(self, id: i64) -> bool {
        exists|i: int| 0 <= i < self.books.len() && (#[trigger] self.books[i]).id == id
    }

    /// No two rows of `books` are rows of one book.
    pub open spec fn unique(self) -> bool {
        forall|i: int, j: int|
            0 <= i < j < self.books.len() ==> !same_identity(
                book_of(self.books[i].row),
                book_of(self.books[j].row),
            )
    }

    /// Every subject row belongs to a book row.
    pub open spec fn linked(self) -> bool {
        forall|k: int|
            0 <= k < self.subjects.len() ==> self.has_id((#[trigger] self.subjects[k]).book_id)
    }

    /// Whether `found` is a true answer to the question for the row of `book`.
    pub open spec fn answers(self, book: BookView, found: Lookup) -> bool {
        match found {
            Lookup::Found(id) => exists|i: int|
                self.holds_at(book, i) && (#[trigger] self.books[i]).id == id,
            Lookup::Missing => !self.holds(book),
            Lookup::Failed => false,
        }
    }

    /// The store with one more book row, `row` under the id `new_id`, and
    /// after it one subject row for each of `subjects`, in their order.
    pub open spec fn with_rows(
        self,
        row: BookRowView,
        subjects: Seq<Seq<char>>,
        new_id: i64,
    ) -> Store {
        Store {
            books: self.books.push(StoredBook { id: new_id, row }),
            subjects: self.subjects + Seq::new(
                subjects.len(),
                |k: int| StoredSubject { book_id: new_id, subject: subjects[k] },
            ),
        }
    }

    /// The store after `plan` was carried out, where a written book row got
    /// the id `new_id`. The store refuses a book row that clashes with one
    /// it has, and then nothing is written.
    pub open spec fn after(self, plan: InsertPlanView, new_id: i64) -> Store {
        match plan {
            InsertPlanView::Write { row, subjects } => if self.clashes(row) {
                self
            } else {
                self.with_rows(row, subjects, new_id)
            },
            _ => self,
        }
    }

    /// What carrying out `plan` reports: the id of the book's row, or why
    /// there is none.
    pub open spec fn reports(self, plan: InsertPlanView, new_id: i64) -> Result<i64, StoreError> {
        match plan {
            InsertPlanView::Keep(id) => Ok(id),
            InsertPlanView::Write { row, subjects } => if self.clashes(row) {
                Err(StoreError::ConstraintViolated)
            } else {
                Ok(new_id)
            },
            InsertPlanView::Fail => Err(StoreError::LookupFailed),
        }
    }

    /// The answer that `find_stored` gives on the rows of this store.
    pub open spec fn lookup(self, book: BookView) -> Lookup {
        found_among(self.identities(), book)
    }

    /// The store after `record` was looked up and stored, where a written
    /// book row got the id `new_id`.
    pub open spec fn insert(self, record: DataBookView, new_id: i64) -> Store {
        self.after(insert_plan(record, self.lookup(record.book)), new_id)
    }

    /// The store after a run over `records`, in their order, where the book
    /// row of the record at `k`, if one was written, got the id `ids[k]`.
    pub open spec fn insert_all(self, records: Seq<DataBookView>, ids: Seq<i64>) -> Store
        recommends
            ids.len() == records.len(),
        decreases records.len(),
    {
        if records.len() == 0 {
            self
        } else {
            self.insert_all(records.drop_last(), ids.drop_last()).insert(
                records.last(),
                ids.last(),
            )
        }
    }
}

/// The answer that `find_stored` gives on the rows of a store is a true
/// answer: the id of a row of the same book, or `Missing` where no row is of
/// that book.
pub proof fn lemma_lookup_answers(store: Store, book: BookView)
    ensures
        store.answers(book, store.lookup(book)),
        store.holds(book) <==> store.lookup(book) is Found,
{
    let rows = store.identities();
    lemma_found_among(rows, book);
    match store.lookup(book) {
        Lookup::Found(id) => {
            let i = choose|i: int|
                0 <= i < rows.len() && (#[trigger] rows[i]).0 == id && same_identity(
                    rows[i].1,
                    book,
                );
            assert(store.holds_at(book, i) && store.books[i].id == id);
        },
        _ => {
            assert forall|i: int| !store.holds_at(book, i) by {
                if 0 <= i < rows.len() {
                    assert(!same_identity(rows[i].1, book));
                }
            }
        },
    }
}

/// A row that the store's own constraint refuses is the row of a stored
/// book: the same title and author have the same key.
pub proof fn lemma_clash_is_held(store: Store, row: BookRowView)
    requires
        store.clashes(row),
    ensures
        store.holds(book_of(row)),
{
    let i = choose|i: int| store.clashes_at(row, i);
    assert(book_of(store.books[i].row) == book_of(row));
    assert(store.holds_at(book_of(row), i));
}

/// For a record whose book is stored already, be it under another case or
/// with other apostrophes, nothing is written, whatever the record holds
/// otherwise: the store stays as it is and the id of the existing row is
/// reported.
pub proof fn lemma_stored_book_is_kept(
    store: Store,
    record: DataBookView,
    found: Lookup,
    new_id: i64,
)
    requires
        store.holds(record.book),
        store.answers(record.book, found),
    ensures
        store.after(insert_plan(record, found), new_id) == store,
        found is Found,
        store.reports(insert_plan(record, found), new_id) == Ok::<i64, StoreError>(
            found->Found_0,
        ),
        exists|i: int|
            store.holds_at(record.book, i) && (#[trigger] store.books[i]).id == found->Found_0,
{
}

/// After a true answer the store refuses nothing: a record whose book had no
/// row has its row written last, with one subject row for each of its
/// subjects, and the id of that row is reported.
pub proof fn lemma_true_answer_is_not_refused(
    store: Store,
    record: DataBookView,
    found: Lookup,
    new_id: i64,
)
    requires
        store.answers(record.book, found),
    ensures
        store.reports(insert_plan(record, found), new_id).is_ok(),
        found is Missing ==> store.reports(insert_plan(record, found), new_id) == Ok::<
            i64,
            StoreError,
        >(new_id),
        found is Missing ==> store.after(insert_plan(record, found), new_id) == store.with_rows(
            row_of(record),
            subjects_in(record.subjects),
            new_id,
        ),
{
    if found is Missing {
        assert(book_of(row_of(record)) == record.book);
        if store.clashes(row_of(record)) {
            lemma_clash_is_held(store, row_of(record));
        }
    }
}

/// Storing a record never gives two rows to one book, provided that the
/// answer `Missing` was true, and every subject row still belongs to a book
/// row.
pub proof fn lemma_insert_keeps_store_sound(
    store: Store,
    record: DataBookView,
    found: Lookup,
    new_id: i64,
)
    requires
        store.unique(),
        store.linked(),
        found is Missing ==> !store.holds(record.book),
    ensures
        store.after(insert_plan(record, found), new_id).unique(),
        store.after(insert_plan(record, found), new_id).linked(),
{
    let next = store.after(insert_plan(record, found), new_id);
    assert(book_of(row_of(record)) == record.book);
    if found is Missing && !store.clashes(row_of(record)) {
        let n = store.books.len() as int;
        assert forall|i: int, j: int| 0 <= i < j < next.books.len() implies !same_identity(
            book_of(next.books[i].row),
            book_of(next.books[j].row),
        ) by {
            if j == n {
                assert(!store.holds_at(record.book, i));
            }
        }
        assert(next.books[n].id == new_id);
        assert forall|k: int| 0 <= k < next.subjects.len() implies next.has_id(
            (#[trigger] next.subjects[k]).book_id,
        ) by {
            if k < store.subjects.len() {
                assert(next.subjects[k] == store.subjects[k]);
                let i = choose|i: int|
                    0 <= i < store.books.len() && (#[trigger] store.books[i]).id
                        == store.subjects[k].book_id;
                assert(next.books[i].id == store.subjects[k].book_id);
            } else {
                assert(next.subjects[k].book_id == new_id);
            }
        }
    }
}

/// Once a record was stored, its book has a row, and storing any record of
/// the same book again, however its title and author are written, writes
/// neither a book row nor a subject row.
pub proof fn lemma_insert_again_adds_nothing(
    store: Store,
    record: DataBookView,
    found: Lookup,
    new_id: i64,
    again: DataBookView,
    found_again: Lookup,
    other_id: i64,
)
    requires
        store.answers(record.book, found),
        same_identity(again.book, record.book),
        store.after(insert_plan(record, found), new_id).answers(again.book, found_again),
    ensures
        store.after(insert_plan(record, found), new_id).holds(record.book),
        store.after(insert_plan(record, found), new_id).after(
            insert_plan(again, found_again),
            other_id,
        ) == store.after(insert_plan(record, found), new_id),
{
    let next = store.after(insert_plan(record, found), new_id);
    lemma_true_answer_is_not_refused(store, record, found, new_id);
    assert(book_of(row_of(record)) == record.book);
    match found {
        Lookup::Found(id) => {
            let i = choose|i: int|
                store.holds_at(record.book, i) && (#[trigger] store.books[i]).id == id;
            assert(next.holds_at(record.book, i));
            assert(next.holds_at(again.book, i));
        },
        _ => {
            assert(next.holds_at(record.book, store.books.len() as int));
            assert(next.holds_at(again.book, store.books.len() as int));
        },
    }
}

/// Storing a record leaves every stored book stored, and stores its own.
proof fn lemma_insert_holds(store: Store, record: DataBookView, new_id: i64, book: BookView)
    requires
        store.holds(book) || same_identity(book, record.book),
    ensures
        store.insert(record, new_id).holds(book),
{
    let found = store.lookup(record.book);
    let next = store.insert(record, new_id);
    lemma_lookup_answers(store, record.book);
    lemma_true_answer_is_not_refused(store, record, found, new_id);
    assert(book_of(row_of(record)) == record.book);
    if store.holds(book) {
        let i = choose|i: int| store.holds_at(book, i);
        assert(next.holds_at(book, i));
    } else {
        match found {
            Lookup::Found(id) => {
                let i = choose|i: int|
                    store.holds_at(record.book, i) && (#[trigger] store.books[i]).id == id;
                assert(next.holds_at(book, i));
            },
            _ => {
                assert(next.holds_at(book, store.books.len() as int));
            },
        }
    }
}

/// After a run, the book of every record of the run is stored, and so is
/// every book that was stored before.
proof fn lemma_insert_all_holds(
    store: Store,
    records: Seq<DataBookView>,
    ids: Seq<i64>,
    book: BookView,
)
    requires
        ids.len() == records.len(),
        store.holds(book) || exists|k: int|
            0 <= k < records.len() && same_identity(book, (#[trigger] records[k]).book),
    ensures
        store.insert_all(records, ids).holds(book),
    decreases records.len(),
{
    if records.len() > 0 {
        let before = store.insert_all(records.drop_last(), ids.drop_last());
        if !same_identity(book, records.last().book) {
            if !store.holds(book) {
                let k = choose|k: int|
                    0 <= k < records.len() && same_identity(book, (#[trigger] records[k]).book);
                assert(records.drop_last()[k] == records[k]);
            }
            lemma_insert_all_holds(store, records.drop_last(), ids.drop_last(), book);
        }
        lemma_insert_holds(before, records.last(), ids.last(), book);
    }
}

/// A run over records whose books are all stored writes nothing.
proof fn lemma_insert_all_of_stored(store: Store, records: Seq<DataBookView>, ids: Seq<i64>)
    requires
        ids.len() == records.len(),
        forall|k: int| 0 <= k < records.len() ==> store.holds((#[trigger] records[k]).book),
    ensures
        store.insert_all(records, ids) == store,
    decreases records.len(),
{
    if records.len() > 0 {
        assert forall|k: int| 0 <= k < records.drop_last().len() implies store.holds(
            (#[trigger] records.drop_last()[k]).book,
        ) by {
            assert(records.drop_last()[k] == records[k]);
        }
        lemma_insert_all_of_stored(store, records.drop_last(), ids.drop_last());
        assert(store.holds(records[records.len() - 1].book));
        lemma_lookup_answers(store, records.last().book);
    }
}

/// A second run over the same books leaves the store as the first run left
/// it, however the titles and authors are written the second time, whatever
/// the records hold besides, and whatever ids the store would have handed
/// out: no book row and no subject row is written twice.
pub proof fn lemma_second_run_adds_nothing(
    store: Store,
    records: Seq<DataBookView>,
    ids: Seq<i64>,
    again: Seq<DataBookView>,
    other_ids: Seq<i64>,
)
    requires
        ids.len() == records.len(),
        again.len() == records.len(),
        other_ids.len() == records.len(),
        forall|k: int|
            0 <= k < records.len() ==> same_identity(again[k].book, (#[trigger] records[k]).book),
    ensures
        store.insert_all(records, ids).insert_all(again, other_ids) == store.insert_all(
            records,
            ids,
        ),
{
    let first = store.insert_all(records, ids);
    assert forall|k: int| 0 <= k < again.len() implies first.holds((#[trigger] again[k]).book) by {
        assert(same_identity(again[k].book, records[k].book));
        lemma_insert_all_holds(store, records, ids, again[k].book);
    }
    lemma_insert_all_of_stored(first, again, other_ids);
}

/// A run never gives two rows to one book, and leaves every subject row with
/// a book row.
pub proof fn lemma_run_keeps_store_sound(store: Store, records: Seq<DataBookView>, ids: Seq<i64>)
    requires
        ids.len() == records.len(),
        store.unique(),
        store.linked(),
    ensures
        store.insert_all(records, ids).unique(),
        store.insert_all(records, ids).linked(),
    decreases records.len(),
{
    if records.len() > 0 {
        let before = store.insert_all(records.drop_last(), ids.drop_last());
        lemma_run_keeps_store_sound(store, records.drop_last(), ids.drop_last());
        lemma_lookup_answers(before, records.last().book);
        lemma_insert_keeps_store_sound(
            before,
            records.last(),
            before.lookup(records.last().book),
            ids.last(),
        );
    }
}

} // verus!
