//! The catalog's three resources: the addresses to ask, and what is read out
//! of each answer.
use vstd::prelude::*;
use vstd::string::*;

use crate::book::{Book, BookView, DataBook, DataBookView};
use crate::json::{
    integer, items, json_document, json_integer, json_items, json_member, json_string,
    json_text, member, parse_document, string, text,
};
use crate::{book_key, input_book_key};

verus! {

/// One row of the input table. Only title and author are read; the other
/// columns are carried along untouched.
#[derive(Debug)]
pub struct InputBook {
    pub list06: String,
    pub list08: String,
    pub list10: String,
    pub list12: String,
    pub list18: String,
    pub randcol: String,
    pub number: String,
    pub title: String,
    pub author: String,
    pub list: String,
    pub orig_title: String,
    pub wilson: String,
    pub nation: String,
    pub period: String,
}

/// Anything that stands for one book.
pub trait BookKey {
    /// The book that `self` stands for.
    spec fn identity(&self) -> BookView;

    /// A fresh copy of the title and author.
    fn book(&self) -> (b: Book)
        ensures
            b@ == self.identity(),
    ;
}

impl BookKey for InputBook {
    open spec fn identity(&self) -> BookView {
        BookView { author: self.author@, title: self.title@ }
    }

    fn book(&self) -> (b: Book) {
        Book { title: self.title.clone(), author: self.author.clone() }
    }
}

/// What the search gave for a book. An empty `work_key` says that the
/// catalog has no match.
#[derive(Debug)]
pub struct Key {
    pub book: Book,
    pub work_key: String,
    pub edition_key: String,
}

/// The mathematical value of a [`Key`].
pub struct KeyView {
    pub book: BookView,
    pub work_key: Seq<char>,
    pub edition_key: Seq<char>,
}

impl View for Key {
    type V = KeyView;

    open spec fn view(&self) -> KeyView {
        KeyView { book: self.book@, work_key: self.work_key@, edition_key: self.edition_key@ }
    }
}

impl BookKey for Key {
    open spec fn identity(&self) -> BookView {
        self.book@
    }

    fn book(&self) -> (b: Book) {
        Book { title: self.book.title.clone(), author: self.book.author.clone() }
    }
}

/// Why a book could not be resolved.
#[derive(Debug, Clone, Copy, PartialEq, Eq, Structural)]
pub enum EnrichError {
    /// An answer was no JSON, or lacked a field that is not optional.
    MalformedResponse,
    /// The catalog could not be reached or did not answer.
    Transport,
}

/// The address of the search for a book.
pub open spec fn search_url_of(book: BookView) -> Seq<char> {
    "https://openlibrary.org/search.json?"@ + book_key(book) + "&fields=key,edition_key&limit=1"@
}

/// The address of the work document for a work key.
pub open spec fn work_url_of(work_key: Seq<char>) -> Seq<char> {
    "https://openlibrary.org"@ + work_key + ".json"@
}

/// The address of the edition document for an edition key.
pub open spec fn edition_url_of(edition_key: Seq<char>) -> Seq<char> {
    "https://openlibrary.org/books/"@ + edition_key + ".json?"@
}

/// The work key in the first search result: its `key`, which must be a string.
pub open spec fn work_key_of(first: serde_json::Value) -> Option<Seq<char>> {
    match json_member(first, "key"@) {
        None => None,
        Some(k) => json_string(k),
    }
}

/// The edition key in the first search result: empty where the result has no
/// `edition_key` array, else the array's first element, which must be a string.
pub open spec fn edition_key_of(first: serde_json::Value) -> Option<Seq<char>> {
    match json_member(first, "edition_key"@) {
        None => Some(Seq::empty()),
        Some(e) => match json_items(e) {
            None => Some(Seq::empty()),
            Some(editions) => if editions.len() == 0 {
                None
            } else {
                json_string(editions[0])
            },
        },
    }
}

/// The key that a search answer gives for `book`: the empty keys where the
/// result list `docs` is empty, the keys of the first result otherwise, and
/// an error where `docs` is no array or the first result is ill-formed.
pub open spec fn search_outcome(book: BookView, doc: serde_json::Value) -> Result<
    KeyView,
    EnrichError,
> {
    match json_member(doc, "docs"@) {
        None => Err(EnrichError::MalformedResponse),
        Some(d) => match json_items(d) {
            None => Err(EnrichError::MalformedResponse),
            Some(docs) => if docs.len() == 0 {
                Ok(KeyView { book, work_key: Seq::empty(), edition_key: Seq::empty() })
            } else {
                match (work_key_of(docs[0]), edition_key_of(docs[0])) {
                    (Some(w), Some(e)) => Ok(KeyView { book, work_key: w, edition_key: e }),
                    _ => Err(EnrichError::MalformedResponse),
                }
            },
        },
    }
}

/// The subjects that a work document gives: the JSON text of its `subjects`
/// member, and the empty text where it has none.
pub open spec fn subjects_of_work(doc: serde_json::Value) -> Seq<char> {
    match json_member(doc, "subjects"@) {
        None => Seq::empty(),
        Some(s) => json_text(s),
    }
}

/// The page count that an edition document gives, if it holds an integer
/// `number_of_pages`.
pub open spec fn pages_of_edition(doc: serde_json::Value) -> Option<i64> {
    match json_member(doc, "number_of_pages"@) {
        None => None,
        Some(n) => json_integer(n),
    }
}

/// What the text of a search answer gives for `book`.
pub open spec fn search_reading(book: BookView, body: Seq<char>) -> Result<KeyView, EnrichError> {
    match json_document(body) {
        None => Err(EnrichError::MalformedResponse),
        Some(doc) => search_outcome(book, doc),
    }
}

/// What the text of a work answer gives.
pub open spec fn work_reading(body: Seq<char>) -> Result<Seq<char>, EnrichError> {
    match json_document(body) {
        None => Err(EnrichError::MalformedResponse),
        Some(doc) => Ok(subjects_of_work(doc)),
    }
}

/// What the text of an edition answer gives.
pub open spec fn edition_reading(body: Seq<char>) -> Result<Option<i64>, EnrichError> {
    match json_document(body) {
        None => Err(EnrichError::MalformedResponse),
        Some(doc) => Ok(pages_of_edition(doc)),
    }
}

/// The mathematical value of the outcome of a search.
pub open spec fn key_result_view(r: Result<Key, EnrichError>) -> Result<KeyView, EnrichError> {
    match r {
        Ok(k) => Ok(k@),
        Err(e) => Err(e),
    }
}

/// The mathematical value of the outcome of reading a text.
pub open spec fn text_result_view(r: Result<String, EnrichError>) -> Result<
    Seq<char>,
    EnrichError,
> {
    match r {
        Ok(s) => Ok(s@),
        Err(e) => Err(e),
    }
}

/// Builds the address of the search for `book`.
pub fn search_url(book: &Book) -> (r: String)
    ensures
        r@ == search_url_of(book@),
{
    let key = input_book_key(book);
    let mut url = String::from_str("https://openlibrary.org/search.json?");
    url.append(key.as_str());
    url.append("&fields=key,edition_key&limit=1");
    url
}

/// Builds the address of a work document.
pub fn work_url(work_key: &str) -> (r: String)
    ensures
        r@ == work_url_of(work_key@),
{
    let mut url = String::from_str("https://openlibrary.org");
    url.append(work_key);
    url.append(".json");
    url
}

/// Builds the address of an edition document.
pub fn edition_url(edition_key: &str) -> (r: String)
    ensures
        r@ == edition_url_of(edition_key@),
{
    let mut url = String::from_str("https://openlibrary.org/books/");
    url.append(edition_key);
    url.append(".json?");
    url
}

/// Reads the work key out of the first search result.
fn first_work_key(first: &serde_json::Value) -> (r: Option<String>)
    ensures
        (match r {
            Some(s) => work_key_of(*first) == Some(s@),
            None => work_key_of(*first).is_none(),
        }),
{
    match member(first, "key") {
        None => None,
        Some(k) => match string(k) {
            None => None,
            Some(s) => Some(String::from_str(s)),
        },
    }
}

/// Reads the edition key out of the first search result.
fn first_edition_key(first: &serde_json::Value) -> (r: Option<String>)
    ensures
        (match r {
            Some(s) => edition_key_of(*first) == Some(s@),
            None => edition_key_of(*first).is_none(),
        }),
{
    match member(first, "edition_key") {
        None => Some(String::new()),
        Some(e) => match items(e) {
            None => Some(String::new()),
            Some(editions) => if editions.len() == 0 {
                None
            } else {
                match string(&editions[0]) {
                    None => None,
                    Some(s) => Some(String::from_str(s)),
                }
            },
        },
    }
}

/// Reads the catalog keys for `book` out of a parsed search answer.
pub fn key_from_search(book: Book, doc: &serde_json::Value) -> (r: Result<Key, EnrichError>)
    ensures
        key_result_view(r) == search_outcome(book@, *doc),
{
    let docs = match member(doc, "docs") {
        None => { return Err(EnrichError::MalformedResponse); },
        Some(d) => match items(d) {
            None => { return Err(EnrichError::MalformedResponse); },
            Some(docs) => docs,
        },
    };
    if docs.len() == 0 {
        return Ok(Key { book, work_key: String::new(), edition_key: String::new() });
    }
    let work_key = first_work_key(&docs[0]);
    let edition_key = first_edition_key(&docs[0]);
    match (work_key, edition_key) {
        (Some(w), Some(e)) => Ok(Key { book, work_key: w, edition_key: e }),
        _ => Err(EnrichError::MalformedResponse),
    }
}

/// Reads the subjects out of a parsed work answer.
pub fn subjects_from_work(doc: &serde_json::Value) -> (r: String)
    ensures
        r@ == subjects_of_work(*doc),
{
    match member(doc, "subjects") {
        None => String::new(),
        Some(s) => text(s),
    }
}

/// Reads the page count out of a parsed edition answer.
pub fn pages_from_edition(doc: &serde_json::Value) -> (r: Option<i64>)
    ensures
        r == pages_of_edition(*doc),
{
    match member(doc, "number_of_pages") {
        None => None,
        Some(n) => integer(n),
    }
}

/// Reads the catalog keys for `book` out of the text of a search answer.
pub fn read_search(book: Book, body: &str) -> (r: Result<Key, EnrichError>)
    ensures
        key_result_view(r) == search_reading(book@, body@),
{
    match parse_document(body) {
        Err(_) => Err(EnrichError::MalformedResponse),
        Ok(doc) => key_from_search(book, &doc),
    }
}

/// Reads the subjects out of the text of a work answer.
pub fn read_work(body: &str) -> (r: Result<String, EnrichError>)
    ensures
        text_result_view(r) == work_reading(body@),
{
    match parse_document(body) {
        Err(_) => Err(EnrichError::MalformedResponse),
        Ok(doc) => Ok(subjects_from_work(&doc)),
    }
}

/// Reads the page count out of the text of an edition answer.
pub fn read_edition(body: &str) -> (r: Result<Option<i64>, EnrichError>)
    ensures
        r == edition_reading(body@),
{
    match parse_document(body) {
        Err(_) => Err(EnrichError::MalformedResponse),
        Ok(doc) => Ok(pages_from_edition(&doc)),
    }
}

/// The request that is out while a book is being resolved, with what is known
/// of the book so far.
#[derive(Debug)]
pub enum Pending {
    /// The search for the book.
    Search { book: Book },
    /// The work document under the key that the search gave.
    Work { key: Key },
    /// The edition document, the subjects being known.
    Edition { key: Key, subjects: String },
}

/// The mathematical value of a [`Pending`].
pub enum PendingView {
    Search { book: BookView },
    Work { key: KeyView },
    Edition { key: KeyView, subjects: Seq<char> },
}

impl View for Pending {
    type V = PendingView;

    open spec fn view(&self) -> PendingView {
        match self {
            Pending::Search { book } => PendingView::Search { book: book@ },
            Pending::Work { key } => PendingView::Work { key: key@ },
            Pending::Edition { key, subjects } => PendingView::Edition {
                key: key@,
                subjects: subjects@,
            },
        }
    }
}

/// What comes next in resolving a book.
#[derive(Debug)]
pub enum Step {
    /// The document at `url` is to be fetched and handed back with `pending`.
    Fetch { pending: Pending, url: String },
    /// The book is resolved.
    Done(DataBook),
    /// The book cannot be resolved in this run.
    Failed(EnrichError),
}

/// The mathematical value of a [`Step`].
pub enum StepView {
    Fetch { pending: PendingView, url: Seq<char> },
    Done(DataBookView),
    Failed(EnrichError),
}

impl View for Step {
    type V = StepView;

    open spec fn view(&self) -> StepView {
        match self {
            Step::Fetch { pending, url } => StepView::Fetch { pending: pending@, url: url@ },
            Step::Done(record) => StepView::Done(record@),
            Step::Failed(e) => StepView::Failed(*e),
        }
    }
}

/// The record of a book that the catalog does not know: no subjects, no page
/// count, and the keys as the search gave them, the work key being empty.
pub open spec fn unmatched(key: KeyView) -> DataBookView {
    DataBookView {
        book: key.book,
        subjects: Seq::empty(),
        pages: None,
        open_work_key: key.work_key,
        open_edition_key: key.edition_key,
    }
}

/// The first step for a book: its search.
pub open spec fn first_step(book: BookView) -> StepView {
    StepView::Fetch { pending: PendingView::Search { book }, url: search_url_of(book) }
}

/// The step after the search: the end where it failed or found nothing, the
/// fetch of the work document otherwise.
pub open spec fn after_search(found: Result<KeyView, EnrichError>) -> StepView {
    match found {
        Err(e) => StepView::Failed(e),
        Ok(key) => if key.work_key.len() == 0 {
            StepView::Done(unmatched(key))
        } else {
            StepView::Fetch {
                pending: PendingView::Work { key },
                url: work_url_of(key.work_key),
            }
        },
    }
}

/// The step after the work document: the fetch of the edition document.
pub open spec fn after_work(key: KeyView, read: Result<Seq<char>, EnrichError>) -> StepView {
    match read {
        Err(e) => StepView::Failed(e),
        Ok(subjects) => StepView::Fetch {
            pending: PendingView::Edition { key, subjects },
            url: edition_url_of(key.edition_key),
        },
    }
}

/// The step after the edition document: the finished record.
pub open spec fn after_edition(
    key: KeyView,
    subjects: Seq<char>,
    read: Result<Option<i64>, EnrichError>,
) -> StepView {
    match read {
        Err(e) => StepView::Failed(e),
        Ok(pages) => StepView::Done(
            DataBookView {
                book: key.book,
                subjects,
                pages,
                open_work_key: key.work_key,
                open_edition_key: key.edition_key,
            },
        ),
    }
}

/// The step that follows when the fetch that was out came back with `reply`:
/// the text of the document, or nothing where the catalog was not reached.
pub open spec fn next_step(pending: PendingView, reply: Option<Seq<char>>) -> StepView {
    match reply {
        None => StepView::Failed(EnrichError::Transport),
        Some(body) => match pending {
            PendingView::Search { book } => after_search(search_reading(book, body)),
            PendingView::Work { key } => after_work(key, work_reading(body)),
            PendingView::Edition { key, subjects } => after_edition(
                key,
                subjects,
                edition_reading(body),
            ),
        },
    }
}

/// Decides what follows the search.
pub fn on_search(found: Result<Key, EnrichError>) -> (r: Step)
    ensures
        r@ == after_search(key_result_view(found)),
{
    match found {
        Err(e) => Step::Failed(e),
        Ok(key) => {
            if key.work_key.as_str().is_empty() {
                Step::Done(
                    DataBook {
                        book: key.book,
                        subjects: String::new(),
                        pages: None,
                        open_work_key: key.work_key,
                        open_edition_key: key.edition_key,
                    },
                )
            } else {
                let url = work_url(key.work_key.as_str());
                Step::Fetch { pending: Pending::Work { key }, url }
            }
        },
    }
}

/// Decides what follows the work document.
pub fn on_work(key: Key, read: Result<String, EnrichError>) -> (r: Step)
    ensures
        r@ == after_work(key@, text_result_view(read)),
{
    match read {
        Err(e) => Step::Failed(e),
        Ok(subjects) => {
            let url = edition_url(key.edition_key.as_str());
            Step::Fetch { pending: Pending::Edition { key, subjects }, url }
        },
    }
}

/// Decides what follows the edition document.
pub fn on_edition(key: Key, subjects: String, read: Result<Option<i64>, EnrichError>) -> (r:
    Step)
    ensures
        r@ == after_edition(key@, subjects@, read),
{
    match read {
        Err(e) => Step::Failed(e),
        Ok(pages) => Step::Done(
            DataBook {
                book: key.book,
                subjects,
                pages,
                open_work_key: key.work_key,
                open_edition_key: key.edition_key,
            },
        ),
    }
}

/// Begins to resolve the book of an input row: its search is to be fetched.
pub fn convert_input(input: &InputBook) -> (r: Step)
    ensures
        r@ == first_step(input.identity()),
{
    let book = input.book();
    let url = search_url(&book);
    Step::Fetch { pending: Pending::Search { book }, url }
}

/// Goes on resolving a book when the fetch that was out has come back:
/// `reply` is the text of the document, or `None` where the catalog was not
/// reached.
pub fn advance(pending: Pending, reply: Option<&str>) -> (r: Step)
    ensures
        r@ == next_step(
            pending@,
            match reply {
                Some(body) => Some(body@),
                None => None,
            },
        ),
{
    match reply {
        None => Step::Failed(EnrichError::Transport),
        Some(body) => match pending {
            Pending::Search { book } => on_search(read_search(book, body)),
            Pending::Work { key } => on_work(key, read_work(body)),
            Pending::Edition { key, subjects } => on_edition(key, subjects, read_edition(body)),
        },
    }
}

/// A search whose result list is empty ends the resolution at once: the
/// record has empty keys, no subjects and no page count, and nothing more is
/// fetched.
pub proof fn lemma_empty_search_is_unmatched(
    book: BookView,
    body: Seq<char>,
    doc: serde_json::Value,
    docs: serde_json::Value,
)
    requires
        json_document(body) == Some(doc),
        json_member(doc, "docs"@) == Some(docs),
        json_items(docs) == Some(Seq::<serde_json::Value>::empty()),
    ensures
        next_step(PendingView::Search { book }, Some(body)) == StepView::Done(
            DataBookView {
                book,
                subjects: Seq::empty(),
                pages: None,
                open_work_key: Seq::empty(),
                open_edition_key: Seq::empty(),
            },
        ),
{
}

} // verus!
