use next_book::book::{Book, DataBook};
use next_book::cache::DedupCache;
use next_book::db::{find_stored, insert_book, InsertPlan, Lookup};
use next_book::open_library_api::{
    advance, convert_input, on_edition, on_search, on_work, EnrichError, InputBook, Key, Pending,
    Step,
};
use next_book::pipeline::begin_row;

fn row(title: &str, author: &str) -> InputBook {
    InputBook {
        list06: String::new(),
        list08: String::new(),
        list10: String::new(),
        list12: String::new(),
        list18: String::new(),
        randcol: String::new(),
        number: String::new(),
        title: title.to_string(),
        author: author.to_string(),
        list: String::new(),
        orig_title: String::new(),
        wilson: String::new(),
        nation: String::new(),
        period: String::new(),
    }
}

struct Tables {
    books: Vec<(i64, String, String, Option<i64>, String, String)>,
    subjects: Vec<(i64, String)>,
}

fn lookup(tables: &Tables, book: &Book) -> Lookup {
    let rows: Vec<(i64, Book)> = tables
        .books
        .iter()
        .map(|b| (b.0, Book { title: b.1.clone(), author: b.2.clone() }))
        .collect();
    find_stored(&rows, book)
}

fn store(tables: &mut Tables, record: &DataBook) -> i64 {
    match insert_book(record, lookup(tables, &record.book)) {
        InsertPlan::Keep(id) => id,
        InsertPlan::Write { row, subjects } => {
            let id = tables.books.len() as i64 + 1;
            tables.books.push((id, row.title, row.author, row.pages, row.open_work_key, row.open_edition_key));
            for subject in subjects {
                tables.subjects.push((id, subject));
            }
            id
        }
        InsertPlan::Fail => panic!("lookup cannot fail here"),
    }
}

fn resolve(cache: &DedupCache, input: &InputBook, answers: &[(&str, &str)]) -> (DataBook, Vec<String>) {
    let mut asked = Vec::new();
    let mut step = begin_row(cache, input);
    loop {
        match step {
            Step::Done(record) => return (record, asked),
            Step::Failed(e) => panic!("failed: {:?}", e),
            Step::Fetch { pending, url } => {
                let body = answers.iter().find(|a| a.0 == url).map(|a| a.1);
                asked.push(url);
                step = advance(pending, body);
            }
        }
    }
}

const HOBBIT_SEARCH: &str =
    "https://openlibrary.org/search.json?title=the+hobbit&author=j.r.r.+tolkien&fields=key,edition_key&limit=1";

fn hobbit_answers() -> Vec<(&'static str, &'static str)> {
    vec![
        (HOBBIT_SEARCH, r#"{"docs":[{"key":"/works/OL12345W","edition_key":["OL6789M"]}]}"#),
        ("https://openlibrary.org/works/OL12345W.json", r#"{"subjects":["Fantasy","Fiction"]}"#),
        ("https://openlibrary.org/books/OL6789M.json?", r#"{"number_of_pages":310}"#),
    ]
}

#[test]
fn convert_input_begins_with_the_search() {
    match convert_input(&row("The Hobbit", "J.R.R. Tolkien")) {
        Step::Fetch { pending: Pending::Search { book }, url } => {
            assert_eq!(url, HOBBIT_SEARCH);
            assert_eq!(book.title, "The Hobbit");
            assert_eq!(book.author, "J.R.R. Tolkien");
        }
        other => panic!("unexpected step {:?}", other),
    }
}

#[test]
fn hobbit_is_resolved_and_stored() {
    let cache = DedupCache::build(vec![]);
    let answers = hobbit_answers();
    let (record, asked) = resolve(&cache, &row("The Hobbit", "J.R.R. Tolkien"), &answers);
    assert_eq!(record.book.title, "The Hobbit");
    assert_eq!(record.book.author, "J.R.R. Tolkien");
    assert_eq!(record.subjects, r#"["Fantasy","Fiction"]"#);
    assert_eq!(record.pages, Some(310));
    assert_eq!(record.open_work_key, "/works/OL12345W");
    assert_eq!(record.open_edition_key, "OL6789M");
    assert_eq!(asked.len(), 3);

    let mut tables = Tables { books: vec![], subjects: vec![] };
    let id = store(&mut tables, &record);
    assert_eq!(tables.books.len(), 1);
    assert_eq!(tables.books[0].3, Some(310));
    assert_eq!(tables.subjects, vec![(id, "Fantasy".to_string()), (id, "Fiction".to_string())]);
}

#[test]
fn unknown_tome_is_stored_without_match() {
    let cache = DedupCache::build(vec![]);
    let answers = vec![(
        "https://openlibrary.org/search.json?title=unknown+tome&author=nobody&fields=key,edition_key&limit=1",
        r#"{"numFound":0,"docs":[]}"#,
    )];
    let (record, asked) = resolve(&cache, &row("Unknown Tome", "Nobody"), &answers);
    assert_eq!(record.book.title, "Unknown Tome");
    assert_eq!(record.book.author, "Nobody");
    assert_eq!(record.subjects, "");
    assert_eq!(record.pages, None);
    assert_eq!(record.open_work_key, "");
    assert_eq!(record.open_edition_key, "");
    assert_eq!(asked.len(), 1);

    let mut tables = Tables { books: vec![], subjects: vec![] };
    store(&mut tables, &record);
    assert_eq!(tables.books.len(), 1);
    assert_eq!(tables.books[0].3, None);
    assert_eq!(tables.books[0].4, "");
    assert!(tables.subjects.is_empty());
}

#[test]
fn cached_book_is_not_asked_for() {
    let cached = DataBook {
        book: Book { title: "The Hobbit".to_string(), author: "J.R.R. Tolkien".to_string() },
        subjects: r#"["Cached"]"#.to_string(),
        pages: Some(99),
        open_work_key: "/works/C".to_string(),
        open_edition_key: "CE".to_string(),
    };
    let cache = DedupCache::build(vec![cached]);
    let (record, asked) = resolve(&cache, &row("the hobbit", "J.R.R. TOLKIEN"), &[]);
    assert!(asked.is_empty());
    assert_eq!(record.book.title, "The Hobbit");
    assert_eq!(record.subjects, r#"["Cached"]"#);
    assert_eq!(record.pages, Some(99));
    assert_eq!(record.open_work_key, "/works/C");
    assert_eq!(record.open_edition_key, "CE");
}

#[test]
fn running_twice_stores_nothing_twice() {
    let cache = DedupCache::build(vec![]);
    let answers = hobbit_answers();
    let mut tables = Tables { books: vec![], subjects: vec![] };
    let mut ids = Vec::new();
    for _ in 0..2 {
        for input in [row("The Hobbit", "J.R.R. Tolkien"), row("The Hobbit", "J.R.R. Tolkien")] {
            let (record, _) = resolve(&cache, &input, &answers);
            ids.push(store(&mut tables, &record));
        }
    }
    assert_eq!(ids, vec![1, 1, 1, 1]);
    assert_eq!(tables.books.len(), 1);
    assert_eq!(tables.subjects.len(), 2);
}

#[test]
fn stored_row_is_not_overwritten() {
    let mut tables = Tables { books: vec![], subjects: vec![] };
    let first = DataBook {
        book: Book { title: "T".to_string(), author: "A".to_string() },
        subjects: r#"["x"]"#.to_string(),
        pages: Some(1),
        open_work_key: "/works/1".to_string(),
        open_edition_key: "E1".to_string(),
    };
    let changed = DataBook {
        book: Book { title: "T".to_string(), author: "A".to_string() },
        subjects: r#"["y","z"]"#.to_string(),
        pages: Some(2),
        open_work_key: "/works/2".to_string(),
        open_edition_key: "E2".to_string(),
    };
    let id = store(&mut tables, &first);
    assert_eq!(store(&mut tables, &changed), id);
    assert_eq!(tables.books.len(), 1);
    assert_eq!(tables.books[0].3, Some(1));
    assert_eq!(tables.subjects, vec![(id, "x".to_string())]);
}

#[test]
fn unreachable_catalog_fails_the_row() {
    let pending = Pending::Search { book: Book { title: "T".to_string(), author: "A".to_string() } };
    assert!(matches!(advance(pending, None), Step::Failed(EnrichError::Transport)));
}

#[test]
fn malformed_search_fails_the_row() {
    let pending = Pending::Search { book: Book { title: "T".to_string(), author: "A".to_string() } };
    assert!(matches!(advance(pending, Some(r#"{"error":"x"}"#)), Step::Failed(EnrichError::MalformedResponse)));
}

#[test]
fn failed_detail_fetch_fails_the_row() {
    let key = Key {
        book: Book { title: "T".to_string(), author: "A".to_string() },
        work_key: "/works/W".to_string(),
        edition_key: "E".to_string(),
    };
    assert!(matches!(advance(Pending::Work { key }, Some("oops")), Step::Failed(EnrichError::MalformedResponse)));
    let key = Key {
        book: Book { title: "T".to_string(), author: "A".to_string() },
        work_key: "/works/W".to_string(),
        edition_key: "E".to_string(),
    };
    let pending = Pending::Edition { key, subjects: "[]".to_string() };
    assert!(matches!(advance(pending, None), Step::Failed(EnrichError::Transport)));
}

#[test]
fn on_search_with_a_match_asks_for_the_work() {
    let key = Key {
        book: Book { title: "T".to_string(), author: "A".to_string() },
        work_key: "/works/W".to_string(),
        edition_key: "".to_string(),
    };
    match on_search(Ok(key)) {
        Step::Fetch { pending: Pending::Work { key }, url } => {
            assert_eq!(url, "https://openlibrary.org/works/W.json");
            assert_eq!(key.work_key, "/works/W");
        }
        other => panic!("unexpected step {:?}", other),
    }
    assert!(matches!(on_search(Err(EnrichError::Transport)), Step::Failed(EnrichError::Transport)));
}

#[test]
fn on_work_asks_for_the_edition() {
    let key = Key {
        book: Book { title: "T".to_string(), author: "A".to_string() },
        work_key: "/works/W".to_string(),
        edition_key: "E9".to_string(),
    };
    match on_work(key, Ok(r#"["s"]"#.to_string())) {
        Step::Fetch { pending: Pending::Edition { key, subjects }, url } => {
            assert_eq!(url, "https://openlibrary.org/books/E9.json?");
            assert_eq!(subjects, r#"["s"]"#);
            assert_eq!(key.edition_key, "E9");
        }
        other => panic!("unexpected step {:?}", other),
    }
}

#[test]
fn on_edition_finishes_the_record() {
    let key = Key {
        book: Book { title: "T".to_string(), author: "A".to_string() },
        work_key: "/works/W".to_string(),
        edition_key: "E9".to_string(),
    };
    match on_edition(key, r#"["s"]"#.to_string(), Ok(None)) {
        Step::Done(record) => {
            assert_eq!(record.book.title, "T");
            assert_eq!(record.subjects, r#"["s"]"#);
            assert_eq!(record.pages, None);
            assert_eq!(record.open_work_key, "/works/W");
            assert_eq!(record.open_edition_key, "E9");
        }
        other => panic!("unexpected step {:?}", other),
    }
}

#[test]
fn book_in_another_case_is_not_stored_twice() {
    let mut tables = Tables { books: vec![], subjects: vec![] };
    let first = DataBook {
        book: Book { title: "The Hobbit".to_string(), author: "J.R.R. Tolkien".to_string() },
        subjects: r#"["Fantasy","Fiction"]"#.to_string(),
        pages: Some(310),
        open_work_key: "/works/OL12345W".to_string(),
        open_edition_key: "OL6789M".to_string(),
    };
    let again = DataBook {
        book: Book { title: "the hobbit".to_string(), author: "j.r.r. tolkien".to_string() },
        subjects: r#"["Other"]"#.to_string(),
        pages: Some(1),
        open_work_key: "/works/X".to_string(),
        open_edition_key: "X".to_string(),
    };
    let id = store(&mut tables, &first);
    assert_eq!(id, 1);
    assert_eq!(store(&mut tables, &again), 1);
    assert_eq!(tables.books.len(), 1);
    assert_eq!(tables.books[0].1, "The Hobbit");
    assert_eq!(tables.books[0].3, Some(310));
    assert_eq!(tables.subjects.len(), 2);
}

#[test]
fn book_with_other_apostrophes_is_not_stored_twice() {
    let mut tables = Tables { books: vec![], subjects: vec![] };
    let first = DataBook {
        book: Book { title: "Finnegan's Wake".to_string(), author: "James Joyce".to_string() },
        subjects: String::new(),
        pages: None,
        open_work_key: String::new(),
        open_edition_key: String::new(),
    };
    let again = DataBook {
        book: Book { title: "Finnegans Wake".to_string(), author: "JAMES JOYCE".to_string() },
        subjects: String::new(),
        pages: None,
        open_work_key: String::new(),
        open_edition_key: String::new(),
    };
    let id = store(&mut tables, &first);
    assert_eq!(store(&mut tables, &again), id);
    assert_eq!(tables.books.len(), 1);
}
