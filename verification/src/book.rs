//! The identity of a book and the record that is stored for it.
use vstd::prelude::*;

verus! {

/// A title and author pair as it was read, never normalised.
#[derive(Debug)]
pub struct Book {
    pub author: String,
    pub title: String,
}

/// The mathematical value of a [`Book`].
pub struct BookView {
    pub author: Seq<char>,
    pub title: Seq<char>,
}

impl View for Book {
    type V = BookView;

    open spec fn view(&self) -> BookView {
        BookView { author: self.author@, title: self.title@ }
    }
}

impl Clone for Book {
    fn clone(&self) -> (r: Self)
        ensures
            r@ == self@,
    {
        Book { author: self.author.clone(), title: self.title.clone() }
    }
}

/// A book with what the catalog knows of it. An empty `open_work_key` says
/// that the catalog had no match.
#[derive(Debug)]
pub struct DataBook {
    pub book: Book,
    pub subjects: String,
    pub pages: Option<i64>,
    pub open_work_key: String,
    pub open_edition_key: String,
}

/// The mathematical value of a [`DataBook`].
pub struct DataBookView {
    pub book: BookView,
    pub subjects: Seq<char>,
    pub pages: Option<i64>,
    pub open_work_key: Seq<char>,
    pub open_edition_key: Seq<char>,
}

impl View for DataBook {
    type V = DataBookView;

    open spec fn view(&self) -> DataBookView {
        DataBookView {
            book: self.book@,
            subjects: self.subjects@,
            pages: self.pages,
            open_work_key: self.open_work_key@,
            open_edition_key: self.open_edition_key@,
        }
    }
}

impl Clone for DataBook {
    fn clone(&self) -> (r: Self)
        ensures
            r@ == self@,
    {
        DataBook {
            book: self.book.clone(),
            subjects: self.subjects.clone(),
            pages: self.pages,
            open_work_key: self.open_work_key.clone(),
            open_edition_key: self.open_edition_key.clone(),
        }
    }
}

} // verus!
