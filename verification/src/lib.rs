//! Enrichment of book titles and authors with catalog metadata: query
//! normalisation, catalog response reading, the resolution procedure, the
//! de-duplication cache and the idempotent store procedure.
use vstd::prelude::*;
use vstd::string::*;

pub mod book;
pub mod cache;
pub mod db;
pub mod json;
pub mod open_library_api;
pub mod pipeline;
pub mod query;
pub mod text;

use crate::book::{Book, BookView};
use crate::query::{contains_mark, fold_query, folded, has_mark, lemma_folded_idempotent};
use crate::text::{chars_of, string_of};

verus! {

/// The lower-case form that `str::to_lowercase` gives to a text.
pub uninterp spec fn lowercase_of(s: Seq<char>) -> Seq<char>;

/// `str::to_lowercase`: the lower-case equivalent of `s` as a new string,
/// a function of the characters of `s` alone.
#[verifier::external_body]
fn lowercase(s: &str) -> (r: String)
    ensures
        r@ == lowercase_of(s@),
{
    s.to_lowercase()
}

/// The canonical query fragment of a text: lower-cased, then folded.
pub open spec fn normalized(s: Seq<char>) -> Seq<char> {
    folded(lowercase_of(s))
}

/// The key under which a book is looked up, cached and searched for.
pub open spec fn book_key(book: BookView) -> Seq<char> {
    "title="@ + normalized(book.title) + "&author="@ + normalized(book.author)
}

/// Normalises a free text into a query fragment.
pub fn query_string(input: &str) -> (r: String)
    ensures
        r@ == normalized(input@),
{
    let lowered = lowercase(input);
    let chars = chars_of(lowered.as_str());
    let out = fold_query(&chars);
    string_of(&out)
}

/// The identity key of a book, made of its normalised title and author.
pub fn input_book_key(book: &Book) -> (r: String)
    ensures
        r@ == book_key(book@),
{
    let converted_title = query_string(book.title.as_str());
    let converted_author = query_string(book.author.as_str());
    let mut key = String::from_str("title=");
    key.append(converted_title.as_str());
    key.append("&author=");
    key.append(converted_author.as_str());
    key
}

/// Tells whether normalising the normal form of `input` once more leaves it
/// as it is. Where lower-casing leaves the normal form alone and no residue
/// of a quote remains in it, that is known without normalising again.
pub fn query_string_is_stable(input: &str) -> (r: bool)
    ensures
        r == (normalized(normalized(input@)) == normalized(input@)),
{
    let once = query_string(input);
    let lowered = lowercase(once.as_str());
    let chars = chars_of(once.as_str());
    if lowered == once && !contains_mark(&chars) {
        proof {
            lemma_normalize_idempotent(input@);
        }
        true
    } else {
        let twice = query_string(once.as_str());
        twice == once
    }
}

/// Normalising twice gives what normalising once gives, for every text whose
/// normal form lower-casing leaves alone and in which no residue of a quote
/// remains.
pub proof fn lemma_normalize_idempotent(x: Seq<char>)
    requires
        lowercase_of(normalized(x)) == normalized(x),
        !has_mark(normalized(x)),
    ensures
        normalized(normalized(x)) == normalized(x),
{
    lemma_folded_idempotent(lowercase_of(x));
}

} // verus!
