//! The cache of records that were resolved before, found by the key of
//! their book.
use vstd::prelude::*;

use crate::book::{Book, DataBook, DataBookView};
use crate::{book_key, input_book_key};

verus! {

/// The values of a sequence of records.
pub open spec fn record_views(records: Seq<DataBook>) -> Seq<DataBookView> {
    Seq::new(records.len(), |i: int| records[i]@)
}

/// The index of a list of records: each stands under the key of its book,
/// and of two records with one key the later one stays.
pub open spec fn indexed(records: Seq<DataBookView>) -> Map<Seq<char>, DataBookView>
    decreases records.len(),
{
    if records.len() == 0 {
        Map::empty()
    } else {
        indexed(records.drop_last()).insert(book_key(records.last().book), records.last())
    }
}

/// Records resolved before, each with the key of its book.
pub struct DedupCache {
    keys: Vec<String>,
    records: Vec<DataBook>,
}

impl View for DedupCache {
    type V = Map<Seq<char>, DataBookView>;

    closed spec fn view(&self) -> Map<Seq<char>, DataBookView> {
        indexed(record_views(self.records@))
    }
}

impl DedupCache {
    /// Every record has its key beside it.
    #[verifier::type_invariant]
    closed spec fn keyed(&self) -> bool {
        &&& self.keys.len() == self.records.len()
        &&& forall|i: int|
            0 <= i < self.keys.len() ==> (#[trigger] self.keys[i])@ == book_key(
                self.records[i]@.book,
            )
    }

    /// Indexes `records`, as they come, by the keys of their books.
    pub fn build(records: Vec<DataBook>) -> (r: DedupCache)
        ensures
            r@ == indexed(record_views(records@)),
    {
        let mut keys: Vec<String> = Vec::new();
        let mut i: usize = 0;
        while i < records.len()
            invariant
                i <= records.len(),
                keys.len() == i,
                forall|k: int|
                    0 <= k < i ==> (#[trigger] keys[k])@ == book_key(records[k]@.book),
            decreases records.len() - i,
        {
            keys.push(input_book_key(&records[i].book));
            i += 1;
        }
        DedupCache { keys, records }
    }

    /// The record that stands under `key`, if there is one.
    pub fn lookup(&self, key: &String) -> (r: Option<&DataBook>)
        ensures
            (match r {
                Some(record) => self@.contains_key(key@) && self@[key@] == record@,
                None => !self@.contains_key(key@),
            }),
    {
        proof {
            use_type_invariant(self);
        }
        let ghost all = record_views(self.records@);
        let mut i: usize = self.keys.len();
        while i > 0
            invariant
                i <= self.keys.len(),
                self.keys.len() == self.records.len(),
                all == record_views(self.records@),
                forall|k: int|
                    0 <= k < self.keys.len() ==> (#[trigger] self.keys[k])@ == book_key(
                        self.records[k]@.book,
                    ),
                forall|k: int| i <= k < self.keys.len() ==> (#[trigger] self.keys[k])@ != key@,
            decreases i,
        {
            i -= 1;
            if self.keys[i] == *key {
                proof {
                    assert forall|k: int| i < k < all.len() implies book_key(
                        (#[trigger] all[k]).book,
                    ) != key@ by {
                        assert(self.keys[k]@ != key@);
                    }
                    assert(book_key(all[i as int].book) == self.keys[i as int]@);
                    lemma_indexed_last(all, key@, i as int);
                }
                return Some(&self.records[i]);
            }
        }
        proof {
            assert forall|k: int| 0 <= k < all.len() implies book_key((#[trigger] all[k]).book)
                != key@ by {
                assert(self.keys[k]@ != key@);
            }
            lemma_indexed_last(all, key@, -1);
        }
        None
    }

    /// The record that was resolved before for `book`, if there is one.
    pub fn find(&self, book: &Book) -> (r: Option<&DataBook>)
        ensures
            (match r {
                Some(record) => self@.contains_key(book_key(book@)) && self@[book_key(book@)]
                    == record@,
                None => !self@.contains_key(book_key(book@)),
            }),
    {
        let key = input_book_key(book);
        self.lookup(&key)
    }
}

/// In the index of `records`, `key` leads to the last record whose book has
/// that key: the one at `last`, or none where `last` is -1.
proof fn lemma_indexed_last(records: Seq<DataBookView>, key: Seq<char>, last: int)
    requires
        -1 <= last < records.len(),
        last >= 0 ==> book_key(records[last].book) == key,
        forall|k: int| last < k < records.len() ==> book_key((#[trigger] records[k]).book) != key,
    ensures
        last >= 0 ==> indexed(records).contains_key(key) && indexed(records)[key]
            == records[last],
        last < 0 ==> !indexed(records).contains_key(key),
    decreases records.len(),
{
    if records.len() > 0 {
        let n = records.len() - 1;
        if last < n {
            assert(book_key(records[n].book) != key);
            lemma_indexed_last(records.drop_last(), key, last);
        }
    }
}

/// Every record that was indexed is found again under the key of its book,
/// itself or a later record with the same key.
pub proof fn lemma_indexed_contains(records: Seq<DataBookView>, k: int)
    requires
        0 <= k < records.len(),
    ensures
        indexed(records).contains_key(book_key(records[k].book)),
        book_key(indexed(records)[book_key(records[k].book)].book) == book_key(records[k].book),
    decreases records.len(),
{
    if k < records.len() - 1 {
        lemma_indexed_contains(records.drop_last(), k);
    }
}

} // verus!
