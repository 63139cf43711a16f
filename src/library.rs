//! A catalog of books, kept in the order in which they were added.

use vstd::prelude::*;

use crate::book::{Book, BookView};

verus! {

/// The books of `books` that are available in `year`, in their order.
pub open spec fn available_in(books: Seq<BookView>, year: u32) -> Seq<BookView> {
    books.filter(|b: BookView| b.is_available_at(year))
}

/// The positions in `books` of the books available in `year`, ascending.
spec fn available_positions(books: Seq<BookView>, year: u32) -> Seq<int>
    decreases books.len(),
{
    if books.len() == 0 {
        Seq::empty()
    } else {
        let rest = available_positions(books.drop_last(), year);
        if books.last().is_available_at(year) {
            rest.push(books.len() - 1)
        } else {
            rest
        }
    }
}

/// `r` is the books of `books` at the rising positions `pos`: each element of
/// `r` is the book at the matching position, and the positions increase.
pub open spec fn picked_in_order(books: Seq<BookView>, r: Seq<BookView>, pos: Seq<int>) -> bool {
    &&& pos.len() == r.len()
    &&& forall|k: int| 0 <= k < pos.len() ==> 0 <= #[trigger] pos[k] < books.len()
    &&& forall|k: int| 0 <= k < pos.len() ==> r[k] == books[#[trigger] pos[k]]
    &&& forall|k: int, l: int| 0 <= k < l < pos.len() ==> pos[k] < pos[l]
}

proof fn lemma_available_positions(books: Seq<BookView>, year: u32)
    ensures
        picked_in_order(books, available_in(books, year), available_positions(books, year)),
    decreases books.len(),
{
    reveal(Seq::filter);
    if books.len() > 0 {
        lemma_available_positions(books.drop_last(), year);
    }
}

/// The books available in a year come out in the order in which they stand
/// in the catalog: each is the book at some position, and the positions rise.
pub proof fn lemma_available_keeps_order(books: Seq<BookView>, year: u32)
    ensures
        exists|pos: Seq<int>| #[trigger] picked_in_order(books, available_in(books, year), pos),
{
    lemma_available_positions(books, year);
}

/// An ordered collection of books; books are only ever appended.
#[derive(Debug)]
pub struct TimeLibrary {
    books: Vec<Book>,
}

impl View for TimeLibrary {
    type V = Seq<BookView>;

    closed spec fn view(&self) -> Seq<BookView> {
        self.books@.map_values(|b: Book| b@)
    }
}

impl TimeLibrary {
    /// An empty catalog.
    pub fn new() -> (l: TimeLibrary)
        ensures
            l@ == Seq::<BookView>::empty(),
    {
        let l = TimeLibrary { books: Vec::new() };
        assert(l@ =~= Seq::<BookView>::empty());
        l
    }

    /// The number of books in the catalog.
    pub fn len(&self) -> (n: usize)
        ensures
            n == self@.len(),
    {
        self.books.len()
    }

    /// Appends `book` to the catalog.
    pub fn add_book(&mut self, book: Book)
        ensures
            final(self)@ == old(self)@.push(book@),
    {
        self.books.push(book);
        assert(final(self)@ =~= old(self)@.push(book@));
    }

    /// The book at position `index`, in order of addition.
    pub fn book(&self, index: usize) -> (b: &Book)
        requires
            index < self@.len(),
        ensures
            b@ == self@[index as int],
    {
        &self.books[index]
    }

    /// The book at position `index`, to check it out or return it.
    pub fn book_mut(&mut self, index: usize) -> (b: &mut Book)
        requires
            index < old(self)@.len(),
        ensures
            b@ == old(self)@[index as int],
            final(self)@ == old(self)@.update(index as int, final(b)@),
    {
        let b = &mut self.books[index];
        b
    }

    /// The books available in `year`, in the order in which they were added.
    pub fn available_books_in_year(&self, year: u32) -> (r: Vec<&Book>)
        ensures
            r@.map_values(|b: &Book| b@) == available_in(self@, year),
    {
        let mut r: Vec<&Book> = Vec::new();
        let mut i: usize = 0;
        while i < self.books.len()
            invariant
                i <= self.books@.len(),
                r@.map_values(|b: &Book| b@) == available_in(self@.take(i as int), year),
            decreases self.books@.len() - i,
        {
            let b = &self.books[i];
            proof {
                let pre = self@.take(i as int);
                let post = self@.take(i as int + 1);
                assert(post.drop_last() =~= pre);
                assert(post.last() == b@);
                reveal(Seq::filter);
            }
            if b.is_available_at(year) {
                r.push(b);
            }
            i += 1;
        }
        assert(self@.take(i as int) =~= self@);
        r
    }
}

} // verus!
