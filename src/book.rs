//! A book that exists over a span of years and can be checked out and
//! returned one year at a time.

use std::collections::HashMap;
use vstd::prelude::*;

use crate::timeline::Timeline;

verus! {

/// Which rule a checkout or a return broke.
#[derive(Clone, Copy, Debug, PartialEq, Eq, Structural)]
pub enum BorrowErrorKind {
    /// The year lies outside the book's span of existence.
    NotExistent,
    /// A checkout in a year where the book is not available.
    AlreadyCheckedOut,
    /// A return in a year where the book was not checked out.
    NotCheckedOut,
}

/// A refused checkout or return: the rule broken, the book's title and the
/// year asked for.
#[derive(Debug)]
pub struct BorrowError {
    pub kind: BorrowErrorKind,
    pub title: String,
    pub year: u32,
}

/// The mathematical model of a book.
pub struct BookView {
    pub title: Seq<char>,
    pub author: Seq<char>,
    pub timeline: Timeline,
    /// For each year with an entry, whether the last action in that year was
    /// a checkout (`true`) or a return (`false`).
    pub history: Map<u32, bool>,
}

impl BookView {
    pub open spec fn exists_at(self, year: u32) -> bool {
        self.timeline.contains(year)
    }

    pub open spec fn is_checked_out(self, year: u32) -> bool {
        self.history.contains_key(year) && self.history[year]
    }

    pub open spec fn is_available_at(self, year: u32) -> bool {
        self.exists_at(year) && !self.is_checked_out(year)
    }

    /// The same book with the entry for `year` set to `checked_out`.
    pub open spec fn record(self, year: u32, checked_out: bool) -> BookView {
        BookView {
            title: self.title,
            author: self.author,
            timeline: self.timeline,
            history: self.history.insert(year, checked_out),
        }
    }

    /// The rule that a checkout in `year` breaks, if any.
    pub open spec fn checkout_error(self, year: u32) -> Option<BorrowErrorKind> {
        if !self.exists_at(year) {
            Some(BorrowErrorKind::NotExistent)
        } else if !self.is_available_at(year) {
            Some(BorrowErrorKind::AlreadyCheckedOut)
        } else {
            None
        }
    }

    /// The rule that a return in `year` breaks, if any.
    pub open spec fn return_error(self, year: u32) -> Option<BorrowErrorKind> {
        if !self.exists_at(year) {
            Some(BorrowErrorKind::NotExistent)
        } else if self.is_available_at(year) {
            Some(BorrowErrorKind::NotCheckedOut)
        } else {
            None
        }
    }

    /// The book after a checkout in `year` is attempted.
    pub open spec fn after_checkout(self, year: u32) -> BookView {
        if self.checkout_error(year) is None {
            self.record(year, true)
        } else {
            self
        }
    }

    /// The book after a return in `year` is attempted.
    pub open spec fn after_return(self, year: u32) -> BookView {
        if self.return_error(year) is None {
            self.record(year, false)
        } else {
            self
        }
    }
}

/// A book with its span of existence and its checkout record.
#[derive(Debug)]
pub struct Book {
    title: String,
    author: String,
    timeline: Timeline,
    checkout_history: HashMap<u32, bool>,
}

impl View for Book {
    type V = BookView;

    closed spec fn view(&self) -> BookView {
        BookView {
            title: self.title@,
            author: self.author@,
            timeline: self.timeline,
            history: self.checkout_history@,
        }
    }
}

impl Book {
    /// A book that exists from `start_year` to `end_year` (for good when it is
    /// absent), never checked out.
    pub fn new(title: String, author: String, start_year: u32, end_year: Option<u32>) -> (b: Book)
        ensures
            b@ == (BookView {
                title: title@,
                author: author@,
                timeline: Timeline { start_year, end_year },
                history: Map::empty(),
            }),
    {
        Book {
            title,
            author,
            timeline: Timeline { start_year, end_year },
            checkout_history: HashMap::new(),
        }
    }

    pub fn title(&self) -> (r: &String)
        ensures
            r@ == self@.title,
    {
        &self.title
    }

    pub fn author(&self) -> (r: &String)
        ensures
            r@ == self@.author,
    {
        &self.author
    }

    pub fn get_timeline(&self) -> (r: &Timeline)
        ensures
            *r == self@.timeline,
    {
        &self.timeline
    }

    /// Whether the book exists in `year`.
    pub fn exists_at(&self, year: u32) -> (r: bool)
        ensures
            r == self@.exists_at(year),
    {
        self.timeline.exists_at(year)
    }

    /// Whether the book exists in `year` and is not checked out in it.
    pub fn is_available_at(&self, year: u32) -> (r: bool)
        ensures
            r == self@.is_available_at(year),
    {
        if !self.exists_at(year) {
            return false;
        }
        match self.checkout_history.get(&year) {
            Some(checked_out) => !*checked_out,
            None => true,
        }
    }

    fn error(&self, kind: BorrowErrorKind, year: u32) -> (e: BorrowError)
        ensures
            e.kind == kind,
            e.title@ == self@.title,
            e.year == year,
    {
        BorrowError { kind, title: self.title.clone(), year }
    }

    /// Returns the book in `year`. Fails, leaving the book as it was, where the
    /// book does not exist in `year` or is not checked out in it.
    pub fn return_at(&mut self, year: u32) -> (r: Result<(), BorrowError>)
        ensures
            final(self)@ == old(self)@.after_return(year),
            match r {
                Ok(()) => old(self)@.return_error(year) is None,
                Err(e) => {
                    &&& old(self)@.return_error(year) == Some(e.kind)
                    &&& e.title@ == old(self)@.title
                    &&& e.year == year
                },
            },
    {
        if !self.exists_at(year) {
            return Err(self.error(BorrowErrorKind::NotExistent, year));
        }
        if self.is_available_at(year) {
            return Err(self.error(BorrowErrorKind::NotCheckedOut, year));
        }
        self.checkout_history.insert(year, false);
        Ok(())
    }

    /// Checks the book out in `year`. Fails, leaving the book as it was, where
    /// the book does not exist in `year` or is already checked out in it.
    pub fn checkout_at(&mut self, year: u32) -> (r: Result<(), BorrowError>)
        ensures
            final(self)@ == old(self)@.after_checkout(year),
            match r {
                Ok(()) => old(self)@.checkout_error(year) is None,
                Err(e) => {
                    &&& old(self)@.checkout_error(year) == Some(e.kind)
                    &&& e.title@ == old(self)@.title
                    &&& e.year == year
                },
            },
    {
        if !self.exists_at(year) {
            return Err(self.error(BorrowErrorKind::NotExistent, year));
        }
        if !self.is_available_at(year) {
            return Err(self.error(BorrowErrorKind::AlreadyCheckedOut, year));
        }
        self.checkout_history.insert(year, true);
        Ok(())
    }
}

/// A year before the start of the span, or after its end, is one in which the
/// book does not exist, and both a checkout and a return in it are refused as
/// `NotExistent`.
pub proof fn lemma_outside_span_refused(b: BookView, year: u32)
    requires
        year < b.timeline.start_year || (b.timeline.end_year matches Some(end) && end < year),
    ensures
        !b.exists_at(year),
        b.checkout_error(year) == Some(BorrowErrorKind::NotExistent),
        b.return_error(year) == Some(BorrowErrorKind::NotExistent),
        b.after_checkout(year) == b,
        b.after_return(year) == b,
{
}

/// A book is available in every year of its span that has never been touched.
pub proof fn lemma_untouched_year_available(b: BookView, year: u32)
    requires
        b.exists_at(year),
        !b.history.contains_key(year),
    ensures
        b.is_available_at(year),
{
}

/// In a year in which the book exists, a checkout followed by a return leaves
/// it available, and that return succeeds.
pub proof fn lemma_checkout_then_return_available(b: BookView, year: u32)
    requires
        b.exists_at(year),
    ensures
        b.after_checkout(year).return_error(year) is None,
        b.after_checkout(year).after_return(year).is_available_at(year),
{
}

/// In a year in which the book exists, a second checkout in a row is refused
/// as `AlreadyCheckedOut`, and a second return in a row as `NotCheckedOut`.
pub proof fn lemma_repeat_refused(b: BookView, year: u32)
    requires
        b.exists_at(year),
    ensures
        b.after_checkout(year).checkout_error(year) == Some(BorrowErrorKind::AlreadyCheckedOut),
        b.after_return(year).return_error(year) == Some(BorrowErrorKind::NotCheckedOut),
{
}

/// Checkouts and returns in one year leave every other year as it was.
pub proof fn lemma_years_independent(b: BookView, year: u32, other: u32)
    requires
        year != other,
    ensures
        b.after_checkout(year).is_available_at(other) == b.is_available_at(other),
        b.after_return(year).is_available_at(other) == b.is_available_at(other),
{
}

} // verus!
