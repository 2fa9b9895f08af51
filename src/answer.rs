//! Answering a request against a corpus.

use vstd::prelude::*;

use crate::args::Request;
use crate::bible::{abbreviated, named, passage_of, resolve, shaped, Bible, BibleVerseResult};
use crate::random::random_outcome;

verus! {

impl Bible {
    /// Answers `request`: a random pick, or a lookup by abbreviation or by
    /// display name. None means that nothing was found.
    pub fn answer(&self, request: Request) -> (r: Option<BibleVerseResult>)
        ensures
            shaped(r),
            match request {
                Request::Random { opts, count } => random_outcome(self.books@, opts, count, r),
                Request::ByAbbreviation(a) => passage_of(r) == resolve(
                    self.books@,
                    abbreviated(a.book@),
                    a.chapter,
                    a.verse,
                ),
                Request::ByName { book, chapter, verse } => passage_of(r) == resolve(
                    self.books@,
                    named(book@),
                    chapter,
                    verse,
                ),
            },
    {
        match request {
            Request::Random { opts, count } => self.random(opts, count),
            Request::ByAbbreviation(a) => self.get_abbr(a),
            Request::ByName { book, chapter, verse } => self.get(book.as_str(), chapter, verse),
        }
    }
}

} // verus!
