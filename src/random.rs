//! Random selection of a block of verses.

use rand::Rng;
use vstd::prelude::*;

use crate::bible::{
    passage_of, range_entry, shaped, verse_entry, Bible, BibleBook, BibleBookVerse,
    BibleRangeVerseResult, BibleSingleVerseResult, BibleVerseResult, Passage, RandomVerseOpts,
    VerseRange, OLD_TESTAMENT_BOOKS,
};

verus! {

/// The positions `[lo, hi)` of the books that `opts` draws from, in a corpus
/// of `n` books: all of them, the first `OLD_TESTAMENT_BOOKS` (or all, if
/// there are fewer), or the ones after those.
pub open spec fn partition(opts: RandomVerseOpts, n: int) -> (int, int) {
    let split = if n < OLD_TESTAMENT_BOOKS { n } else { OLD_TESTAMENT_BOOKS as int };
    match opts {
        RandomVerseOpts::All => (0, n),
        RandomVerseOpts::OldTestamentOnly => (0, split),
        RandomVerseOpts::NewTestamentOnly => (split, n),
    }
}

/// The entries of the verses from position `start`, at most `count` of them,
/// stopping at the end of the chapter.
pub open spec fn block(verses: Seq<BibleBookVerse>, start: int, count: int) -> Seq<
    (usize, Seq<char>),
> {
    let stop = if start + count > verses.len() { verses.len() as int } else { start + count };
    verses.subrange(start, stop).map_values(|v: BibleBookVerse| verse_entry(v))
}

/// The passage that book position `b`, chapter position `c` and verse position
/// `start` give for `count` verses; none where a position is out of bounds or
/// `count` is zero.
pub open spec fn block_passage(books: Seq<BibleBook>, b: int, c: int, start: int, count: int) -> Option<
    Passage,
> {
    if 0 <= b < books.len() && 0 <= c < books[b].chapters@.len() && 0 <= start
        < books[b].chapters@[c].verses@.len() && count > 0 {
        Some(
            Passage {
                book: books[b].name@,
                chapter: books[b].chapters@[c].number,
                verses: block(books[b].chapters@[c].verses@, start, count),
            },
        )
    } else {
        None
    }
}

/// Every book has a chapter and every chapter has a verse.
pub open spec fn populated(books: Seq<BibleBook>) -> bool {
    forall|b: int|
        0 <= b < books.len() ==> {
            &&& (#[trigger] books[b]).chapters@.len() > 0
            &&& forall|c: int|
                0 <= c < books[b].chapters@.len() ==> (#[trigger] books[b].chapters@[c]).verses@.len()
                    > 0
        }
}

/// What holds of every result of a random pick of `count` verses from the
/// books that `opts` admits: a result is the block that some book position
/// of that part, chapter position and verse position give, of the variant
/// that its size calls for; a pick of one verse gives the single-verse
/// variant; nothing comes for a count of zero or an empty part; something
/// comes whenever every book has a chapter and every chapter a verse.
pub open spec fn random_outcome(
    books: Seq<BibleBook>,
    opts: RandomVerseOpts,
    count: usize,
    r: Option<BibleVerseResult>,
) -> bool {
    let lo = partition(opts, books.len() as int).0;
    let hi = partition(opts, books.len() as int).1;
    &&& r matches Some(x) ==> exists|b: int, c: int, s: int|
        #![trigger block_passage(books, b, c, s, count as int)]
        lo <= b < hi && block_passage(books, b, c, s, count as int) == Some(x@)
    &&& shaped(r)
    &&& count == 1 ==> (r matches Some(x) ==> x is Single)
    &&& count == 0 ==> r is None
    &&& lo >= hi ==> r is None
    &&& populated(books) && count > 0 && lo < hi ==> r is Some
}

/// Relies on rand::Rng::gen_range on rand::thread_rng: a value drawn from
/// `0..bound`. It panics on an empty range, which `requires` leaves out.
#[verifier::external_body]
fn random_below(bound: usize) -> (r: usize)
    requires
        bound > 0,
    ensures
        r < bound,
{
    rand::thread_rng().gen_range(0..bound)
}

/// The positions `[lo, hi)` of the books that `opts` draws from, among `n`.
pub fn testament_bounds(opts: RandomVerseOpts, n: usize) -> (r: (usize, usize))
    ensures
        r.0 as int == partition(opts, n as int).0,
        r.1 as int == partition(opts, n as int).1,
{
    let split: usize = if n < OLD_TESTAMENT_BOOKS {
        n
    } else {
        OLD_TESTAMENT_BOOKS
    };
    match opts {
        RandomVerseOpts::All => (0, n),
        RandomVerseOpts::OldTestamentOnly => (0, split),
        RandomVerseOpts::NewTestamentOnly => (split, n),
    }
}

impl Bible {
    /// The block of at most `count` verses from verse position `start` of
    /// chapter position `chapter` of book position `book`; none where a
    /// position is out of bounds or `count` is zero.
    pub fn verse_block(&self, book: usize, chapter: usize, start: usize, count: usize) -> (r: Option<
        BibleVerseResult,
    >)
        ensures
            passage_of(r) == block_passage(
                self.books@,
                book as int,
                chapter as int,
                start as int,
                count as int,
            ),
            shaped(r),
    {
        if book >= self.books.len() || chapter >= self.books[book].chapters.len() || count == 0 {
            return None;
        }
        let bk = &self.books[book];
        let ch = &bk.chapters[chapter];
        let verses = &ch.verses;
        if start >= verses.len() {
            return None;
        }
        let stop: usize = if count > verses.len() - start {
            verses.len()
        } else {
            start + count
        };
        let ghost expected = block(verses@, start as int, count as int);
        if stop - start > 1 {
            let mut out: Vec<VerseRange> = Vec::new();
            let mut i: usize = start;
            while i < stop
                invariant
                    start <= i <= stop <= verses@.len(),
                    out@.map_values(|v: VerseRange| range_entry(v)) == verses@.subrange(
                        start as int,
                        i as int,
                    ).map_values(|v: BibleBookVerse| verse_entry(v)),
                decreases stop - i,
            {
                let ghost before = out@;
                out.push(VerseRange { number: verses[i].number, content: verses[i].content.clone() });
                proof {
                    assert(out@.map_values(|v: VerseRange| range_entry(v)) =~= before.map_values(
                        |v: VerseRange| range_entry(v),
                    ).push(verse_entry(verses@[i as int])));
                    assert(verses@.subrange(start as int, i + 1).map_values(
                        |v: BibleBookVerse| verse_entry(v),
                    ) =~= verses@.subrange(start as int, i as int).map_values(
                        |v: BibleBookVerse| verse_entry(v),
                    ).push(verse_entry(verses@[i as int])));
                }
                i = i + 1;
            }
            Some(
                BibleVerseResult::Range(
                    BibleRangeVerseResult { book: bk.name.clone(), chapter: ch.number, verses: out },
                ),
            )
        } else {
            let v = &verses[start];
            assert(expected =~= seq![verse_entry(verses@[start as int])]);
            Some(
                BibleVerseResult::Single(
                    BibleSingleVerseResult {
                        book: bk.name.clone(),
                        chapter: ch.number,
                        verse: v.number,
                        content: v.content.clone(),
                    },
                ),
            )
        }
    }

    /// Picks a book at random among those that `opts` admits, a chapter of it
    /// at random and a verse position of that chapter at random, and returns
    /// the block of at most `count` verses from there. None when `count` is
    /// zero, when `opts` admits no book, or when the pick lands on a book
    /// without chapters or a chapter without verses.
    pub fn random(&self, opts: RandomVerseOpts, count: usize) -> (r: Option<BibleVerseResult>)
        ensures
            random_outcome(self.books@, opts, count, r),
    {
        let (lo, hi) = testament_bounds(opts, self.books.len());
        if lo >= hi || count == 0 {
            return None;
        }
        let b = lo + random_below(hi - lo);
        let n_chapters = self.books[b].chapters.len();
        if n_chapters == 0 {
            return None;
        }
        let c = random_below(n_chapters);
        let n_verses = self.books[b].chapters[c].verses.len();
        if n_verses == 0 {
            return None;
        }
        let s = random_below(n_verses);
        let r = self.verse_block(b, c, s, count);
        assert(block_passage(self.books@, b as int, c as int, s as int, count as int) is Some);
        r
    }
}

} // verus!
