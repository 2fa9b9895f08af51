//! The corpus tree and the verse resolver.

use vstd::prelude::*;

verus! {

/// One verse: its number within the chapter and its text.
#[derive(Debug)]
pub struct BibleBookVerse {
    pub number: usize,
    pub content: String,
}

/// One chapter: its number within the book and its verses, in document order.
#[derive(Debug)]
pub struct BibleBookChapter {
    pub number: usize,
    pub verses: Vec<BibleBookVerse>,
}

/// One book: display name, short abbreviation, declared chapter count and chapters.
#[derive(Debug)]
pub struct BibleBook {
    pub name: String,
    pub abbrev: String,
    pub chapters_len: usize,
    pub chapters: Vec<BibleBookChapter>,
}

/// The whole corpus: its books in canonical order.
#[derive(Debug)]
pub struct Bible {
    pub books: Vec<BibleBook>,
}

/// Which part of the corpus a random pick is drawn from.
#[derive(Debug, Clone, Copy, PartialEq, Eq, Structural)]
pub enum RandomVerseOpts {
    All,
    OldTestamentOnly,
    NewTestamentOnly,
}

/// A verse selector: one verse number, or an inclusive range of numbers.
#[derive(Debug, Clone, Copy, PartialEq, Eq, Structural)]
pub enum VerseOpts {
    Single(usize),
    Range(usize, usize),
}

/// A verse of a multi-verse result.
#[derive(Debug)]
pub struct VerseRange {
    pub number: usize,
    pub content: String,
}

/// A result holding exactly one verse.
#[derive(Debug)]
pub struct BibleSingleVerseResult {
    pub book: String,
    pub chapter: usize,
    pub verse: usize,
    pub content: String,
}

/// A result holding two or more verses of one chapter.
#[derive(Debug)]
pub struct BibleRangeVerseResult {
    pub book: String,
    pub chapter: usize,
    pub verses: Vec<VerseRange>,
}

/// A resolved lookup.
#[derive(Debug)]
pub enum BibleVerseResult {
    Single(BibleSingleVerseResult),
    Range(BibleRangeVerseResult),
}

/// A compact locator: a book abbreviation, a chapter number and a verse selector.
#[derive(Debug)]
pub struct Abbreviation {
    pub book: String,
    pub chapter: usize,
    pub verse: VerseOpts,
}

/// The number of books, counted from the front of the canonical order,
/// that make up the Old Testament; the books after them make up the New.
pub const OLD_TESTAMENT_BOOKS: usize = 39;

/// What a result says: the book's name, the chapter number and the
/// (number, text) pairs of its verses in order.
pub struct Passage {
    pub book: Seq<char>,
    pub chapter: usize,
    pub verses: Seq<(usize, Seq<char>)>,
}

/// A verse of the corpus as a (number, text) pair.
pub open spec fn verse_entry(v: BibleBookVerse) -> (usize, Seq<char>) {
    (v.number, v.content@)
}

/// A verse of a result as a (number, text) pair.
pub open spec fn range_entry(v: VerseRange) -> (usize, Seq<char>) {
    (v.number, v.content@)
}

impl View for BibleVerseResult {
    type V = Passage;

    open spec fn view(&self) -> Passage {
        match self {
            BibleVerseResult::Single(s) => Passage {
                book: s.book@,
                chapter: s.chapter,
                verses: seq![(s.verse, s.content@)],
            },
            BibleVerseResult::Range(r) => Passage {
                book: r.book@,
                chapter: r.chapter,
                verses: r.verses@.map_values(|v: VerseRange| range_entry(v)),
            },
        }
    }
}

/// The passage of an optional result.
pub open spec fn passage_of(r: Option<BibleVerseResult>) -> Option<Passage> {
    match r {
        Some(x) => Some(x@),
        None => None,
    }
}

/// A result is the single-verse variant exactly when it holds one verse.
pub open spec fn shaped(r: Option<BibleVerseResult>) -> bool {
    r matches Some(x) ==> ((x is Single) <==> x@.verses.len() == 1)
}

/// Verse numbers are unique within the chapter.
pub open spec fn unique_verse_numbers(verses: Seq<BibleBookVerse>) -> bool {
    forall|i: int, j: int|
        0 <= i < j < verses.len() ==> #[trigger] verses[i].number != #[trigger] verses[j].number
}

/// Verse numbers rise strictly along the chapter.
pub open spec fn ascending(verses: Seq<BibleBookVerse>) -> bool {
    forall|i: int, j: int|
        0 <= i < j < verses.len() ==> #[trigger] verses[i].number < #[trigger] verses[j].number
}

impl Bible {
    /// The corpus invariants: abbreviations are unique across the corpus,
    /// chapter numbers within a book and verse numbers within a chapter.
    pub open spec fn well_formed(&self) -> bool {
        &&& forall|i: int, j: int|
            0 <= i < j < self.books@.len() ==> #[trigger] self.books@[i].abbrev@
                != #[trigger] self.books@[j].abbrev@
        &&& forall|b: int|
            0 <= b < self.books@.len() ==> {
                let chapters = (#[trigger] self.books@[b]).chapters@;
                &&& forall|i: int, j: int|
                    0 <= i < j < chapters.len() ==> #[trigger] chapters[i].number
                        != #[trigger] chapters[j].number
                &&& forall|c: int|
                    0 <= c < chapters.len() ==> unique_verse_numbers(#[trigger] chapters[c].verses@)
            }
    }
}

impl VerseOpts {
    /// Whether verse number `n` is selected.
    pub open spec fn admits(self, n: usize) -> bool {
        match self {
            VerseOpts::Single(v) => n == v,
            VerseOpts::Range(start, end) => start <= n && n <= end,
        }
    }
}

/// The verses of `verses` that `sel` admits, in their order, as (number, text).
pub open spec fn selected(verses: Seq<BibleBookVerse>, sel: VerseOpts) -> Seq<(usize, Seq<char>)>
    decreases verses.len(),
{
    if verses.len() == 0 {
        seq![]
    } else {
        let rest = selected(verses.drop_last(), sel);
        let v = verses.last();
        if sel.admits(v.number) {
            rest.push(verse_entry(v))
        } else {
            rest
        }
    }
}

/// `i` is the first position of `s` whose element satisfies `p`.
pub open spec fn is_first<T>(s: Seq<T>, p: spec_fn(T) -> bool, i: int) -> bool {
    &&& 0 <= i < s.len()
    &&& p(s[i])
    &&& forall|j: int| 0 <= j < i ==> !p(#[trigger] s[j])
}

/// The first position of `s` whose element satisfies `p`, if any.
pub open spec fn first_index<T>(s: Seq<T>, p: spec_fn(T) -> bool) -> Option<int> {
    if exists|i: int| is_first(s, p, i) {
        Some(choose|i: int| is_first(s, p, i))
    } else {
        None
    }
}

/// Books whose display name is `name`.
pub open spec fn named(name: Seq<char>) -> spec_fn(BibleBook) -> bool {
    |b: BibleBook| b.name@ == name
}

/// Books whose abbreviation is `abbrev`.
pub open spec fn abbreviated(abbrev: Seq<char>) -> spec_fn(BibleBook) -> bool {
    |b: BibleBook| b.abbrev@ == abbrev
}

/// Chapters numbered `n`.
pub open spec fn numbered(n: usize) -> spec_fn(BibleBookChapter) -> bool {
    |c: BibleBookChapter| c.number == n
}

/// The passage that chapter `chapter` of `book` yields under `sel`.
pub open spec fn resolve_in_book(book: BibleBook, chapter: usize, sel: VerseOpts) -> Option<Passage> {
    match first_index(book.chapters@, numbered(chapter)) {
        None => None,
        Some(c) => {
            let vs = selected(book.chapters@[c].verses@, sel);
            if vs.len() == 0 {
                None
            } else {
                Some(Passage { book: book.name@, chapter: book.chapters@[c].number, verses: vs })
            }
        },
    }
}

/// The passage that the first book satisfying `pick` yields for `chapter` and `sel`.
pub open spec fn resolve(
    books: Seq<BibleBook>,
    pick: spec_fn(BibleBook) -> bool,
    chapter: usize,
    sel: VerseOpts,
) -> Option<Passage> {
    match first_index(books, pick) {
        None => None,
        Some(b) => resolve_in_book(books[b], chapter, sel),
    }
}

/// A position that is first to satisfy `p` is the one `first_index` names.
pub proof fn lemma_first_index<T>(s: Seq<T>, p: spec_fn(T) -> bool, i: int)
    requires
        is_first(s, p, i),
    ensures
        first_index(s, p) == Some(i),
{
    let k = choose|k: int| is_first(s, p, k);
    assert(is_first(s, p, k));
    if k < i {
        assert(!p(s[k]));
    } else if i < k {
        assert(!p(s[i]));
    }
}

proof fn lemma_no_first<T>(s: Seq<T>, p: spec_fn(T) -> bool)
    requires
        forall|j: int| 0 <= j < s.len() ==> !p(#[trigger] s[j]),
    ensures
        first_index(s, p) is None,
{
    if exists|i: int| is_first(s, p, i) {
        let i = choose|i: int| is_first(s, p, i);
        assert(p(s[i]));
    }
}

/// The verses of `verses` that `sel` admits, as result entries.
fn collect_selected(verses: &Vec<BibleBookVerse>, sel: VerseOpts) -> (out: Vec<VerseRange>)
    ensures
        out@.map_values(|v: VerseRange| range_entry(v)) == selected(verses@, sel),
{
    let mut out: Vec<VerseRange> = Vec::new();
    let mut i: usize = 0;
    while i < verses.len()
        invariant
            i <= verses.len(),
            out@.map_values(|v: VerseRange| range_entry(v)) == selected(verses@.take(i as int), sel),
        decreases verses.len() - i,
    {
        let v = &verses[i];
        proof {
            assert(verses@.take(i + 1).drop_last() =~= verses@.take(i as int));
            assert(verses@.take(i + 1).last() == verses@[i as int]);
        }
        if sel.admits_exec(v.number) {
            let ghost before = out@;
            out.push(VerseRange { number: v.number, content: v.content.clone() });
            proof {
                assert(out@.map_values(|v: VerseRange| range_entry(v)) =~= before.map_values(
                    |v: VerseRange| range_entry(v),
                ).push(verse_entry(verses@[i as int])));
            }
        }
        i = i + 1;
    }
    assert(verses@.take(verses@.len() as int) =~= verses@);
    out
}

impl VerseOpts {
    /// Whether verse number `n` is selected.
    pub fn admits_exec(&self, n: usize) -> (r: bool)
        ensures
            r == self.admits(n),
    {
        match self {
            VerseOpts::Single(v) => n == *v,
            VerseOpts::Range(start, end) => *start <= n && n <= *end,
        }
    }
}

/// Packs the entries of one chapter into a result: none for no entry, the
/// single-verse variant for one, the range variant for more.
fn pack_result(book: &String, chapter: usize, entries: Vec<VerseRange>) -> (r: Option<
    BibleVerseResult,
>)
    ensures
        entries@.len() == 0 ==> r is None,
        entries@.len() > 0 ==> passage_of(r) == Some(
            Passage {
                book: book@,
                chapter,
                verses: entries@.map_values(|v: VerseRange| range_entry(v)),
            },
        ),
        shaped(r),
{
    let mut entries = entries;
    if entries.len() > 1 {
        let r = BibleVerseResult::Range(
            BibleRangeVerseResult { book: book.clone(), chapter, verses: entries },
        );
        Some(r)
    } else if entries.len() == 1 {
        let ghost before = entries@;
        let v = entries.pop().unwrap();
        proof {
            assert(before.map_values(|v: VerseRange| range_entry(v)) =~= seq![
                (v.number, v.content@),
            ]);
        }
        Some(
            BibleVerseResult::Single(
                BibleSingleVerseResult {
                    book: book.clone(),
                    chapter,
                    verse: v.number,
                    content: v.content,
                },
            ),
        )
    } else {
        None
    }
}

/// Looks up chapter `chapter` of `book` and the verses that `sel` admits in it.
fn lookup_in_book(book: &BibleBook, chapter: usize, sel: VerseOpts) -> (r: Option<
    BibleVerseResult,
>)
    ensures
        passage_of(r) == resolve_in_book(*book, chapter, sel),
        shaped(r),
{
    let mut c: usize = 0;
    while c < book.chapters.len()
        invariant
            c <= book.chapters.len(),
            forall|j: int| 0 <= j < c ==> !numbered(chapter)(#[trigger] book.chapters@[j]),
        decreases book.chapters.len() - c,
    {
        if book.chapters[c].number == chapter {
            proof {
                lemma_first_index(book.chapters@, numbered(chapter), c as int);
            }
            let entries = collect_selected(&book.chapters[c].verses, sel);
            return pack_result(&book.name, book.chapters[c].number, entries);
        }
        c = c + 1;
    }
    proof {
        lemma_no_first(book.chapters@, numbered(chapter));
    }
    None
}

impl Bible {
    /// Resolves `verse` in chapter `chapter` of the first book whose display
    /// name is `book_name`. None when no such book or chapter exists, or no
    /// verse of the chapter is selected.
    pub fn get(&self, book_name: &str, chapter: usize, verse: VerseOpts) -> (r: Option<
        BibleVerseResult,
    >)
        ensures
            passage_of(r) == resolve(self.books@, named(book_name@), chapter, verse),
            shaped(r),
    {
        let key = book_name.to_owned();
        let mut b: usize = 0;
        while b < self.books.len()
            invariant
                b <= self.books.len(),
                key@ == book_name@,
                forall|j: int| 0 <= j < b ==> !named(book_name@)(#[trigger] self.books@[j]),
            decreases self.books.len() - b,
        {
            if self.books[b].name == key {
                proof {
                    lemma_first_index(self.books@, named(book_name@), b as int);
                }
                return lookup_in_book(&self.books[b], chapter, verse);
            }
            b = b + 1;
        }
        proof {
            lemma_no_first(self.books@, named(book_name@));
        }
        None
    }

    /// Resolves a compact locator: like `get`, but the book is the first one
    /// whose abbreviation is `abbrev.book`.
    pub fn get_abbr(&self, abbrev: Abbreviation) -> (r: Option<BibleVerseResult>)
        ensures
            passage_of(r) == resolve(
                self.books@,
                abbreviated(abbrev.book@),
                abbrev.chapter,
                abbrev.verse,
            ),
            shaped(r),
    {
        let mut b: usize = 0;
        while b < self.books.len()
            invariant
                b <= self.books.len(),
                forall|j: int| 0 <= j < b ==> !abbreviated(abbrev.book@)(#[trigger] self.books@[j]),
            decreases self.books.len() - b,
        {
            if self.books[b].abbrev == abbrev.book {
                proof {
                    lemma_first_index(self.books@, abbreviated(abbrev.book@), b as int);
                }
                return lookup_in_book(&self.books[b], abbrev.chapter, abbrev.verse);
            }
            b = b + 1;
        }
        proof {
            lemma_no_first(self.books@, abbreviated(abbrev.book@));
        }
        None
    }
}

} // verus!
