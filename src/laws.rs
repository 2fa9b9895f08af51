//! Properties that relate the resolver's operations to one another.

use vstd::prelude::*;

use crate::bible::{
    abbreviated, ascending, first_index, is_first, lemma_first_index, named, numbered, resolve,
    selected, unique_verse_numbers, verse_entry, Bible, BibleBook, BibleBookVerse, VerseOpts,
};
use crate::random::block;

verus! {

/// In a well-formed corpus, looking a chapter and selector up by a book's
/// display name and by its abbreviation gives the same passage, for a book
/// that no earlier book shares its name with.
pub proof fn law_name_and_abbreviation_agree(bible: Bible, i: int, chapter: usize, sel: VerseOpts)
    requires
        bible.well_formed(),
        0 <= i < bible.books@.len(),
        forall|j: int| 0 <= j < i ==> #[trigger] bible.books@[j].name@ != bible.books@[i].name@,
    ensures
        resolve(bible.books@, named(bible.books@[i].name@), chapter, sel) == resolve(
            bible.books@,
            abbreviated(bible.books@[i].abbrev@),
            chapter,
            sel,
        ),
{
    let books = bible.books@;
    assert(is_first(books, named(books[i].name@), i));
    assert(is_first(books, abbreviated(books[i].abbrev@), i));
    lemma_first_index(books, named(books[i].name@), i);
    lemma_first_index(books, abbreviated(books[i].abbrev@), i);
}

/// In a chapter whose verse numbers rise, a range selector `start-end`
/// yields the chapter's verses numbered from `start` to `end`, all of them
/// and nothing else, in ascending order.
pub proof fn law_range_selects_span(verses: Seq<BibleBookVerse>, start: usize, end: usize)
    requires
        start <= end,
        ascending(verses),
    ensures
        forall|k: int|
            0 <= k < selected(verses, VerseOpts::Range(start, end)).len() ==> start
                <= (#[trigger] selected(verses, VerseOpts::Range(start, end))[k]).0 <= end,
        forall|k: int, l: int|
            0 <= k < l < selected(verses, VerseOpts::Range(start, end)).len() ==> (
            #[trigger] selected(verses, VerseOpts::Range(start, end))[k]).0 < (
            #[trigger] selected(verses, VerseOpts::Range(start, end))[l]).0,
        forall|k: int|
            0 <= k < selected(verses, VerseOpts::Range(start, end)).len() ==> exists|i: int|
                0 <= i < verses.len() && #[trigger] selected(verses, VerseOpts::Range(start, end))[k]
                    == verse_entry(verses[i]),
        forall|i: int|
            0 <= i < verses.len() && start <= (#[trigger] verses[i]).number <= end ==> selected(
                verses,
                VerseOpts::Range(start, end),
            ).contains(verse_entry(verses[i])),
    decreases verses.len(),
{
    let sel = VerseOpts::Range(start, end);
    if verses.len() > 0 {
        let pre = verses.drop_last();
        assert(ascending(pre)) by {
            assert forall|i: int, j: int| 0 <= i < j < pre.len() implies #[trigger] pre[i].number
                < #[trigger] pre[j].number by {
                assert(pre[i] == verses[i] && pre[j] == verses[j]);
            }
        }
        law_range_selects_span(pre, start, end);
        let po = selected(pre, sel);
        let out = selected(verses, sel);
        let last = verses.last();
        if sel.admits(last.number) {
            assert(out == po.push(verse_entry(last)));
            assert forall|k: int| 0 <= k < po.len() implies (#[trigger] po[k]).0 < last.number by {
                let i = choose|i: int| 0 <= i < pre.len() && po[k] == verse_entry(pre[i]);
                assert(verses[i] == pre[i]);
                assert(verses[i].number < verses[verses.len() - 1].number);
            }
            assert forall|k: int| 0 <= k < out.len() implies exists|i: int|
                0 <= i < verses.len() && #[trigger] out[k] == verse_entry(verses[i]) by {
                if k < po.len() {
                    let i = choose|i: int| 0 <= i < pre.len() && po[k] == verse_entry(pre[i]);
                    assert(verses[i] == pre[i]);
                } else {
                    assert(out[k] == verse_entry(verses[verses.len() - 1]));
                }
            }
            assert forall|i: int|
                0 <= i < verses.len() && start <= (#[trigger] verses[i]).number
                    <= end implies out.contains(verse_entry(verses[i])) by {
                if i < pre.len() {
                    assert(pre[i] == verses[i]);
                    let k = choose|k: int| 0 <= k < po.len() && po[k] == verse_entry(pre[i]);
                    assert(out[k] == po[k]);
                } else {
                    assert(out[po.len() as int] == verse_entry(verses[i]));
                }
            }
        } else {
            assert(out == po);
            assert forall|k: int| 0 <= k < out.len() implies exists|i: int|
                0 <= i < verses.len() && #[trigger] out[k] == verse_entry(verses[i]) by {
                let i = choose|i: int| 0 <= i < pre.len() && po[k] == verse_entry(pre[i]);
                assert(verses[i] == pre[i]);
            }
            assert forall|i: int|
                0 <= i < verses.len() && start <= (#[trigger] verses[i]).number
                    <= end implies out.contains(verse_entry(verses[i])) by {
                if i < pre.len() {
                    assert(pre[i] == verses[i]);
                }
            }
        }
    }
}

proof fn lemma_selected_none(verses: Seq<BibleBookVerse>, sel: VerseOpts)
    requires
        forall|i: int| 0 <= i < verses.len() ==> !sel.admits(#[trigger] verses[i].number),
    ensures
        selected(verses, sel).len() == 0,
    decreases verses.len(),
{
    if verses.len() > 0 {
        let pre = verses.drop_last();
        assert forall|i: int| 0 <= i < pre.len() implies !sel.admits(#[trigger] pre[i].number) by {
            assert(pre[i] == verses[i]);
        }
        lemma_selected_none(pre, sel);
        assert(!sel.admits(verses[verses.len() - 1].number));
    }
}

/// A single-verse selector picks at most one verse of a chapter whose verse
/// numbers are unique.
pub proof fn law_single_selects_at_most_one(verses: Seq<BibleBookVerse>, n: usize)
    requires
        unique_verse_numbers(verses),
    ensures
        selected(verses, VerseOpts::Single(n)).len() <= 1,
    decreases verses.len(),
{
    let sel = VerseOpts::Single(n);
    if verses.len() > 0 {
        let pre = verses.drop_last();
        assert(unique_verse_numbers(pre)) by {
            assert forall|i: int, j: int| 0 <= i < j < pre.len() implies #[trigger] pre[i].number
                != #[trigger] pre[j].number by {
                assert(pre[i] == verses[i] && pre[j] == verses[j]);
            }
        }
        law_single_selects_at_most_one(pre, n);
        if sel.admits(verses.last().number) {
            assert forall|i: int| 0 <= i < pre.len() implies !sel.admits(
                #[trigger] pre[i].number,
            ) by {
                assert(pre[i] == verses[i]);
                assert(verses[i].number != verses[verses.len() - 1].number);
            }
            lemma_selected_none(pre, sel);
        }
    }
}

/// In a well-formed corpus, a lookup with a single-verse selector that finds
/// anything finds exactly one verse, so its result is the single-verse variant.
pub proof fn law_single_lookup_is_single(
    bible: Bible,
    pick: spec_fn(BibleBook) -> bool,
    chapter: usize,
    n: usize,
)
    requires
        bible.well_formed(),
    ensures
        resolve(bible.books@, pick, chapter, VerseOpts::Single(n)) matches Some(p) ==> p.verses.len()
            == 1,
{
    let books = bible.books@;
    if let Some(b) = first_index(books, pick) {
        let i = choose|i: int| is_first(books, pick, i);
        lemma_first_index(books, pick, i);
        let book = books[b];
        if let Some(c) = first_index(book.chapters@, numbered(chapter)) {
            let k = choose|k: int| is_first(book.chapters@, numbered(chapter), k);
            lemma_first_index(book.chapters@, numbered(chapter), k);
            assert(unique_verse_numbers(book.chapters@[c].verses@));
            law_single_selects_at_most_one(book.chapters@[c].verses@, n);
        }
    }
}

/// A block never runs past the end of its chapter: asking for at least as
/// many verses as remain from `start` yields exactly the remaining verses.
pub proof fn law_block_stops_at_chapter_end(verses: Seq<BibleBookVerse>, start: int, count: int)
    requires
        0 <= start < verses.len(),
        count >= verses.len() - start,
    ensures
        block(verses, start, count) == verses.subrange(start, verses.len() as int).map_values(
            |v: BibleBookVerse| verse_entry(v),
        ),
        block(verses, start, count).len() == verses.len() - start,
{
}

} // verus!
