use rust_bible::bible::{
    Abbreviation, Bible, BibleBook, BibleBookChapter, BibleBookVerse, BibleVerseResult,
    RandomVerseOpts, VerseOpts,
};
use rust_bible::args::Request;
use rust_bible::random::testament_bounds;

fn verse(number: usize, content: &str) -> BibleBookVerse {
    BibleBookVerse { number, content: content.to_string() }
}

fn chapter(number: usize, verses: Vec<BibleBookVerse>) -> BibleBookChapter {
    BibleBookChapter { number, verses }
}

fn book(name: &str, abbrev: &str, chapters: Vec<BibleBookChapter>) -> BibleBook {
    BibleBook { name: name.to_string(), abbrev: abbrev.to_string(), chapters_len: chapters.len(), chapters }
}

fn filler(i: usize) -> BibleBook {
    let mut chapters = Vec::new();
    for c in 1..=2 {
        let verses = (1..=3).map(|v| verse(v, &format!("text {i}:{c}:{v}"))).collect();
        chapters.push(chapter(c, verses));
    }
    book(&format!("Book {i}"), &format!("b{i}"), chapters)
}

/// A corpus of 66 books: position 42 is John, position 45 is 1 Corinthians.
fn corpus() -> Bible {
    let mut books: Vec<BibleBook> = (0..66).map(filler).collect();
    books[42] = book(
        "John",
        "jn",
        vec![
            chapter(1, vec![verse(1, "In the beginning was the Word")]),
            chapter(
                3,
                vec![
                    verse(15, "That whosoever believeth"),
                    verse(16, "For God so loved the world"),
                    verse(17, "For God sent not his Son"),
                    verse(18, "He that believeth on him"),
                ],
            ),
        ],
    );
    let love: Vec<BibleBookVerse> = (1..=13).map(|v| verse(v, &format!("love {v}"))).collect();
    books[45] = book("1 Corinthians", "1co", vec![chapter(13, love)]);
    Bible { books }
}

fn numbers(r: &BibleVerseResult) -> Vec<usize> {
    match r {
        BibleVerseResult::Single(s) => vec![s.verse],
        BibleVerseResult::Range(g) => g.verses.iter().map(|v| v.number).collect(),
    }
}

fn contents(r: &BibleVerseResult) -> Vec<String> {
    match r {
        BibleVerseResult::Single(s) => vec![s.content.clone()],
        BibleVerseResult::Range(g) => g.verses.iter().map(|v| v.content.clone()).collect(),
    }
}

fn book_of(r: &BibleVerseResult) -> (String, usize) {
    match r {
        BibleVerseResult::Single(s) => (s.book.clone(), s.chapter),
        BibleVerseResult::Range(g) => (g.book.clone(), g.chapter),
    }
}

fn position_of(bible: &Bible, name: &str) -> usize {
    bible.books.iter().position(|b| b.name == name).unwrap()
}

#[test]
fn locator_jn_3_16_is_single_verse_of_john() {
    let bible = corpus();
    let a = Abbreviation::parse("jn:3:16").unwrap();
    match bible.get_abbr(a).unwrap() {
        BibleVerseResult::Single(s) => {
            assert_eq!(s.book, "John");
            assert_eq!(s.chapter, 3);
            assert_eq!(s.verse, 16);
            assert_eq!(s.content, "For God so loved the world");
        }
        BibleVerseResult::Range(_) => panic!("expected a single verse"),
    }
}

#[test]
fn locator_1co_13_4_7_is_range_of_four() {
    let bible = corpus();
    let a = Abbreviation::parse("1co:13:4-7").unwrap();
    let r = bible.get_abbr(a).unwrap();
    assert!(matches!(r, BibleVerseResult::Range(_)));
    assert_eq!(book_of(&r), ("1 Corinthians".to_string(), 13));
    assert_eq!(numbers(&r), vec![4, 5, 6, 7]);
    assert_eq!(contents(&r), vec!["love 4", "love 5", "love 6", "love 7"]);
}

#[test]
fn chapter_999_is_not_found() {
    let bible = corpus();
    assert!(bible.get("John", 999, VerseOpts::Single(1)).is_none());
    let a = Abbreviation::parse("jn:999:1").unwrap();
    assert!(bible.get_abbr(a).is_none());
}

#[test]
fn unknown_book_and_unmatched_verse_are_not_found() {
    let bible = corpus();
    assert!(bible.get("Johnny", 3, VerseOpts::Single(16)).is_none());
    assert!(bible.get("john", 3, VerseOpts::Single(16)).is_none());
    assert!(bible.get("John", 3, VerseOpts::Single(40)).is_none());
    assert!(bible.get("John", 3, VerseOpts::Range(30, 40)).is_none());
    assert!(bible.get("John", 3, VerseOpts::Range(17, 16)).is_none());
}

#[test]
fn name_and_abbreviation_give_same_content() {
    let bible = corpus();
    let cases: Vec<(&str, &str, usize, VerseOpts)> = vec![
        ("John", "jn", 3, VerseOpts::Single(16)),
        ("John", "jn", 3, VerseOpts::Range(15, 18)),
        ("John", "jn", 1, VerseOpts::Single(1)),
        ("1 Corinthians", "1co", 13, VerseOpts::Range(1, 13)),
        ("Book 3", "b3", 2, VerseOpts::Single(2)),
        ("Book 60", "b60", 1, VerseOpts::Range(2, 3)),
    ];
    for (name, abbrev, ch, sel) in cases {
        let by_name = bible.get(name, ch, sel).unwrap();
        let a = Abbreviation { book: abbrev.to_string(), chapter: ch, verse: sel };
        let by_abbrev = bible.get_abbr(a).unwrap();
        assert_eq!(book_of(&by_name), book_of(&by_abbrev));
        assert_eq!(numbers(&by_name), numbers(&by_abbrev));
        assert_eq!(contents(&by_name), contents(&by_abbrev));
    }
}

#[test]
fn range_selector_gives_span_in_order() {
    let bible = corpus();
    let r = bible.get("1 Corinthians", 13, VerseOpts::Range(2, 5)).unwrap();
    assert_eq!(numbers(&r), vec![2, 3, 4, 5]);
    let r = bible.get("1 Corinthians", 13, VerseOpts::Range(11, 40)).unwrap();
    assert_eq!(numbers(&r), vec![11, 12, 13]);
    let r = bible.get("John", 3, VerseOpts::Range(16, 16)).unwrap();
    assert!(matches!(r, BibleVerseResult::Single(_)));
    assert_eq!(numbers(&r), vec![16]);
}

#[test]
fn single_selector_gives_single_variant() {
    let bible = corpus();
    for n in 1..=13 {
        let r = bible.get("1 Corinthians", 13, VerseOpts::Single(n)).unwrap();
        assert!(matches!(r, BibleVerseResult::Single(_)));
        assert_eq!(numbers(&r), vec![n]);
    }
}

#[test]
fn first_book_with_name_wins() {
    let mut bible = corpus();
    bible.books[50] = book("John", "jn2", vec![chapter(3, vec![verse(16, "other")])]);
    let r = bible.get("John", 3, VerseOpts::Single(16)).unwrap();
    assert_eq!(contents(&r), vec!["For God so loved the world"]);
}

#[test]
fn random_of_one_is_single_from_corpus() {
    let bible = corpus();
    for _ in 0..200 {
        let r = bible.random(RandomVerseOpts::All, 1).unwrap();
        match &r {
            BibleVerseResult::Single(s) => {
                assert!(bible.books.iter().any(|b| b.name == s.book));
            }
            BibleVerseResult::Range(_) => panic!("expected a single verse"),
        }
    }
}

#[test]
fn random_respects_testament_partition() {
    let bible = corpus();
    for _ in 0..200 {
        let old = bible.random(RandomVerseOpts::OldTestamentOnly, 2).unwrap();
        assert!(position_of(&bible, &book_of(&old).0) < 39);
        let new = bible.random(RandomVerseOpts::NewTestamentOnly, 2).unwrap();
        assert!(position_of(&bible, &book_of(&new).0) >= 39);
    }
}

#[test]
fn random_block_is_clamped_to_chapter() {
    let bible = Bible {
        books: vec![book("Jude", "jud", vec![chapter(1, vec![verse(1, "a"), verse(2, "b"), verse(3, "c")])])],
    };
    for _ in 0..100 {
        let r = bible.random(RandomVerseOpts::All, 5).unwrap();
        let ns = numbers(&r);
        assert!(!ns.is_empty() && ns.len() <= 3);
        assert_eq!(*ns.last().unwrap(), 3);
    }
}

#[test]
fn count_five_on_three_verses_gives_those_three() {
    let bible = Bible {
        books: vec![book("Jude", "jud", vec![chapter(1, vec![verse(1, "a"), verse(2, "b"), verse(3, "c")])])],
    };
    let r = bible.verse_block(0, 0, 0, 5).unwrap();
    assert_eq!(numbers(&r), vec![1, 2, 3]);
    assert_eq!(contents(&r), vec!["a", "b", "c"]);
    let r = bible.verse_block(0, 0, 1, 5).unwrap();
    assert_eq!(numbers(&r), vec![2, 3]);
    let r = bible.verse_block(0, 0, 2, 5).unwrap();
    assert!(matches!(r, BibleVerseResult::Single(_)));
}

#[test]
fn verse_block_out_of_bounds_is_none() {
    let bible = corpus();
    assert!(bible.verse_block(66, 0, 0, 1).is_none());
    assert!(bible.verse_block(0, 2, 0, 1).is_none());
    assert!(bible.verse_block(0, 0, 3, 1).is_none());
    assert!(bible.verse_block(0, 0, 0, 0).is_none());
    let r = bible.verse_block(42, 1, 1, 2).unwrap();
    assert_eq!(numbers(&r), vec![16, 17]);
}

#[test]
fn random_with_nothing_to_draw_is_none() {
    let bible = corpus();
    assert!(bible.random(RandomVerseOpts::All, 0).is_none());
    let small = Bible { books: vec![book("Ruth", "ru", vec![chapter(1, vec![verse(1, "x")])])] };
    assert!(small.random(RandomVerseOpts::NewTestamentOnly, 1).is_none());
    assert!(small.random(RandomVerseOpts::OldTestamentOnly, 1).is_some());
    let empty = Bible { books: vec![] };
    assert!(empty.random(RandomVerseOpts::All, 1).is_none());
    let hollow = Bible { books: vec![book("Ruth", "ru", vec![])] };
    assert!(hollow.random(RandomVerseOpts::All, 1).is_none());
}

#[test]
fn testament_bounds_are_positional() {
    assert_eq!(testament_bounds(RandomVerseOpts::All, 66), (0, 66));
    assert_eq!(testament_bounds(RandomVerseOpts::OldTestamentOnly, 66), (0, 39));
    assert_eq!(testament_bounds(RandomVerseOpts::NewTestamentOnly, 66), (39, 66));
    assert_eq!(testament_bounds(RandomVerseOpts::OldTestamentOnly, 10), (0, 10));
    assert_eq!(testament_bounds(RandomVerseOpts::NewTestamentOnly, 10), (10, 10));
}

#[test]
fn answer_dispatches_requests() {
    let bible = corpus();
    let r = bible
        .answer(Request::ByName { book: "John".to_string(), chapter: 3, verse: VerseOpts::Range(16, 17) })
        .unwrap();
    assert_eq!(numbers(&r), vec![16, 17]);
    let a = Abbreviation::parse("jn:3:18").unwrap();
    let r = bible.answer(Request::ByAbbreviation(a)).unwrap();
    assert_eq!(contents(&r), vec!["He that believeth on him"]);
    let r = bible.answer(Request::Random { opts: RandomVerseOpts::All, count: 1 }).unwrap();
    assert!(matches!(r, BibleVerseResult::Single(_)));
    assert!(bible.answer(Request::Random { opts: RandomVerseOpts::All, count: 0 }).is_none());
}
