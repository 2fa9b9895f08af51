use rust_bible::args::{ArgError, RandomArgs, Request, RustBibleArgs, SubCommands};
use rust_bible::bible::{RandomVerseOpts, VerseOpts};
use rust_bible::locator::LocatorError;

fn plain() -> RustBibleArgs {
    RustBibleArgs {
        file_path: "bible.xml".to_string(),
        abbreviation: None,
        book: None,
        chapter: None,
        verses: None,
        sub_command: None,
    }
}

fn random(new_only: bool, old_only: bool, count: Option<usize>) -> RustBibleArgs {
    let mut a = plain();
    a.sub_command = Some(SubCommands::Random(RandomArgs {
        new_testment_only: new_only,
        old_testment_only: old_only,
        verse_count: count,
    }));
    a
}

#[test]
fn both_testament_flags_conflict() {
    assert_eq!(random(true, true, None).into_request().err(), Some(ArgError::ConflictingTestaments));
}

#[test]
fn random_requests() {
    match random(false, false, None).into_request() {
        Ok(Request::Random { opts, count }) => {
            assert_eq!(opts, RandomVerseOpts::All);
            assert_eq!(count, 1);
        }
        other => panic!("unexpected {:?}", other),
    }
    match random(true, false, Some(3)).into_request() {
        Ok(Request::Random { opts, count }) => {
            assert_eq!(opts, RandomVerseOpts::NewTestamentOnly);
            assert_eq!(count, 3);
        }
        other => panic!("unexpected {:?}", other),
    }
    match random(false, true, Some(2)).into_request() {
        Ok(Request::Random { opts, .. }) => assert_eq!(opts, RandomVerseOpts::OldTestamentOnly),
        other => panic!("unexpected {:?}", other),
    }
}

#[test]
fn abbreviation_request() {
    let mut a = plain();
    a.abbreviation = Some("jn:3:16-18".to_string());
    a.book = Some("ignored".to_string());
    match a.into_request() {
        Ok(Request::ByAbbreviation(ab)) => {
            assert_eq!(ab.book, "jn");
            assert_eq!(ab.chapter, 3);
            assert_eq!(ab.verse, VerseOpts::Range(16, 18));
        }
        other => panic!("unexpected {:?}", other),
    }
    let mut a = plain();
    a.abbreviation = Some("jn:3".to_string());
    assert_eq!(a.into_request().err(), Some(ArgError::InvalidLocator(LocatorError::Format)));
}

#[test]
fn explicit_request_and_missing_parts() {
    assert_eq!(plain().into_request().err(), Some(ArgError::MissingBook));
    let mut a = plain();
    a.book = Some("John".to_string());
    assert_eq!(a.into_request().err(), Some(ArgError::MissingChapter));
    let mut a = plain();
    a.book = Some("John".to_string());
    a.chapter = Some(3);
    assert_eq!(a.into_request().err(), Some(ArgError::MissingVerses));
    let mut a = plain();
    a.book = Some("John".to_string());
    a.chapter = Some(3);
    a.verses = Some("1-x".to_string());
    assert_eq!(a.into_request().err(), Some(ArgError::InvalidLocator(LocatorError::EndVerse)));
    let mut a = plain();
    a.book = Some("John".to_string());
    a.chapter = Some(3);
    a.verses = Some("16".to_string());
    match a.into_request() {
        Ok(Request::ByName { book, chapter, verse }) => {
            assert_eq!(book, "John");
            assert_eq!(chapter, 3);
            assert_eq!(verse, VerseOpts::Single(16));
        }
        other => panic!("unexpected {:?}", other),
    }
}

#[test]
fn arg_error_messages() {
    assert_eq!(ArgError::MissingBook.message(), "Book name is required");
    assert_eq!(ArgError::InvalidLocator(LocatorError::StartVerse).message(), "Invalid start verse number");
}
