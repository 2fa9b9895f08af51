//! Command-line arguments and the request they make.

use vstd::prelude::*;

use crate::bible::{Abbreviation, RandomVerseOpts, VerseOpts};
use crate::locator::{locator, verse_spec, LocatorError};

verus! {

/// The arguments of one invocation.
#[derive(Debug)]
pub struct RustBibleArgs {
    /// Path of the XML file that holds the corpus.
    pub file_path: String,
    /// A compact locator `book:chapter:verses`, e.g. "jn:3:16" or "jn:3:16-18".
    pub abbreviation: Option<String>,
    /// A book's display name, in the language of the corpus.
    pub book: Option<String>,
    /// A chapter number.
    pub chapter: Option<usize>,
    /// A verse number or range of verses, e.g. "16" or "16-18".
    pub verses: Option<String>,
    pub sub_command: Option<SubCommands>,
}

/// The subcommands.
#[derive(Debug)]
pub enum SubCommands {
    /// Get a random verse.
    Random(RandomArgs),
}

/// The arguments of the random subcommand.
#[derive(Debug)]
pub struct RandomArgs {
    /// Draw from the New Testament only.
    pub new_testment_only: bool,
    /// Draw from the Old Testament only.
    pub old_testment_only: bool,
    /// How many consecutive verses to return; one when absent.
    pub verse_count: Option<usize>,
}

/// A lookup that the arguments ask for.
#[derive(Debug)]
pub enum Request {
    Random { opts: RandomVerseOpts, count: usize },
    ByAbbreviation(Abbreviation),
    ByName { book: String, chapter: usize, verse: VerseOpts },
}

/// Why the arguments make no request.
#[derive(Debug, Clone, Copy, PartialEq, Eq, Structural)]
pub enum ArgError {
    /// Both testament-only flags were given.
    ConflictingTestaments,
    /// No book name was given, nor a locator or a subcommand.
    MissingBook,
    /// No chapter number was given with a book name.
    MissingChapter,
    /// No verse selector was given with a book name.
    MissingVerses,
    /// The locator or verse selector is malformed.
    InvalidLocator(LocatorError),
}

impl ArgError {
    /// A human-readable description.
    pub fn message(&self) -> &'static str {
        match self {
            ArgError::ConflictingTestaments => {
                "Cannot specify both --new-testment-only and --old-testment-only"
            },
            ArgError::MissingBook => "Book name is required",
            ArgError::MissingChapter => "Chapter number is required",
            ArgError::MissingVerses => "Verses number is required",
            ArgError::InvalidLocator(e) => e.message(),
        }
    }
}

/// The part of the corpus that the random flags select.
pub open spec fn random_scope(new_only: bool, old_only: bool) -> RandomVerseOpts {
    if new_only {
        RandomVerseOpts::NewTestamentOnly
    } else if old_only {
        RandomVerseOpts::OldTestamentOnly
    } else {
        RandomVerseOpts::All
    }
}

/// The request of the random subcommand's arguments.
pub open spec fn random_request(ra: RandomArgs, r: Result<Request, ArgError>) -> bool {
    if ra.new_testment_only && ra.old_testment_only {
        r == Err::<Request, ArgError>(ArgError::ConflictingTestaments)
    } else {
        r matches Ok(Request::Random { opts, count }) && opts == random_scope(
            ra.new_testment_only,
            ra.old_testment_only,
        ) && count == (match ra.verse_count {
            Some(c) => c,
            None => 1,
        })
    }
}

/// The request of a compact locator.
pub open spec fn locator_request(text: Seq<char>, r: Result<Request, ArgError>) -> bool {
    match locator(text) {
        Err(e) => r == Err::<Request, ArgError>(ArgError::InvalidLocator(e)),
        Ok(t) => r matches Ok(Request::ByAbbreviation(a)) && (a.book@, a.chapter, a.verse) == t,
    }
}

/// The request of the explicit book, chapter and verse arguments.
pub open spec fn explicit_request(
    book: Option<String>,
    chapter: Option<usize>,
    verses: Option<String>,
    r: Result<Request, ArgError>,
) -> bool {
    match book {
        None => r == Err::<Request, ArgError>(ArgError::MissingBook),
        Some(b) => match chapter {
            None => r == Err::<Request, ArgError>(ArgError::MissingChapter),
            Some(c) => match verses {
                None => r == Err::<Request, ArgError>(ArgError::MissingVerses),
                Some(v) => match verse_spec(v@) {
                    Err(e) => r == Err::<Request, ArgError>(ArgError::InvalidLocator(e)),
                    Ok(sel) => r matches Ok(Request::ByName { book, chapter, verse }) && book@
                        == b@ && chapter == c && verse == sel,
                },
            },
        },
    }
}

impl RandomArgs {
    fn into_request(self) -> (r: Result<Request, ArgError>)
        ensures
            random_request(self, r),
    {
        if self.new_testment_only && self.old_testment_only {
            return Err(ArgError::ConflictingTestaments);
        }
        let count = match self.verse_count {
            Some(c) => c,
            None => 1,
        };
        let opts = if self.new_testment_only {
            RandomVerseOpts::NewTestamentOnly
        } else if self.old_testment_only {
            RandomVerseOpts::OldTestamentOnly
        } else {
            RandomVerseOpts::All
        };
        Ok(Request::Random { opts, count })
    }
}

impl RustBibleArgs {
    /// The request that the arguments make: the random subcommand first, then
    /// a compact locator, then the explicit book, chapter and verses.
    pub fn into_request(self) -> (r: Result<Request, ArgError>)
        ensures
            match self.sub_command {
                Some(SubCommands::Random(ra)) => random_request(ra, r),
                None => match self.abbreviation {
                    Some(a) => locator_request(a@, r),
                    None => explicit_request(self.book, self.chapter, self.verses, r),
                },
            },
    {
        match self.sub_command {
            Some(SubCommands::Random(ra)) => {
                return ra.into_request();
            },
            None => {},
        }
        match self.abbreviation {
            Some(a) => {
                return match Abbreviation::parse(a.as_str()) {
                    Ok(abbrev) => Ok(Request::ByAbbreviation(abbrev)),
                    Err(e) => Err(ArgError::InvalidLocator(e)),
                };
            },
            None => {},
        }
        let book = match self.book {
            Some(b) => b,
            None => {
                return Err(ArgError::MissingBook);
            },
        };
        let chapter = match self.chapter {
            Some(c) => c,
            None => {
                return Err(ArgError::MissingChapter);
            },
        };
        let verses = match self.verses {
            Some(v) => v,
            None => {
                return Err(ArgError::MissingVerses);
            },
        };
        match VerseOpts::parse(verses.as_str()) {
            Ok(verse) => Ok(Request::ByName { book, chapter, verse }),
            Err(e) => Err(ArgError::InvalidLocator(e)),
        }
    }
}

} // verus!
