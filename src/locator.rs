//! Parsing of verse selectors (`n` or `n-m`) and compact locators
//! (`book:chapter:verses`).

use vstd::prelude::*;
use vstd::string::StrSliceExecFns;

use crate::bible::{Abbreviation, VerseOpts};

verus! {

/// Why a locator or a verse selector was refused.
#[derive(Debug, Clone, Copy, PartialEq, Eq, Structural)]
pub enum LocatorError {
    /// The locator does not have exactly three colon-separated parts.
    Format,
    /// The chapter part is not a positive integer.
    Chapter,
    /// The verse selector has more than one hyphen.
    VerseFormat,
    /// The first verse number is not a positive integer.
    StartVerse,
    /// The second verse number is not a positive integer.
    EndVerse,
}

impl LocatorError {
    /// A human-readable description.
    pub fn message(&self) -> &'static str {
        match self {
            LocatorError::Format => "Invalid format. Must be in the form 'book:chapter:verse'",
            LocatorError::Chapter => "Invalid chapter number",
            LocatorError::VerseFormat => "Invalid verse format",
            LocatorError::StartVerse => "Invalid start verse number",
            LocatorError::EndVerse => "Invalid end verse number",
        }
    }
}

pub open spec fn is_digit(c: char) -> bool {
    '0' <= c && c <= '9'
}

pub open spec fn digit_of(c: char) -> nat {
    (c as int - '0' as int) as nat
}

pub open spec fn all_digits(s: Seq<char>) -> bool {
    forall|i: int| 0 <= i < s.len() ==> is_digit(#[trigger] s[i])
}

/// The value of a string of decimal digits.
pub open spec fn digits_value(s: Seq<char>) -> nat
    decreases s.len(),
{
    if s.len() == 0 {
        0
    } else {
        digits_value(s.drop_last()) * 10 + digit_of(s.last())
    }
}

/// The value of a decimal numeral: an optional `+` and one or more digits.
pub open spec fn numeral(s: Seq<char>) -> Option<nat> {
    let body = if s.len() > 0 && s[0] == '+' {
        s.drop_first()
    } else {
        s
    };
    if body.len() > 0 && all_digits(body) {
        Some(digits_value(body))
    } else {
        None
    }
}

/// The positive integer, at most `usize::MAX`, that `s` writes, if any.
pub open spec fn positive_number(s: Seq<char>) -> Option<usize> {
    match numeral(s) {
        Some(v) => if 1 <= v && v <= usize::MAX {
            Some(v as usize)
        } else {
            None
        },
        None => None,
    }
}

/// The pieces of `s` between occurrences of `sep`; always at least one.
pub open spec fn split(s: Seq<char>, sep: char) -> Seq<Seq<char>>
    decreases s.len(),
{
    if s.len() == 0 {
        seq![seq![]]
    } else {
        let p = split(s.drop_last(), sep);
        if s.last() == sep {
            p.push(seq![])
        } else {
            p.update(p.len() - 1, p.last().push(s.last()))
        }
    }
}

proof fn lemma_split_nonempty(s: Seq<char>, sep: char)
    ensures
        split(s, sep).len() >= 1,
    decreases s.len(),
{
    if s.len() > 0 {
        lemma_split_nonempty(s.drop_last(), sep);
    }
}

/// The verse selector that `s` writes: `n` or `n-m`.
pub open spec fn verse_spec(s: Seq<char>) -> Result<VerseOpts, LocatorError> {
    let parts = split(s, '-');
    if parts.len() > 2 {
        Err(LocatorError::VerseFormat)
    } else {
        match positive_number(parts[0]) {
            None => Err(LocatorError::StartVerse),
            Some(start) => if parts.len() == 1 {
                Ok(VerseOpts::Single(start))
            } else {
                match positive_number(parts[1]) {
                    None => Err(LocatorError::EndVerse),
                    Some(end) => Ok(VerseOpts::Range(start, end)),
                }
            },
        }
    }
}

/// The (abbreviation, chapter, selector) that the locator `s` writes.
pub open spec fn locator(s: Seq<char>) -> Result<(Seq<char>, usize, VerseOpts), LocatorError> {
    let parts = split(s, ':');
    if parts.len() != 3 {
        Err(LocatorError::Format)
    } else {
        match positive_number(parts[1]) {
            None => Err(LocatorError::Chapter),
            Some(chapter) => match verse_spec(parts[2]) {
                Err(e) => Err(e),
                Ok(sel) => Ok((parts[0], chapter, sel)),
            },
        }
    }
}

fn chars_of(s: &str) -> (r: Vec<char>)
    ensures
        r@ == s@,
{
    let n = s.unicode_len();
    let mut r: Vec<char> = Vec::new();
    let mut i: usize = 0;
    while i < n
        invariant
            i <= n,
            n == s@.len(),
            r@ == s@.take(i as int),
        decreases n - i,
    {
        r.push(s.get_char(i));
        assert(s@.take(i + 1) =~= s@.take(i as int).push(s@[i as int]));
        i = i + 1;
    }
    assert(s@.take(n as int) =~= s@);
    r
}

proof fn lemma_digits_grow(s: Seq<char>, k: int)
    requires
        0 <= k <= s.len(),
        all_digits(s),
    ensures
        digits_value(s.take(k)) <= digits_value(s),
    decreases s.len() - k,
{
    if k < s.len() {
        lemma_digits_grow(s, k + 1);
        assert(s.take(k + 1).drop_last() =~= s.take(k));
    } else {
        assert(s.take(k) =~= s);
    }
}

/// The positive integer that `cs[lo..hi]` writes, if any.
fn parse_positive(cs: &Vec<char>, lo: usize, hi: usize) -> (r: Option<usize>)
    requires
        lo <= hi <= cs@.len(),
    ensures
        r == positive_number(cs@.subrange(lo as int, hi as int)),
{
    let ghost s = cs@.subrange(lo as int, hi as int);
    let mut first = lo;
    if lo < hi && cs[lo] == '+' {
        first = lo + 1;
    }
    let ghost body = cs@.subrange(first as int, hi as int);
    assert(body =~= (if s.len() > 0 && s[0] == '+' {
        s.drop_first()
    } else {
        s
    }));
    assert(numeral(s) == (if body.len() > 0 && all_digits(body) {
        Some(digits_value(body))
    } else {
        None
    }));
    if first == hi {
        return None;
    }
    let mut acc: usize = 0;
    let mut i: usize = first;
    while i < hi
        invariant
            lo <= first <= i <= hi <= cs@.len(),
            body == cs@.subrange(first as int, hi as int),
            s == cs@.subrange(lo as int, hi as int),
            body.len() > 0,
            numeral(s) == (if all_digits(body) {
                Some(digits_value(body))
            } else {
                None
            }),
            all_digits(cs@.subrange(first as int, i as int)),
            acc as nat == digits_value(cs@.subrange(first as int, i as int)),
        decreases hi - i,
    {
        let c = cs[i];
        if !('0' <= c && c <= '9') {
            assert(!is_digit(body[i - first]));
            return None;
        }
        let d = (c as u32 - '0' as u32) as usize;
        let ghost prev = cs@.subrange(first as int, i as int);
        let ghost next = cs@.subrange(first as int, i + 1);
        assert(next.drop_last() =~= prev);
        assert(next.last() == c);
        let step = acc.checked_mul(10);
        let sum = match step {
            None => None,
            Some(m) => m.checked_add(d),
        };
        match sum {
            None => {
                proof {
                    if all_digits(body) {
                        lemma_digits_grow(body, i + 1 - first);
                        assert(body.take(i + 1 - first) =~= next);
                    }
                }
                return None;
            },
            Some(v) => {
                acc = v;
            },
        }
        i = i + 1;
    }
    assert(cs@.subrange(first as int, hi as int) =~= body);
    if acc == 0 {
        None
    } else {
        Some(acc)
    }
}

/// The bounds `[from, to)` in `cs` of the pieces of `cs[lo..hi]` between
/// occurrences of `sep`.
fn split_ranges(cs: &Vec<char>, lo: usize, hi: usize, sep: char) -> (r: Vec<(usize, usize)>)
    requires
        lo <= hi <= cs@.len(),
    ensures
        r@.len() == split(cs@.subrange(lo as int, hi as int), sep).len(),
        forall|k: int|
            0 <= k < r@.len() ==> {
                &&& lo <= (#[trigger] r@[k]).0 <= r@[k].1 <= hi
                &&& cs@.subrange(r@[k].0 as int, r@[k].1 as int) == split(
                    cs@.subrange(lo as int, hi as int),
                    sep,
                )[k]
            },
{
    let mut parts: Vec<(usize, usize)> = Vec::new();
    let mut cur: usize = lo;
    let mut i: usize = lo;
    assert(cs@.subrange(lo as int, lo as int) =~= Seq::<char>::empty());
    while i < hi
        invariant
            lo <= cur <= i <= hi <= cs@.len(),
            parts@.len() + 1 == split(cs@.subrange(lo as int, i as int), sep).len(),
            forall|k: int|
                0 <= k < parts@.len() ==> {
                    &&& lo <= (#[trigger] parts@[k]).0 <= parts@[k].1 <= i
                    &&& cs@.subrange(parts@[k].0 as int, parts@[k].1 as int) == split(
                        cs@.subrange(lo as int, i as int),
                        sep,
                    )[k]
                },
            cs@.subrange(cur as int, i as int) == split(cs@.subrange(lo as int, i as int), sep).last(),
        decreases hi - i,
    {
        let ghost old_split = split(cs@.subrange(lo as int, i as int), sep);
        let ghost old_parts = parts@;
        let ghost t = cs@.subrange(lo as int, i + 1);
        assert(t.drop_last() =~= cs@.subrange(lo as int, i as int));
        assert(t.last() == cs@[i as int]);
        if cs[i] == sep {
            parts.push((cur, i));
            cur = i + 1;
            assert(cs@.subrange(cur as int, i + 1) =~= Seq::<char>::empty());
            assert forall|k: int| 0 <= k < parts@.len() implies cs@.subrange(
                (#[trigger] parts@[k]).0 as int,
                parts@[k].1 as int,
            ) == split(t, sep)[k] by {
                if k < old_parts.len() {
                    assert(parts@[k] == old_parts[k]);
                }
            }
        } else {
            assert(cs@.subrange(cur as int, i + 1) =~= cs@.subrange(cur as int, i as int).push(
                cs@[i as int],
            ));
            assert forall|k: int| 0 <= k < parts@.len() implies cs@.subrange(
                (#[trigger] parts@[k]).0 as int,
                parts@[k].1 as int,
            ) == split(t, sep)[k] by {
                assert(split(t, sep)[k] == old_split[k]);
            }
        }
        i = i + 1;
    }
    parts.push((cur, hi));
    let ghost whole = split(cs@.subrange(lo as int, hi as int), sep);
    assert forall|k: int| 0 <= k < parts@.len() implies cs@.subrange(
        (#[trigger] parts@[k]).0 as int,
        parts@[k].1 as int,
    ) == whole[k] by {}
    parts
}

/// The verse selector that `cs[lo..hi]` writes.
fn parse_verse_spec(cs: &Vec<char>, lo: usize, hi: usize) -> (r: Result<VerseOpts, LocatorError>)
    requires
        lo <= hi <= cs@.len(),
    ensures
        r == verse_spec(cs@.subrange(lo as int, hi as int)),
{
    let parts = split_ranges(cs, lo, hi, '-');
    if parts.len() > 2 {
        return Err(LocatorError::VerseFormat);
    }
    proof {
        lemma_split_nonempty(cs@.subrange(lo as int, hi as int), '-');
    }
    let start = match parse_positive(cs, parts[0].0, parts[0].1) {
        None => {
            return Err(LocatorError::StartVerse);
        },
        Some(n) => n,
    };
    if parts.len() == 1 {
        return Ok(VerseOpts::Single(start));
    }
    match parse_positive(cs, parts[1].0, parts[1].1) {
        None => Err(LocatorError::EndVerse),
        Some(end) => Ok(VerseOpts::Range(start, end)),
    }
}

impl VerseOpts {
    /// Parses a verse selector: `n` for one verse, `n-m` for the inclusive
    /// range from `n` to `m`, where each number is a positive integer.
    pub fn parse(s: &str) -> (r: Result<VerseOpts, LocatorError>)
        ensures
            r == verse_spec(s@),
    {
        let cs = chars_of(s);
        assert(cs@.subrange(0, cs@.len() as int) =~= s@);
        parse_verse_spec(&cs, 0, cs.len())
    }
}

impl Abbreviation {
    /// Parses a compact locator `book:chapter:verses`.
    pub fn parse(s: &str) -> (r: Result<Abbreviation, LocatorError>)
        ensures
            match r {
                Ok(a) => locator(s@) == Ok::<(Seq<char>, usize, VerseOpts), LocatorError>(
                    (a.book@, a.chapter, a.verse),
                ),
                Err(e) => locator(s@) == Err::<(Seq<char>, usize, VerseOpts), LocatorError>(e),
            },
    {
        let cs = chars_of(s);
        assert(cs@.subrange(0, cs@.len() as int) =~= s@);
        let parts = split_ranges(&cs, 0, cs.len(), ':');
        if parts.len() != 3 {
            return Err(LocatorError::Format);
        }
        let chapter = match parse_positive(&cs, parts[1].0, parts[1].1) {
            None => {
                return Err(LocatorError::Chapter);
            },
            Some(n) => n,
        };
        let verse = match parse_verse_spec(&cs, parts[2].0, parts[2].1) {
            Err(e) => {
                return Err(e);
            },
            Ok(v) => v,
        };
        let book = s.substring_char(parts[0].0, parts[0].1).to_owned();
        Ok(Abbreviation { book, chapter, verse })
    }
}

impl std::str::FromStr for VerseOpts {
    type Err = LocatorError;

    fn from_str(s: &str) -> Result<VerseOpts, LocatorError> {
        VerseOpts::parse(s)
    }
}

impl std::str::FromStr for Abbreviation {
    type Err = LocatorError;

    fn from_str(s: &str) -> Result<Abbreviation, LocatorError> {
        Abbreviation::parse(s)
    }
}

} // verus!
