//! Rendering of results as plain text.

use vstd::prelude::*;
use vstd::string::StringExecFns;

use crate::bible::{range_entry, BibleVerseResult, Passage, VerseRange};
use crate::subscript::{subscript_of, SubscriptRepresentation};

verus! {

/// How verse numbers of a multi-verse result are written.
#[derive(Debug, Clone, Copy, PartialEq, Eq, Structural)]
pub enum NumberStyle {
    /// `16: text`
    Plain,
    /// `₁₆ text`
    Subscript,
}

/// The ASCII digit for `d`.
pub open spec fn digit_char(d: nat) -> char {
    if d == 0 {
        '0'
    } else if d == 1 {
        '1'
    } else if d == 2 {
        '2'
    } else if d == 3 {
        '3'
    } else if d == 4 {
        '4'
    } else if d == 5 {
        '5'
    } else if d == 6 {
        '6'
    } else if d == 7 {
        '7'
    } else if d == 8 {
        '8'
    } else {
        '9'
    }
}

/// The decimal digits of `n`, most significant first.
pub open spec fn decimal_of(n: nat) -> Seq<char>
    decreases n,
{
    if n < 10 {
        seq![digit_char(n)]
    } else {
        decimal_of(n / 10).push(digit_char(n % 10))
    }
}

/// One line of a multi-verse result.
pub open spec fn verse_line(style: NumberStyle, n: usize, content: Seq<char>) -> Seq<char> {
    match style {
        NumberStyle::Plain => decimal_of(n as nat) + seq![':', ' '] + content,
        NumberStyle::Subscript => subscript_of(n as nat) + seq![' '] + content,
    }
}

/// The verse lines of a multi-verse result, each after a line break.
pub open spec fn verse_lines(verses: Seq<(usize, Seq<char>)>, style: NumberStyle) -> Seq<char>
    decreases verses.len(),
{
    if verses.len() == 0 {
        seq![]
    } else {
        verse_lines(verses.drop_last(), style) + seq!['\n'] + verse_line(
            style,
            verses.last().0,
            verses.last().1,
        )
    }
}

/// The text of a result: `book chapter:verse`, a line break and the text for
/// one verse; `book chapter` and one line per verse for several.
pub open spec fn rendered(p: Passage, single: bool, style: NumberStyle) -> Seq<char> {
    if single {
        p.book + seq![' '] + decimal_of(p.chapter as nat) + seq![':'] + decimal_of(
            p.verses[0].0 as nat,
        ) + seq!['\n'] + p.verses[0].1
    } else {
        p.book + seq![' '] + decimal_of(p.chapter as nat) + verse_lines(p.verses, style)
    }
}

fn digit_text(d: usize) -> (r: &'static str)
    requires
        d < 10,
    ensures
        r@ == seq![digit_char(d as nat)],
{
    if d == 0 {
        proof { reveal_strlit("0"); }
        "0"
    } else if d == 1 {
        proof { reveal_strlit("1"); }
        "1"
    } else if d == 2 {
        proof { reveal_strlit("2"); }
        "2"
    } else if d == 3 {
        proof { reveal_strlit("3"); }
        "3"
    } else if d == 4 {
        proof { reveal_strlit("4"); }
        "4"
    } else if d == 5 {
        proof { reveal_strlit("5"); }
        "5"
    } else if d == 6 {
        proof { reveal_strlit("6"); }
        "6"
    } else if d == 7 {
        proof { reveal_strlit("7"); }
        "7"
    } else if d == 8 {
        proof { reveal_strlit("8"); }
        "8"
    } else {
        proof { reveal_strlit("9"); }
        "9"
    }
}

fn append_decimal(n: usize, out: &mut String)
    ensures
        final(out)@ == old(out)@ + decimal_of(n as nat),
    decreases n,
{
    if n >= 10 {
        append_decimal(n / 10, out);
    }
    out.append(digit_text(n % 10));
    assert(decimal_of(n as nat) == if n < 10 {
        seq![digit_char(n as nat)]
    } else {
        decimal_of((n / 10) as nat).push(digit_char((n % 10) as nat))
    });
}

impl BibleVerseResult {
    /// The result as plain text, verse numbers of a multi-verse result
    /// written in `style`.
    pub fn render(&self, style: NumberStyle) -> (r: String)
        ensures
            r@ == rendered(self@, self is Single, style),
    {
        proof {
            reveal_strlit(" ");
            reveal_strlit(":");
            reveal_strlit("\n");
        }
        let mut out = String::new();
        match self {
            BibleVerseResult::Single(s) => {
                out.append(s.book.as_str());
                out.append(" ");
                append_decimal(s.chapter, &mut out);
                out.append(":");
                append_decimal(s.verse, &mut out);
                out.append("\n");
                out.append(s.content.as_str());
                assert(out@ =~= rendered(self@, true, style));
            },
            BibleVerseResult::Range(g) => {
                out.append(g.book.as_str());
                out.append(" ");
                append_decimal(g.chapter, &mut out);
                let ghost head = out@;
                let ghost verses = self@.verses;
                let mut i: usize = 0;
                while i < g.verses.len()
                    invariant
                        i <= g.verses@.len(),
                        verses == g.verses@.map_values(|v: VerseRange| range_entry(v)),
                        out@ == head + verse_lines(verses.take(i as int), style),
                    decreases g.verses.len() - i,
                {
                    let v = &g.verses[i];
                    let ghost before = out@;
                    proof {
                        reveal_strlit(" ");
                        reveal_strlit("\n");
                        reveal_strlit(": ");
                    }
                    out.append("\n");
                    match style {
                        NumberStyle::Plain => {
                            append_decimal(v.number, &mut out);
                            out.append(": ");
                        },
                        NumberStyle::Subscript => {
                            let sub = v.number.to_subscript();
                            out.append(sub.as_str());
                            out.append(" ");
                        },
                    }
                    out.append(v.content.as_str());
                    proof {
                        let t = verses.take(i + 1);
                        assert(t.drop_last() =~= verses.take(i as int));
                        assert(t.last() == (v.number, v.content@));
                        assert(out@ =~= before + seq!['\n'] + verse_line(style, v.number, v.content@));
                    }
                    i = i + 1;
                }
                assert(verses.take(verses.len() as int) =~= verses);
                assert(out@ =~= rendered(self@, false, style));
            },
        }
        out
    }
}

} // verus!
