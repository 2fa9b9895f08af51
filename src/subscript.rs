//! Rendering of numbers with subscript digit glyphs.

use vstd::prelude::*;
use vstd::string::StringExecFns;

verus! {

/// The subscript glyph of decimal digit `d`.
pub open spec fn subscript_glyph(d: nat) -> char {
    if d == 0 {
        '₀'
    } else if d == 1 {
        '₁'
    } else if d == 2 {
        '₂'
    } else if d == 3 {
        '₃'
    } else if d == 4 {
        '₄'
    } else if d == 5 {
        '₅'
    } else if d == 6 {
        '₆'
    } else if d == 7 {
        '₇'
    } else if d == 8 {
        '₈'
    } else {
        '₉'
    }
}

/// The decimal digits of `n`, most significant first, as subscript glyphs.
pub open spec fn subscript_of(n: nat) -> Seq<char>
    decreases n,
{
    if n < 10 {
        seq![subscript_glyph(n)]
    } else {
        subscript_of(n / 10).push(subscript_glyph(n % 10))
    }
}

fn glyph(d: usize) -> (r: &'static str)
    requires
        d < 10,
    ensures
        r@ == seq![subscript_glyph(d as nat)],
{
    if d == 0 {
        proof { reveal_strlit("₀"); }
        "₀"
    } else if d == 1 {
        proof { reveal_strlit("₁"); }
        "₁"
    } else if d == 2 {
        proof { reveal_strlit("₂"); }
        "₂"
    } else if d == 3 {
        proof { reveal_strlit("₃"); }
        "₃"
    } else if d == 4 {
        proof { reveal_strlit("₄"); }
        "₄"
    } else if d == 5 {
        proof { reveal_strlit("₅"); }
        "₅"
    } else if d == 6 {
        proof { reveal_strlit("₆"); }
        "₆"
    } else if d == 7 {
        proof { reveal_strlit("₇"); }
        "₇"
    } else if d == 8 {
        proof { reveal_strlit("₈"); }
        "₈"
    } else {
        proof { reveal_strlit("₉"); }
        "₉"
    }
}

fn append_subscript(n: usize, out: &mut String)
    ensures
        final(out)@ == old(out)@ + subscript_of(n as nat),
    decreases n,
{
    if n >= 10 {
        append_subscript(n / 10, out);
    }
    out.append(glyph(n % 10));
    assert(subscript_of(n as nat) == if n < 10 {
        seq![subscript_glyph(n as nat)]
    } else {
        subscript_of((n / 10) as nat).push(subscript_glyph((n % 10) as nat))
    });
}

/// A number written with subscript digit glyphs, for verse numbers in
/// multi-verse output.
pub trait SubscriptRepresentation {
    spec fn spec_value(&self) -> nat;

    fn to_subscript(&self) -> (r: String)
        ensures
            r@ == subscript_of(self.spec_value()),
    ;
}

impl SubscriptRepresentation for usize {
    open spec fn spec_value(&self) -> nat {
        *self as nat
    }

    fn to_subscript(&self) -> (r: String)
        ensures
            r@ == subscript_of(*self as nat),
    {
        let mut out = String::new();
        append_subscript(*self, &mut out);
        assert(out@ =~= subscript_of(*self as nat));
        out
    }
}

} // verus!
