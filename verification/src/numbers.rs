//! Prices and quantities as a type of the caller's choice, with the few
//! operations that the conversions need of it.

use vstd::prelude::*;

verus! {

/// Operations on a number type `F`: how to read one from text, zero, and the
/// lower and the higher of two, each with the value to start from.
pub struct Numbers<F, P, Lo, Hi> {
    pub zero: F,
    /// Not below any number.
    pub highest: F,
    /// Not above any number.
    pub lowest: F,
    /// Reads a number, `None` where the text is none.
    pub parse: P,
    /// The lower of two numbers.
    pub lower: Lo,
    /// The higher of two numbers.
    pub higher: Hi,
}

/// `parse` may be called on every text, and its result depends on the text alone.
pub open spec fn reads_text<F, P: Fn(&str) -> Option<F>>(parse: P) -> bool {
    &&& forall|s: &str| #[trigger] call_requires(parse, (s,))
    &&& forall|s: &str, t: &str, a: Option<F>, b: Option<F>|
        s@ == t@ && #[trigger] call_ensures(parse, (s,), a) && #[trigger] call_ensures(
            parse,
            (t,),
            b,
        ) ==> a == b
}

/// The number that `parse` reads from a text.
pub open spec fn number_in<F, P: Fn(&str) -> Option<F>>(parse: P, text: Seq<char>) -> Option<F> {
    choose|r: Option<F>| reading(parse, text, r)
}

/// `parse` may give `r` for `text`.
pub open spec fn reading<F, P: Fn(&str) -> Option<F>>(
    parse: P,
    text: Seq<char>,
    r: Option<F>,
) -> bool {
    exists|s: &str| s@ == text && #[trigger] call_ensures(parse, (s,), r)
}

/// `pick` may be called on all numbers, and its result depends on them alone.
pub open spec fn combines<F, G: Fn(F, F) -> F>(pick: G) -> bool {
    &&& forall|a: F, b: F| #[trigger] call_requires(pick, (a, b))
    &&& forall|a: F, b: F, x: F, y: F| #[trigger]
        call_ensures(pick, (a, b), x) && #[trigger] call_ensures(pick, (a, b), y) ==> x == y
}

/// What `pick` makes of two numbers.
pub open spec fn combined<F, G: Fn(F, F) -> F>(pick: G, a: F, b: F) -> F {
    choose|r: F| call_ensures(pick, (a, b), r)
}

/// What `pick` makes of a run of numbers, from `start` on.
pub open spec fn folded<F, G: Fn(F, F) -> F>(pick: G, start: F, values: Seq<F>) -> F
    decreases values.len(),
{
    if values.len() == 0 {
        start
    } else {
        combined(pick, folded(pick, start, values.drop_last()), values.last())
    }
}

/// Reads a number from a text.
pub fn read_number<F, P: Fn(&str) -> Option<F>>(parse: &P, text: &str) -> (r: Option<F>)
    requires
        reads_text(*parse),
    ensures
        r == number_in(*parse, text@),
{
    let r = parse(text);
    assert(reading(*parse, text@, r));
    assert(reading(*parse, text@, number_in(*parse, text@)));
    r
}

/// Combines two numbers.
pub fn combine<F: Copy, G: Fn(F, F) -> F>(pick: &G, a: F, b: F) -> (r: F)
    requires
        combines(*pick),
    ensures
        r == combined(*pick, a, b),
{
    let r = pick(a, b);
    assert(call_ensures(*pick, (a, b), combined(*pick, a, b)));
    r
}

impl<F, P: Fn(&str) -> Option<F>, Lo: Fn(F, F) -> F, Hi: Fn(F, F) -> F> Numbers<F, P, Lo, Hi> {
    /// All operations are defined everywhere and depend on their arguments alone.
    pub open spec fn wf(self) -> bool {
        &&& reads_text(self.parse)
        &&& combines(self.lower)
        &&& combines(self.higher)
    }
}

} // verus!
