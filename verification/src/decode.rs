//! Decoders handed in by the caller: functions from text or from a decoded
//! value to a record, where the record depends on what is decoded alone.

use vstd::prelude::*;

verus! {

/// What an optional record says.
pub open spec fn opt_view<R: View>(r: Option<R>) -> Option<R::V> {
    match r {
        Some(v) => Some(v@),
        None => None,
    }
}

/// `decode` may be called on every text, and what it gives depends on the text alone.
pub open spec fn decodes_text<R: View, D: Fn(&str) -> Option<R>>(decode: D) -> bool {
    &&& forall|s: &str| #[trigger] call_requires(decode, (s,))
    &&& forall|s: &str, t: &str, a: Option<R>, b: Option<R>|
        s@ == t@ && #[trigger] call_ensures(decode, (s,), a) && #[trigger] call_ensures(
            decode,
            (t,),
            b,
        ) ==> opt_view(a) == opt_view(b)
}

/// `decode` may give a record that says `m` for `text`.
pub open spec fn may_decode_text<R: View, D: Fn(&str) -> Option<R>>(
    decode: D,
    text: Seq<char>,
    m: Option<R::V>,
) -> bool {
    exists|s: &str, r: Option<R>|
        s@ == text && opt_view(r) == m && #[trigger] call_ensures(decode, (s,), r)
}

/// What `decode` gives for a text.
pub open spec fn text_decoded<R: View, D: Fn(&str) -> Option<R>>(
    decode: D,
    text: Seq<char>,
) -> Option<R::V> {
    choose|m: Option<R::V>| may_decode_text(decode, text, m)
}

/// Decodes a text.
pub fn decode_text<R: View, D: Fn(&str) -> Option<R>>(decode: &D, text: &str) -> (r: Option<R>)
    requires
        decodes_text(*decode),
    ensures
        opt_view(r) == text_decoded(*decode, text@),
{
    let r = decode(text);
    assert(may_decode_text(*decode, text@, opt_view(r)));
    assert(may_decode_text(*decode, text@, text_decoded(*decode, text@)));
    r
}

/// `decode` may be called on every value, and what it gives depends on the value alone.
pub open spec fn decodes_value<V, R: View, D: Fn(&V) -> Option<R>>(decode: D) -> bool {
    &&& forall|v: &V| #[trigger] call_requires(decode, (v,))
    &&& forall|v: &V, a: Option<R>, b: Option<R>| #[trigger]
        call_ensures(decode, (v,), a) && #[trigger] call_ensures(decode, (v,), b) ==> opt_view(a)
            == opt_view(b)
}

/// `decode` may give a record that says `m` for `value`.
pub open spec fn may_decode_value<V, R: View, D: Fn(&V) -> Option<R>>(
    decode: D,
    value: V,
    m: Option<R::V>,
) -> bool {
    exists|r: Option<R>| opt_view(r) == m && #[trigger] call_ensures(decode, (&value,), r)
}

/// What `decode` gives for a value.
pub open spec fn value_decoded<V, R: View, D: Fn(&V) -> Option<R>>(decode: D, value: V) -> Option<
    R::V,
> {
    choose|m: Option<R::V>| may_decode_value(decode, value, m)
}

/// Decodes a value.
pub fn decode_value<V, R: View, D: Fn(&V) -> Option<R>>(decode: &D, value: &V) -> (r: Option<R>)
    requires
        decodes_value::<V, R, D>(*decode),
    ensures
        opt_view(r) == value_decoded(*decode, *value),
{
    let r = decode(value);
    assert(may_decode_value(*decode, *value, opt_view(r)));
    assert(may_decode_value(*decode, *value, value_decoded(*decode, *value)));
    r
}

/// `check` may be called on every text, and its answer depends on the text alone.
pub open spec fn checks_text<C: Fn(&str) -> bool>(check: C) -> bool {
    &&& forall|s: &str| #[trigger] call_requires(check, (s,))
    &&& forall|s: &str, t: &str, a: bool, b: bool|
        s@ == t@ && #[trigger] call_ensures(check, (s,), a) && #[trigger] call_ensures(
            check,
            (t,),
            b,
        ) ==> a == b
}

/// `check` may answer `r` for `text`.
pub open spec fn may_answer<C: Fn(&str) -> bool>(check: C, text: Seq<char>, r: bool) -> bool {
    exists|s: &str| s@ == text && #[trigger] call_ensures(check, (s,), r)
}

/// What `check` answers for a text.
pub open spec fn text_checked<C: Fn(&str) -> bool>(check: C, text: Seq<char>) -> bool {
    choose|r: bool| may_answer(check, text, r)
}

/// Checks a text.
pub fn check_text<C: Fn(&str) -> bool>(check: &C, text: &str) -> (r: bool)
    requires
        checks_text(*check),
    ensures
        r == text_checked(*check, text@),
{
    let r = check(text);
    assert(may_answer(*check, text@, r));
    assert(may_answer(*check, text@, text_checked(*check, text@)));
    r
}

/// `check` may be called on every value, and its answer depends on the value alone.
pub open spec fn checks_value<F, C: Fn(F) -> bool>(check: C) -> bool {
    &&& forall|v: F| #[trigger] call_requires(check, (v,))
    &&& forall|v: F, a: bool, b: bool| #[trigger]
        call_ensures(check, (v,), a) && #[trigger] call_ensures(check, (v,), b) ==> a == b
}

/// What `check` answers for a value.
pub open spec fn value_checked<F, C: Fn(F) -> bool>(check: C, v: F) -> bool {
    choose|r: bool| call_ensures(check, (v,), r)
}

/// Checks a value.
pub fn check_value<F: Copy, C: Fn(F) -> bool>(check: &C, v: F) -> (r: bool)
    requires
        checks_value::<F, C>(*check),
    ensures
        r == value_checked(*check, v),
{
    let r = check(v);
    assert(call_ensures(*check, (v,), value_checked(*check, v)));
    r
}

/// What a text or a value is decoded to is what the decoder gives for it.
pub proof fn law_decoded_is_what_is_given<
    V,
    R: View,
    D: Fn(&str) -> Option<R>,
    E: Fn(&V) -> Option<R>,
>(decode: D, text: &str, record: Option<R>, other: E, value: V, found: Option<R>)
    ensures
        decodes_text(decode) && call_ensures(decode, (text,), record) ==> text_decoded(
            decode,
            text@,
        ) == opt_view(record),
        decodes_value::<V, R, E>(other) && call_ensures(other, (&value,), found)
            ==> value_decoded(other, value) == opt_view(found),
{
    if decodes_text(decode) && call_ensures(decode, (text,), record) {
        assert(may_decode_text(decode, text@, opt_view(record)));
        assert(may_decode_text(decode, text@, text_decoded(decode, text@)));
    }
    if decodes_value::<V, R, E>(other) && call_ensures(other, (&value,), found) {
        assert(may_decode_value(other, value, opt_view(found)));
        assert(may_decode_value(other, value, value_decoded(other, value)));
    }
}

/// What is found of a text or a value is what the check answers for it.
pub proof fn law_checked_is_what_is_answered<F, C: Fn(&str) -> bool, G: Fn(F) -> bool>(
    check: C,
    text: &str,
    a: bool,
    other: G,
    value: F,
    b: bool,
)
    ensures
        checks_text(check) && call_ensures(check, (text,), a) ==> text_checked(check, text@) == a,
        checks_value::<F, G>(other) && call_ensures(other, (value,), b) ==> value_checked(
            other,
            value,
        ) == b,
{
    if checks_text(check) && call_ensures(check, (text,), a) {
        assert(may_answer(check, text@, a));
        assert(may_answer(check, text@, text_checked(check, text@)));
    }
    if checks_value::<F, G>(other) && call_ensures(other, (value,), b) {
        assert(call_ensures(other, (value,), value_checked(other, value)));
    }
}

/// An optional record says what the record says, and nothing where there is
/// none.
pub proof fn law_optional_record<R: View>(r: R)
    ensures
        opt_view(Some(r)) == Some(r@),
        opt_view(None::<R>) == None::<R::V>,
{
}

} // verus!
