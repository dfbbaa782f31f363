//! How writing and reading texts relate.

use vstd::prelude::*;

use crate::text;

verus! {

proof fn lemma_nat_text(n: nat)
    ensures
        text::nat_text(n).len() > 0,
        text::all_digits(text::nat_text(n)),
        text::digits_value(text::nat_text(n)) == n,
    decreases n,
{
    let d = (n % 10) as int;
    assert(text::digit(text::digit_char(d)) == Some(d));
    if n < 10 {
        let s = text::nat_text(n);
        assert(s.drop_last() =~= Seq::empty());
        assert(text::digits_value(s.drop_last()) == 0);
    } else {
        lemma_nat_text(n / 10);
        let s = text::nat_text(n);
        assert(s.drop_last() =~= text::nat_text(n / 10));
        assert forall|i: int| 0 <= i < s.len() implies text::digit(#[trigger] s[i]) is Some by {
            if i < s.len() - 1 {
                assert(s[i] == text::nat_text(n / 10)[i]);
            }
        }
    }
}

/// Reading back a written integer gives the integer.
pub proof fn law_integer_round_trip(v: i64)
    ensures
        text::integer(text::int_text(v as int)) == Some(v),
{
    let s = text::int_text(v as int);
    if v < 0 {
        let digits = text::nat_text((-v) as nat);
        lemma_nat_text((-v) as nat);
        assert(s.skip(1) =~= digits);
    } else {
        lemma_nat_text(v as nat);
        assert(text::digit(s[0]) is Some);
    }
}

/// A written integer holds digits and a sign only.
pub proof fn lemma_int_text_chars(v: int, c: char)
    requires
        text::digit(c) is None,
        c != '-',
    ensures
        !text::int_text(v).contains(c),
{
    let s = text::int_text(v);
    if v < 0 {
        lemma_nat_text((-v) as nat);
        assert forall|i: int| 0 <= i < s.len() implies s[i] != c by {
            if i > 0 {
                assert(s[i] == text::nat_text((-v) as nat)[i - 1]);
            }
        }
    } else {
        lemma_nat_text(v as nat);
    }
}

/// A part that holds no separator and is put behind one comes out again.
pub proof fn lemma_split_push(a: Seq<char>, b: Seq<char>, sep: char)
    requires
        !b.contains(sep),
    ensures
        text::split(a.push(sep) + b, sep) == text::split(a, sep).push(b),
    decreases b.len(),
{
    let s = a.push(sep) + b;
    if b.len() == 0 {
        assert(s =~= a.push(sep));
        assert(s.drop_last() =~= a);
        assert(b =~= Seq::empty());
    } else {
        assert(s.drop_last() =~= a.push(sep) + b.drop_last());
        assert(b[b.len() - 1] != sep);
        assert forall|i: int| 0 <= i < b.drop_last().len() implies b.drop_last()[i] != sep by {
            assert(b[i] != sep);
        }
        lemma_split_push(a, b.drop_last(), sep);
        let parts = text::split(a, sep).push(b.drop_last());
        assert(parts.drop_last() =~= text::split(a, sep));
        assert(b.drop_last().push(b.last()) =~= b);
    }
}

/// A text without a separator is its own single part.
pub proof fn lemma_split_single(b: Seq<char>, sep: char)
    requires
        !b.contains(sep),
    ensures
        text::split(b, sep) == seq![b],
    decreases b.len(),
{
    if b.len() == 0 {
        assert(b =~= Seq::empty());
    } else {
        assert(b[b.len() - 1] != sep);
        assert forall|i: int| 0 <= i < b.drop_last().len() implies b.drop_last()[i] != sep by {
            assert(b[i] != sep);
        }
        lemma_split_single(b.drop_last(), sep);
        assert(b.drop_last().push(b.last()) =~= b);
        assert(text::split(b, sep) =~= seq![b]);
    }
}

/// There is always at least one part.
pub proof fn lemma_split_len(s: Seq<char>, sep: char)
    ensures
        text::split(s, sep).len() >= 1,
    decreases s.len(),
{
    if s.len() > 0 {
        lemma_split_len(s.drop_last(), sep);
    }
}

/// The parts of a text, joined again, are the text.
pub proof fn law_split_and_join(s: Seq<char>, sep: char)
    ensures
        text::joined(text::split(s, sep), sep) == s,
    decreases s.len(),
{
    lemma_split_len(s, sep);
    if s.len() > 0 {
        let front = s.drop_last();
        law_split_and_join(front, sep);
        lemma_split_len(front, sep);
        let parts = text::split(front, sep);
        if s.last() == sep {
            assert(text::split(s, sep).drop_last() =~= parts);
            assert(text::joined(text::split(s, sep), sep) =~= s);
        } else {
            let all = text::split(s, sep);
            assert(all.drop_last() =~= parts.drop_last());
            if parts.len() == 1 {
                assert(all[0] =~= parts[0].push(s.last()));
            }
            assert(text::joined(all, sep) =~= text::joined(parts, sep).push(s.last()));
            assert(s =~= front.push(s.last()));
        }
    } else {
        assert(text::split(s, sep)[0] =~= s);
    }
}

/// Parts that hold no separator come out of the joined text again.
pub proof fn law_join_and_split(parts: Seq<Seq<char>>, sep: char)
    requires
        parts.len() > 0,
        forall|i: int| 0 <= i < parts.len() ==> !(#[trigger] parts[i]).contains(sep),
    ensures
        text::split(text::joined(parts, sep), sep) == parts,
    decreases parts.len(),
{
    if parts.len() == 1 {
        assert(!parts[0].contains(sep));
        lemma_split_single(parts[0], sep);
        assert(parts =~= seq![parts[0]]);
    } else {
        let front = parts.drop_last();
        assert forall|i: int| 0 <= i < front.len() implies !(#[trigger] front[i]).contains(sep) by {
            assert(!parts[i].contains(sep));
        }
        law_join_and_split(front, sep);
        assert(!parts[parts.len() - 1].contains(sep));
        lemma_split_push(text::joined(front, sep), parts.last(), sep);
        assert(front.push(parts.last()) =~= parts);
    }
}

proof fn lemma_joined_prefix(parts: Seq<Seq<char>>, sep: char, k: int)
    requires
        0 <= k <= parts.len(),
    ensures
        text::stands_at(text::joined(parts, sep), text::joined(parts.take(k), sep), 0),
    decreases parts.len() - k,
{
    let part = text::joined(parts.take(k), sep);
    let whole = text::joined(parts, sep);
    if k == parts.len() {
        assert(parts.take(k) =~= parts);
        assert(whole.subrange(0, part.len() as int) =~= part);
    } else {
        lemma_joined_prefix(parts, sep, k + 1);
        let next = text::joined(parts.take(k + 1), sep);
        assert(parts.take(k + 1).drop_last() =~= parts.take(k));
        if k == 0 {
            assert(whole.subrange(0, part.len() as int) =~= part);
        } else {
            assert(next =~= part.push(sep) + parts[k]);
            assert(next.subrange(0, part.len() as int) =~= part);
            assert(whole.subrange(0, part.len() as int) =~= whole.subrange(
                0,
                next.len() as int,
            ).subrange(0, part.len() as int));
        }
    }
}

/// Two parts in the middle of a text stand in it one behind the other,
/// between separators.
pub proof fn lemma_middle_parts(s: Seq<char>, sep: char, i: int)
    requires
        0 < i,
        i + 2 < text::split(s, sep).len(),
    ensures
        text::holds(
            s,
            seq![sep] + text::split(s, sep)[i] + seq![sep] + text::split(s, sep)[i + 1]
                + seq![sep],
        ),
{
    let parts = text::split(s, sep);
    law_split_and_join(s, sep);
    lemma_joined_prefix(parts, sep, i + 3);
    let head = text::joined(parts.take(i), sep);
    assert(parts.take(i + 1).drop_last() =~= parts.take(i));
    assert(parts.take(i + 2).drop_last() =~= parts.take(i + 1));
    assert(parts.take(i + 3).drop_last() =~= parts.take(i + 2));
    let middle = seq![sep] + parts[i] + seq![sep] + parts[i + 1] + seq![sep];
    let known = text::joined(parts.take(i + 3), sep);
    assert(text::joined(parts.take(i + 1), sep) == head.push(sep) + parts[i]);
    assert(text::joined(parts.take(i + 2), sep) == text::joined(parts.take(i + 1), sep).push(sep) + parts[i
        + 1]);
    assert(known == text::joined(parts.take(i + 2), sep).push(sep) + parts[i + 2]);
    assert(known =~= head + middle + parts[i + 2]);
    let at = head.len() as int;
    assert(s.subrange(at, at + middle.len()) =~= s.subrange(0, known.len() as int).subrange(
        at,
        at + middle.len(),
    ));
    assert(known.subrange(at, at + middle.len()) =~= middle);
    assert(text::stands_at(s, middle, at));
}

/// Joined texts have one separator between each two, and none around a single
/// one.
pub proof fn law_one_separator_between_parts(
    parts: Seq<Seq<char>>,
    part: Seq<char>,
    sep: char,
)
    ensures
        text::joined(Seq::empty(), sep) == Seq::<char>::empty(),
        text::joined(seq![part], sep) == part,
        parts.len() > 0 ==> text::joined(parts.push(part), sep) == text::joined(parts, sep)
            + seq![sep] + part,
{
    assert(parts.push(part).drop_last() =~= parts);
    if parts.len() > 0 {
        assert(text::joined(parts.push(part), sep) =~= text::joined(parts, sep) + seq![sep]
            + part);
    }
}

/// The parts of a split text hold no separator, and there is always one.
pub proof fn law_parts_hold_no_separator(s: Seq<char>, sep: char)
    ensures
        text::split(s, sep).len() >= 1,
        forall|i: int, j: int|
            0 <= i < text::split(s, sep).len() && 0 <= j < text::split(s, sep)[i].len()
                ==> #[trigger] text::split(s, sep)[i][j] != sep,
    decreases s.len(),
{
    if s.len() > 0 {
        law_parts_hold_no_separator(s.drop_last(), sep);
    }
}

/// What is cut off the end is white space, and what remains ends with none.
pub proof fn law_trimmed_end(s: Seq<char>)
    ensures
        ({
            let r = text::trimmed_end(s);
            &&& r.len() <= s.len()
            &&& r == s.take(r.len() as int)
            &&& r.len() > 0 ==> !text::white_space(r.last())
            &&& forall|i: int| r.len() <= i < s.len() ==> text::white_space(#[trigger] s[i])
        }),
    decreases s.len(),
{
    if s.len() > 0 && text::white_space(s.last()) {
        let front = s.drop_last();
        law_trimmed_end(front);
        let r = text::trimmed_end(s);
        assert(front.take(r.len() as int) =~= s.take(r.len() as int));
        assert forall|i: int| r.len() <= i < s.len() implies text::white_space(
            #[trigger] s[i],
        ) by {
            if i < front.len() {
                assert(s[i] == front[i]);
            }
        }
    } else {
        assert(s.take(s.len() as int) =~= s);
    }
}

/// What is cut off the start is white space, and what remains starts with none.
pub proof fn law_trimmed_start(s: Seq<char>)
    ensures
        ({
            let r = text::trimmed_start(s);
            &&& r.len() <= s.len()
            &&& r == s.skip(s.len() - r.len())
            &&& r.len() > 0 ==> !text::white_space(r.first())
            &&& forall|i: int| 0 <= i < s.len() - r.len() ==> text::white_space(#[trigger] s[i])
        }),
    decreases s.len(),
{
    if s.len() > 0 && text::white_space(s.first()) {
        let rest = s.drop_first();
        law_trimmed_start(rest);
        let r = text::trimmed_start(s);
        assert(rest.skip(rest.len() - r.len()) =~= s.skip(s.len() - r.len()));
        assert forall|i: int| 0 <= i < s.len() - r.len() implies text::white_space(
            #[trigger] s[i],
        ) by {
            if i > 0 {
                assert(s[i] == rest[i - 1]);
            }
        }
    } else {
        assert(s.skip(0) =~= s);
    }
}

/// The code points with the Unicode property White_Space.
pub proof fn law_code_points_of_white_space(c: char)
    ensures
        text::white_space(c) == ({
            let p = c as u32;
            ||| 0x9 <= p <= 0xd
            ||| p == 0x20
            ||| p == 0x85
            ||| p == 0xa0
            ||| p == 0x1680
            ||| 0x2000 <= p <= 0x200a
            ||| 0x2028 <= p <= 0x2029
            ||| p == 0x202f
            ||| p == 0x205f
            ||| p == 0x3000
        }),
{
}

/// Case changes an ASCII text letter by letter and keeps all else.
pub proof fn law_ascii_case(s: Seq<char>, i: int)
    requires
        vstd::utf8::is_ascii_chars(s),
        0 <= i < s.len(),
    ensures
        text::in_upper_case(s).len() == s.len(),
        text::in_lower_case(s).len() == s.len(),
        97 <= s[i] as int <= 122 ==> text::in_upper_case(s)[i] as int == s[i] as int - 32,
        !(97 <= s[i] as int <= 122) ==> text::in_upper_case(s)[i] == s[i],
        65 <= s[i] as int <= 90 ==> text::in_lower_case(s)[i] as int == s[i] as int + 32,
        !(65 <= s[i] as int <= 90) ==> text::in_lower_case(s)[i] == s[i],
{
}

/// The first character in which two texts differ decides which comes first,
/// and a text comes before those that it begins.
pub proof fn law_first_difference_decides(
    common: Seq<char>,
    x: char,
    y: char,
    rest: Seq<char>,
    other: Seq<char>,
)
    ensures
        x < y ==> text::precedes(common + seq![x] + rest, common + seq![y] + other)
            && !text::precedes(common + seq![y] + other, common + seq![x] + rest),
        text::precedes(common, common + seq![x] + rest),
        !text::precedes(common + seq![x] + rest, common),
    decreases common.len(),
{
    let a = common + seq![x] + rest;
    let b = common + seq![y] + other;
    if common.len() > 0 {
        let c = common.drop_first();
        law_first_difference_decides(c, x, y, rest, other);
        assert(a.drop_first() =~= c + seq![x] + rest);
        assert(b.drop_first() =~= c + seq![y] + other);
    } else {
        assert(a.first() == x);
        assert(b.first() == y);
    }
}

/// One more digit makes a number ten times as large and adds its value.
pub proof fn law_value_of_digits(s: Seq<char>, c: char)
    requires
        '0' <= c && c <= '9',
    ensures
        text::digits_value(Seq::empty()) == 0,
        text::digits_value(s.push(c)) == text::digits_value(s) * 10 + (c as int - 48),
{
    assert(s.push(c).drop_last() =~= s);
}

/// An integer is at least one decimal digit, with or without a sign in front,
/// whose value fits in 64 bits. Any other text is none.
pub proof fn law_what_an_integer_is(digits: Seq<char>)
    requires
        digits.len() > 0 ==> digits[0] != '+' && digits[0] != '-',
    ensures
        ({
            let valid = digits.len() > 0 && forall|i: int|
                0 <= i < digits.len() ==> '0' <= #[trigger] digits[i] && digits[i] <= '9';
            let v = text::digits_value(digits);
            &&& text::integer(digits) == (if valid && v <= i64::MAX {
                Some(v as i64)
            } else {
                None::<i64>
            })
            &&& text::integer(seq!['+'] + digits) == (if valid && v <= i64::MAX {
                Some(v as i64)
            } else {
                None::<i64>
            })
            &&& text::integer(seq!['-'] + digits) == (if valid && -v >= i64::MIN {
                Some((-v) as i64)
            } else {
                None::<i64>
            })
        }),
{
    let plus = seq!['+'] + digits;
    let minus = seq!['-'] + digits;
    assert(plus.skip(1) =~= digits);
    assert(minus.skip(1) =~= digits);
    let valid = digits.len() > 0 && forall|i: int|
        0 <= i < digits.len() ==> '0' <= #[trigger] digits[i] && digits[i] <= '9';
    if valid {
        assert forall|i: int| 0 <= i < digits.len() implies text::digit(
            #[trigger] digits[i],
        ) is Some by {}
        lemma_value_is_no_less_than_zero(digits);
    } else if digits.len() > 0 {
        let k = choose|i: int|
            0 <= i < digits.len() && !('0' <= #[trigger] digits[i] && digits[i] <= '9');
        assert(text::digit(digits[k]) is None);
    }
}

proof fn lemma_value_is_no_less_than_zero(s: Seq<char>)
    requires
        text::all_digits(s),
    ensures
        0 <= text::digits_value(s),
    decreases s.len(),
{
    if s.len() > 0 {
        assert(text::all_digits(s.drop_last()));
        assert(text::digit(s[s.len() - 1]) is Some);
        lemma_value_is_no_less_than_zero(s.drop_last());
    }
}

/// A number is written in decimal digits without leading zeros, and a negative
/// one with a sign in front of them.
pub proof fn law_written_number(n: nat)
    ensures
        text::nat_text(n).len() > 0,
        text::all_digits(text::nat_text(n)),
        text::digits_value(text::nat_text(n)) == n,
        n > 0 ==> text::nat_text(n)[0] != '0',
        n == 0 ==> text::nat_text(n) == seq!['0'],
        text::int_text(n as int) == text::nat_text(n),
        n > 0 ==> text::int_text(-(n as int)) == seq!['-'] + text::nat_text(n),
    decreases n,
{
    lemma_nat_text(n);
    if n >= 10 {
        law_written_number(n / 10);
        assert(text::nat_text(n)[0] == text::nat_text(n / 10)[0]);
    }
}

/// A text holds another wherever that stands in it, and nothing else.
pub proof fn law_what_a_text_holds(head: Seq<char>, part: Seq<char>, tail: Seq<char>)
    ensures
        text::stands_at(head + part + tail, part, head.len() as int),
        text::holds(head + part + tail, part),
        forall|s: Seq<char>, at: int| #[trigger]
            text::stands_at(s, part, at) ==> 0 <= at && at + part.len() <= s.len() && s == s.take(
                at,
            ) + part + s.skip(at + part.len()),
{
    let whole = head + part + tail;
    let n = head.len() as int;
    assert(whole.subrange(n, n + part.len()) =~= part);
    assert(text::stands_at(whole, part, n));
    assert forall|s: Seq<char>, at: int| #[trigger] text::stands_at(s, part, at) implies 0 <= at
        && at + part.len() <= s.len() && s == s.take(at) + part + s.skip(at + part.len()) by {
        assert(s =~= s.take(at) + s.subrange(at, at + part.len()) + s.skip(at + part.len()));
    }
}

} // verus!
