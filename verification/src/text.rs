//! Text helpers on `str` and `String`, stated over sequences of characters.

use vstd::prelude::*;
use vstd::utf8::*;

verus! {

/// A price level as the exchange writes it: price text and quantity text.
pub type LevelText = (Seq<char>, Seq<char>);

/// The texts of a list of price levels.
pub open spec fn levels_view(levels: Seq<(String, String)>) -> Seq<LevelText> {
    levels.map_values(|l: (String, String)| (l.0@, l.1@))
}

/// Copies a list of price levels.
pub fn clone_levels(levels: &Vec<(String, String)>) -> (r: Vec<(String, String)>)
    ensures
        r@ == levels@,
        levels_view(r@) == levels_view(levels@),
{
    let mut r: Vec<(String, String)> = Vec::new();
    let mut i: usize = 0;
    while i < levels.len()
        invariant
            i <= levels.len(),
            r@ == levels@.take(i as int),
        decreases levels.len() - i,
    {
        let px = levels[i].0.clone();
        let qty = levels[i].1.clone();
        r.push((px, qty));
        i += 1;
        assert(r@ =~= levels@.take(i as int));
    }
    assert(levels@.take(i as int) =~= levels@);
    r
}

/// Tells whether two texts hold the same characters.
pub fn same_text(a: &str, b: &str) -> (r: bool)
    ensures
        r == (a@ == b@),
{
    let x = a.as_bytes();
    let y = b.as_bytes();
    proof {
        encode_utf8_decode_utf8(a@);
        encode_utf8_decode_utf8(b@);
    }
    if x.len() != y.len() {
        return false;
    }
    let mut i: usize = 0;
    while i < x.len()
        invariant
            i <= x.len(),
            x@ == encode_utf8(a@),
            y@ == encode_utf8(b@),
            x.len() == y.len(),
            forall|j: int| 0 <= j < i ==> x@[j] == y@[j],
        decreases x.len() - i,
    {
        if x[i] != y[i] {
            return false;
        }
        i += 1;
    }
    assert(x@ =~= y@);
    true
}

/// The characters of a text.
pub fn chars_of(s: &str) -> (r: Vec<char>)
    ensures
        r@ == s@,
{
    let mut r: Vec<char> = Vec::new();
    for c in it: s.chars()
        invariant
            r@ == s@.take(it.index() as int),
            it.seq() == s@,
    {
        r.push(c);
        assert(r@ =~= s@.take(it.index() as int + 1));
    }
    assert(s@.take(s@.len() as int) =~= s@);
    r
}

/// The texts of a list.
pub open spec fn texts(parts: Seq<&str>) -> Seq<Seq<char>> {
    parts.map_values(|p: &str| p@)
}

/// The texts of a list of strings.
pub open spec fn strings(parts: Seq<String>) -> Seq<Seq<char>> {
    parts.map_values(|p: String| p@)
}

/// The parts of `s` between the separators.
pub open spec fn split(s: Seq<char>, sep: char) -> Seq<Seq<char>>
    decreases s.len(),
{
    if s.len() == 0 {
        seq![Seq::empty()]
    } else if s.last() == sep {
        split(s.drop_last(), sep).push(Seq::empty())
    } else {
        let parts = split(s.drop_last(), sep);
        parts.drop_last().push(parts.last().push(s.last()))
    }
}

/// Splits a text at every separator.
pub fn split_on<'a>(s: &'a str, sep: char) -> (r: Vec<&'a str>)
    ensures
        texts(r@) == split(s@, sep),
        r@.len() >= 1,
{
    let mut r: Vec<&'a str> = Vec::new();
    let chars = chars_of(s);
    let mut start: usize = 0;
    let mut i: usize = 0;
    assert(s@.subrange(0, 0) =~= Seq::empty());
    assert(texts(r@).push(s@.subrange(0, 0)) =~= seq![Seq::empty()]);
    assert(s@.take(0) =~= Seq::empty());
    while i < chars.len()
        invariant
            chars@ == s@,
            start <= i <= chars@.len(),
            split(s@.take(i as int), sep) == texts(r@).push(s@.subrange(start as int, i as int)),
        decreases chars@.len() - i,
    {
        let ghost before = texts(r@);
        assert(s@.take(i as int + 1).drop_last() =~= s@.take(i as int));
        if chars[i] == sep {
            let part = s.substring_char(start, i);
            r.push(part);
            start = i + 1;
            assert(texts(r@) =~= before.push(part@));
            assert(s@.subrange(start as int, i as int + 1) =~= Seq::empty());
        } else {
            let parts = Ghost(split(s@.take(i as int), sep));
            assert(parts@.drop_last() =~= before);
            assert(s@.subrange(start as int, i as int + 1) =~= s@.subrange(
                start as int,
                i as int,
            ).push(chars@[i as int]));
        }
        i += 1;
    }
    let ghost before = texts(r@);
    let part = s.substring_char(start, chars.len());
    r.push(part);
    assert(texts(r@) =~= before.push(part@));
    assert(s@.take(i as int) =~= s@);
    r
}

/// The parts with a separator between each two.
pub open spec fn joined(parts: Seq<Seq<char>>, sep: char) -> Seq<char>
    decreases parts.len(),
{
    if parts.len() == 0 {
        Seq::empty()
    } else if parts.len() == 1 {
        parts[0]
    } else {
        joined(parts.drop_last(), sep).push(sep) + parts.last()
    }
}

/// Joins texts with a separator between each two.
pub fn join_with(parts: &Vec<&str>, sep: &str) -> (r: String)
    requires
        sep@.len() == 1,
    ensures
        r@ == joined(texts(parts@), sep@[0]),
{
    let mut r = String::new();
    let ghost all = texts(parts@);
    let mut i: usize = 0;
    assert(all.take(0) =~= Seq::empty());
    while i < parts.len()
        invariant
            sep@.len() == 1,
            all == texts(parts@),
            i <= parts@.len(),
            r@ == joined(all.take(i as int), sep@[0]),
        decreases parts@.len() - i,
    {
        assert(all.take(i as int + 1).drop_last() =~= all.take(i as int));
        let ghost before = r@;
        if i > 0 {
            r.append(sep);
        }
        r.append(parts[i]);
        assert(parts@[i as int]@ == all[i as int]);
        assert(sep@ =~= seq![sep@[0]]);
        assert(r@ =~= joined(all.take(i as int + 1), sep@[0]));
        i += 1;
    }
    assert(all.take(i as int) =~= all);
    r
}

/// Where the first `sep` of `s` stands, the length of `s` where there is none.
pub open spec fn first_at(s: Seq<char>, sep: char) -> int
    decreases s.len(),
{
    if s.len() == 0 || s.first() == sep {
        0
    } else {
        1 + first_at(s.drop_first(), sep)
    }
}

/// The first separator stands within the text or, where there is none, at its end.
pub proof fn lemma_first_at_bound(s: Seq<char>, sep: char)
    ensures
        0 <= first_at(s, sep) <= s.len(),
    decreases s.len(),
{
    if s.len() > 0 && s.first() != sep {
        lemma_first_at_bound(s.drop_first(), sep);
    }
}

/// The first separator stands where none stands before it.
pub proof fn lemma_first_at(s: Seq<char>, sep: char, i: int)
    requires
        0 <= i <= s.len(),
        forall|j: int| 0 <= j < i ==> s[j] != sep,
        i == s.len() || s[i] == sep,
    ensures
        first_at(s, sep) == i,
    decreases i,
{
    if i > 0 {
        let rest = s.drop_first();
        assert forall|j: int| 0 <= j < i - 1 implies rest[j] != sep by {
            assert(rest[j] == s[j + 1]);
        }
        lemma_first_at(rest, sep, i - 1);
    }
}

/// Splits a text at its first separator; `None` where there is none.
pub fn split_first<'a>(s: &'a str, sep: char) -> (r: Option<(&'a str, &'a str)>)
    ensures
        match r {
            Some((head, tail)) => {
                &&& first_at(s@, sep) < s@.len()
                &&& head@ == s@.take(first_at(s@, sep))
                &&& tail@ == s@.skip(first_at(s@, sep) + 1)
            },
            None => first_at(s@, sep) == s@.len(),
        },
{
    let chars = chars_of(s);
    let n: usize = chars.len();
    let mut i: usize = 0;
    while i < n
        invariant
            chars@ == s@,
            n == chars@.len(),
            i <= n,
            forall|j: int| 0 <= j < i ==> s@[j] != sep,
        decreases n - i,
    {
        if chars[i] == sep {
            proof {
                lemma_first_at(s@, sep, i as int);
            }
            let head = s.substring_char(0, i);
            let tail = s.substring_char(i + 1, n);
            assert(head@ =~= s@.take(i as int));
            assert(tail@ =~= s@.skip(i as int + 1));
            return Some((head, tail));
        }
        i += 1;
    }
    proof {
        lemma_first_at(s@, sep, n as int);
    }
    None
}

/// What stands before the first separator; all of the text where there is none.
pub fn before_first<'a>(s: &'a str, sep: char) -> (r: &'a str)
    ensures
        r@ == s@.take(first_at(s@, sep)),
{
    match split_first(s, sep) {
        Some((head, _)) => head,
        None => {
            assert(s@.take(s@.len() as int) =~= s@);
            s
        },
    }
}

/// Tells whether `part` stands in `s` from position `at` on.
pub open spec fn stands_at(s: Seq<char>, part: Seq<char>, at: int) -> bool {
    0 <= at && at + part.len() <= s.len() && s.subrange(at, at + part.len()) == part
}

/// Tells whether `part` stands anywhere in `s`.
pub open spec fn holds(s: Seq<char>, part: Seq<char>) -> bool {
    exists|at: int| #[trigger] stands_at(s, part, at)
}

/// Tells whether a text holds another one.
pub fn contains_text(s: &str, part: &str) -> (r: bool)
    ensures
        r == holds(s@, part@),
{
    let whole = chars_of(s);
    let sought = chars_of(part);
    let n: usize = whole.len();
    let m: usize = sought.len();
    if m > n {
        return false;
    }
    let mut at: usize = 0;
    while at <= n - m
        invariant
            whole@ == s@,
            sought@ == part@,
            n == whole@.len(),
            m == sought@.len(),
            m <= n,
            at <= n - m + 1,
            forall|k: int| 0 <= k < at ==> !#[trigger] stands_at(s@, part@, k),
        decreases n - m + 1 - at,
    {
        let mut j: usize = 0;
        while j < m && whole[at + j] == sought[j]
            invariant
                whole@ == s@,
                sought@ == part@,
                n == whole@.len(),
                m == sought@.len(),
                at + m <= n,
                j <= m,
                forall|k: int| 0 <= k < j ==> s@[at + k] == part@[k],
            decreases m - j,
        {
            j += 1;
        }
        if j == m {
            assert(s@.subrange(at as int, at + m) =~= part@);
            assert(stands_at(s@, part@, at as int));
            return true;
        }
        assert(s@.subrange(at as int, at + m)[j as int] == s@[at + j]);
        assert(!stands_at(s@, part@, at as int));
        at += 1;
    }
    assert forall|k: int| !stands_at(s@, part@, k) by {}
    false
}

/// Tells whether a text begins with another one.
pub fn begins_with(s: &str, part: &str) -> (r: bool)
    ensures
        r == stands_at(s@, part@, 0),
{
    let whole = chars_of(s);
    let sought = chars_of(part);
    if sought.len() > whole.len() {
        return false;
    }
    let mut j: usize = 0;
    while j < sought.len()
        invariant
            whole@ == s@,
            sought@ == part@,
            sought@.len() <= whole@.len(),
            j <= sought@.len(),
            forall|k: int| 0 <= k < j ==> s@[k] == part@[k],
        decreases sought@.len() - j,
    {
        if whole[j] != sought[j] {
            assert(s@.subrange(0, part@.len() as int)[j as int] == s@[j as int]);
            return false;
        }
        j += 1;
    }
    assert(s@.subrange(0, part@.len() as int) =~= part@);
    true
}

/// Tells whether a text ends with another one.
pub fn ends_with(s: &str, part: &str) -> (r: bool)
    ensures
        r == stands_at(s@, part@, s@.len() - part@.len()),
{
    let whole = chars_of(s);
    let sought = chars_of(part);
    if sought.len() > whole.len() {
        return false;
    }
    let from: usize = whole.len() - sought.len();
    let mut j: usize = 0;
    while j < sought.len()
        invariant
            whole@ == s@,
            sought@ == part@,
            from + sought@.len() == whole@.len(),
            whole@.len() <= usize::MAX,
            j <= sought@.len(),
            forall|k: int| 0 <= k < j ==> s@[from + k] == part@[k],
        decreases sought@.len() - j,
    {
        if whole[from + j] != sought[j] {
            assert(s@.subrange(from as int, s@.len() as int)[j as int] == s@[from + j]);
            return false;
        }
        j += 1;
    }
    assert(s@.subrange(from as int, s@.len() as int) =~= part@);
    true
}

/// The character has the Unicode property White_Space.
pub open spec fn white_space(c: char) -> bool {
    ||| '\u{9}' <= c && c <= '\u{d}'
    ||| c == ' '
    ||| c == '\u{85}'
    ||| c == '\u{a0}'
    ||| c == '\u{1680}'
    ||| '\u{2000}' <= c && c <= '\u{200a}'
    ||| c == '\u{2028}'
    ||| c == '\u{2029}'
    ||| c == '\u{202f}'
    ||| c == '\u{205f}'
    ||| c == '\u{3000}'
}

/// Tells whether a character has the Unicode property White_Space.
pub fn is_white_space(c: char) -> (r: bool)
    ensures
        r == white_space(c),
{
    ('\u{9}' <= c && c <= '\u{d}') || c == ' ' || c == '\u{85}' || c == '\u{a0}' || c
        == '\u{1680}' || ('\u{2000}' <= c && c <= '\u{200a}') || c == '\u{2028}' || c
        == '\u{2029}' || c == '\u{202f}' || c == '\u{205f}' || c == '\u{3000}'
}

/// The text without white space at its end.
pub open spec fn trimmed_end(s: Seq<char>) -> Seq<char>
    decreases s.len(),
{
    if s.len() > 0 && white_space(s.last()) {
        trimmed_end(s.drop_last())
    } else {
        s
    }
}

/// The text without white space at its start.
pub open spec fn trimmed_start(s: Seq<char>) -> Seq<char>
    decreases s.len(),
{
    if s.len() > 0 && white_space(s.first()) {
        trimmed_start(s.drop_first())
    } else {
        s
    }
}

/// Removes white space at the end.
pub fn trim_end<'a>(s: &'a str) -> (r: &'a str)
    ensures
        r@ == trimmed_end(s@),
{
    let chars = chars_of(s);
    let mut n: usize = chars.len();
    assert(s@.take(n as int) =~= s@);
    while n > 0
        invariant
            chars@ == s@,
            n <= chars@.len(),
            trimmed_end(s@.take(n as int)) == trimmed_end(s@),
        ensures
            n <= chars@.len(),
            trimmed_end(s@) == s@.take(n as int),
        decreases n,
    {
        if !is_white_space(chars[n - 1]) {
            break;
        }
        assert(s@.take(n as int).drop_last() =~= s@.take(n - 1));
        n -= 1;
    }
    let r = s.substring_char(0, n);
    assert(r@ =~= s@.take(n as int));
    r
}

/// Removes white space at the start.
pub fn trim_start<'a>(s: &'a str) -> (r: &'a str)
    ensures
        r@ == trimmed_start(s@),
{
    let chars = chars_of(s);
    let n: usize = chars.len();
    let mut i: usize = 0;
    assert(s@.skip(0) =~= s@);
    while i < n
        invariant
            chars@ == s@,
            n == chars@.len(),
            i <= n,
            trimmed_start(s@.skip(i as int)) == trimmed_start(s@),
        ensures
            i <= n,
            trimmed_start(s@) == s@.skip(i as int),
        decreases n - i,
    {
        if !is_white_space(chars[i]) {
            break;
        }
        assert(s@.skip(i as int).drop_first() =~= s@.skip(i as int + 1));
        i += 1;
    }
    let r = s.substring_char(i, n);
    assert(r@ =~= s@.skip(i as int));
    r
}

/// Removes white space at both ends.
pub fn trim<'a>(s: &'a str) -> (r: &'a str)
    ensures
        r@ == trimmed_end(trimmed_start(s@)),
{
    trim_end(trim_start(s))
}

/// The upper case form of a text by the Unicode property Uppercase.
pub uninterp spec fn upper_case(s: Seq<char>) -> Seq<char>;

/// The lower case form of a text by the Unicode property Lowercase.
pub uninterp spec fn lower_case(s: Seq<char>) -> Seq<char>;

/// The upper case form of an ASCII character.
pub open spec fn ascii_upper(c: char) -> char {
    if 'a' <= c && c <= 'z' {
        (c as u32 - 32) as char
    } else {
        c
    }
}

/// The lower case form of an ASCII character.
pub open spec fn ascii_lower(c: char) -> char {
    if 'A' <= c && c <= 'Z' {
        (c as u32 + 32) as char
    } else {
        c
    }
}

/// The upper case form of an ASCII text.
pub open spec fn ascii_in_upper_case(s: Seq<char>) -> Seq<char> {
    s.map_values(|c: char| ascii_upper(c))
}

/// The lower case form of an ASCII text.
pub open spec fn ascii_in_lower_case(s: Seq<char>) -> Seq<char> {
    s.map_values(|c: char| ascii_lower(c))
}

/// The upper case form of a text, letter by letter where it is ASCII.
pub open spec fn in_upper_case(s: Seq<char>) -> Seq<char> {
    if vstd::utf8::is_ascii_chars(s) {
        ascii_in_upper_case(s)
    } else {
        upper_case(s)
    }
}

/// The lower case form of a text, letter by letter where it is ASCII.
pub open spec fn in_lower_case(s: Seq<char>) -> Seq<char> {
    if vstd::utf8::is_ascii_chars(s) {
        ascii_in_lower_case(s)
    } else {
        lower_case(s)
    }
}

/// `str::to_uppercase`: the upper case form by the Unicode property
/// Uppercase, which depends on the text alone. In an ASCII text the letters
/// `a` to `z` become `A` to `Z` and all else stays.
#[verifier::external_body]
pub(crate) fn to_upper(s: &str) -> (r: String)
    ensures
        r@ == upper_case(s@),
        vstd::utf8::is_ascii_chars(s@) ==> r@ == ascii_in_upper_case(s@),
{
    s.to_uppercase()
}

/// `str::to_lowercase`: the lower case form by the Unicode property
/// Lowercase, which depends on the text alone. In an ASCII text the letters
/// `A` to `Z` become `a` to `z` and all else stays.
#[verifier::external_body]
pub(crate) fn to_lower(s: &str) -> (r: String)
    ensures
        r@ == lower_case(s@),
        vstd::utf8::is_ascii_chars(s@) ==> r@ == ascii_in_lower_case(s@),
{
    s.to_lowercase()
}

/// `a` comes before `b` in the order of their characters from the front; a
/// text comes before those that it begins.
pub open spec fn precedes(a: Seq<char>, b: Seq<char>) -> bool
    decreases a.len(),
{
    if b.len() == 0 {
        false
    } else if a.len() == 0 {
        true
    } else if a.first() == b.first() {
        precedes(a.drop_first(), b.drop_first())
    } else {
        a.first() < b.first()
    }
}

/// No text comes before itself.
pub proof fn lemma_precedes_irreflexive(a: Seq<char>)
    ensures
        !precedes(a, a),
    decreases a.len(),
{
    if a.len() > 0 {
        lemma_precedes_irreflexive(a.drop_first());
    }
}

/// Tells whether a text comes before another.
pub fn comes_before(a: &str, b: &str) -> (r: bool)
    ensures
        r == precedes(a@, b@),
{
    let left = chars_of(a);
    let right = chars_of(b);
    let mut i: usize = 0;
    assert(a@.skip(0) =~= a@);
    assert(b@.skip(0) =~= b@);
    while i < left.len() && i < right.len() && left[i] == right[i]
        invariant
            left@ == a@,
            right@ == b@,
            i <= left@.len(),
            i <= right@.len(),
            precedes(a@, b@) == precedes(a@.skip(i as int), b@.skip(i as int)),
        decreases left@.len() - i,
    {
        assert(a@.skip(i as int).drop_first() =~= a@.skip(i as int + 1));
        assert(b@.skip(i as int).drop_first() =~= b@.skip(i as int + 1));
        i += 1;
    }
    if i >= right.len() {
        return false;
    }
    i >= left.len() || left[i] < right[i]
}

/// The value of a decimal digit, `None` for any other character.
pub open spec fn digit(c: char) -> Option<int> {
    if '0' <= c && c <= '9' {
        Some(c as int - '0' as int)
    } else {
        None
    }
}

/// All characters are decimal digits.
pub open spec fn all_digits(s: Seq<char>) -> bool {
    forall|i: int| 0 <= i < s.len() ==> digit(#[trigger] s[i]) is Some
}

/// The number that a run of digits stands for.
pub open spec fn digits_value(s: Seq<char>) -> int
    decreases s.len(),
{
    if s.len() == 0 {
        0
    } else {
        digits_value(s.drop_last()) * 10 + digit(s.last())->0
    }
}

/// The text without its sign.
pub open spec fn unsigned_part(s: Seq<char>) -> Seq<char> {
    if s.len() > 0 && (s[0] == '+' || s[0] == '-') {
        s.skip(1)
    } else {
        s
    }
}

/// The 64-bit integer that a text stands for: an optional sign and at least
/// one digit, within range.
pub open spec fn integer(s: Seq<char>) -> Option<i64> {
    let digits = unsigned_part(s);
    let value = if s.len() > 0 && s[0] == '-' {
        -digits_value(digits)
    } else {
        digits_value(digits)
    };
    if digits.len() > 0 && all_digits(digits) && i64::MIN <= value <= i64::MAX {
        Some(value as i64)
    } else {
        None
    }
}

proof fn lemma_digits_value_grows(s: Seq<char>, i: int)
    requires
        all_digits(s),
        0 <= i <= s.len(),
    ensures
        0 <= digits_value(s.take(i)) <= digits_value(s),
        i < s.len() ==> digits_value(s.take(i)) * 10 <= digits_value(s),
    decreases s.len() - i,
{
    if i < s.len() {
        lemma_digits_value_grows(s, i + 1);
        assert(s.take(i + 1).drop_last() =~= s.take(i));
        assert(digit(s[i]) is Some);
        lemma_digits_value_nonneg(s.take(i));
    } else {
        assert(s.take(i) =~= s);
        lemma_digits_value_nonneg(s);
    }
}

proof fn lemma_digits_value_nonneg(s: Seq<char>)
    requires
        all_digits(s),
    ensures
        0 <= digits_value(s),
    decreases s.len(),
{
    if s.len() > 0 {
        assert(all_digits(s.drop_last()));
        assert(digit(s[s.len() - 1]) is Some);
        lemma_digits_value_nonneg(s.drop_last());
    }
}

/// Reads a 64-bit integer.
pub fn parse_i64(s: &str) -> (r: Option<i64>)
    ensures
        r == integer(s@),
{
    let chars = chars_of(s);
    let n: usize = chars.len();
    let negative: bool = n > 0 && chars[0] == '-';
    let start: usize = if n > 0 && (chars[0] == '-' || chars[0] == '+') {
        1
    } else {
        0
    };
    let ghost digits = unsigned_part(s@);
    assert(digits =~= s@.skip(start as int));
    if start == n {
        return None;
    }
    let mut value: u64 = 0;
    let mut i: usize = start;
    assert(digits.take(0) =~= Seq::empty());
    while i < n
        invariant
            chars@ == s@,
            n == chars@.len(),
            start <= i <= n,
            start < n,
            digits == s@.skip(start as int),
            digits == unsigned_part(s@),
            value <= 9223372036854775809,
            all_digits(digits.take(i - start)),
            value == digits_value(digits.take(i - start)),
        decreases n - i,
    {
        let c = chars[i];
        assert(c == digits[i - start]);
        if !('0' <= c && c <= '9') {
            assert(digit(digits[i - start]) is None);
            return None;
        }
        if value > 922337203685477580 {
            proof {
                if all_digits(digits) {
                    lemma_digits_value_grows(digits, i - start);
                }
            }
            return None;
        }
        value = value * 10 + (c as u64 - '0' as u64);
        proof {
            let k = i - start;
            assert(digits.take(k + 1).drop_last() =~= digits.take(k));
            assert forall|j: int| 0 <= j < k + 1 implies digit(
                #[trigger] digits.take(k + 1)[j],
            ) is Some by {
                if j < k {
                    assert(digits.take(k)[j] == digits.take(k + 1)[j]);
                }
            }
        }
        i += 1;
    }
    assert(digits.take(n - start) =~= digits);
    if negative {
        if value == 9223372036854775808 {
            Some(i64::MIN)
        } else if value < 9223372036854775808 {
            Some(-(value as i64))
        } else {
            None
        }
    } else if value <= 9223372036854775807 {
        Some(value as i64)
    } else {
        None
    }
}

/// The character of a decimal digit.
pub open spec fn digit_char(d: int) -> char {
    (('0' as int + d) as u8) as char
}

/// A natural number in decimal.
pub open spec fn nat_text(n: nat) -> Seq<char>
    decreases n,
{
    if n < 10 {
        seq![digit_char(n as int)]
    } else {
        nat_text(n / 10).push(digit_char((n % 10) as int))
    }
}

/// An integer in decimal, with a leading `-` where it is negative.
pub open spec fn int_text(v: int) -> Seq<char> {
    if v < 0 {
        seq!['-'] + nat_text((-v) as nat)
    } else {
        nat_text(v as nat)
    }
}

fn digit_text(d: u64) -> (r: &'static str)
    requires
        d < 10,
    ensures
        r@ == seq![digit_char(d as int)],
{
    proof {
        reveal_strlit("0");
        reveal_strlit("1");
        reveal_strlit("2");
        reveal_strlit("3");
        reveal_strlit("4");
        reveal_strlit("5");
        reveal_strlit("6");
        reveal_strlit("7");
        reveal_strlit("8");
        reveal_strlit("9");
    }
    let r = if d == 0 {
        "0"
    } else if d == 1 {
        "1"
    } else if d == 2 {
        "2"
    } else if d == 3 {
        "3"
    } else if d == 4 {
        "4"
    } else if d == 5 {
        "5"
    } else if d == 6 {
        "6"
    } else if d == 7 {
        "7"
    } else if d == 8 {
        "8"
    } else {
        "9"
    };
    assert(r@ =~= seq![digit_char(d as int)]);
    r
}

/// Writes a natural number in decimal.
pub fn append_u64(out: &mut String, n: u64)
    ensures
        final(out)@ == old(out)@ + nat_text(n as nat),
    decreases n,
{
    let ghost before = out@;
    if n >= 10 {
        append_u64(out, n / 10);
    }
    out.append(digit_text(n % 10));
    assert(out@ =~= before + nat_text(n as nat));
}

/// Writes an integer in decimal.
pub fn append_i64(out: &mut String, v: i64)
    ensures
        final(out)@ == old(out)@ + int_text(v as int),
{
    let ghost before = out@;
    if v < 0 {
        out.append("-");
        proof {
            reveal_strlit("-");
            assert("-"@ =~= seq!['-']);
        }
        let magnitude: u64 = if v == i64::MIN {
            9223372036854775808
        } else {
            (-v) as u64
        };
        append_u64(out, magnitude);
        assert(out@ =~= before + int_text(v as int));
    } else {
        append_u64(out, v as u64);
    }
}

/// An integer in decimal.
pub fn i64_to_text(v: i64) -> (r: String)
    ensures
        r@ == int_text(v as int),
{
    let mut r = String::new();
    append_i64(&mut r, v);
    assert(r@ =~= int_text(v as int));
    r
}

} // verus!
