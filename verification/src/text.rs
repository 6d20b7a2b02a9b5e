//! Text as a sequence of characters: searching, cutting, trimming and joining.

use vstd::prelude::*;
use vstd::string::*;

verus! {

/// The part of `s` before the first `c`, or all of `s` where there is none.
pub open spec fn before(s: Seq<char>, c: char) -> Seq<char> {
    match s.index_of_first(c) {
        Some(i) => s.take(i),
        None => s,
    }
}

/// The part of `s` after the first `c`, if there is one.
pub open spec fn after(s: Seq<char>, c: char) -> Option<Seq<char>> {
    match s.index_of_first(c) {
        Some(i) => Some(s.skip(i + 1)),
        None => None,
    }
}

/// The second of the fields into which `c` divides `s`, if there is one.
pub open spec fn second_field(s: Seq<char>, c: char) -> Option<Seq<char>> {
    match after(s, c) {
        Some(rest) => Some(before(rest, c)),
        None => None,
    }
}

/// Whether `part` stands in `s` at position `at`.
pub open spec fn occurs_at(s: Seq<char>, part: Seq<char>, at: int) -> bool {
    0 <= at && at + part.len() <= s.len() && s.subrange(at, at + part.len()) == part
}

/// Whether `part` stands somewhere in `s`.
pub open spec fn occurs(s: Seq<char>, part: Seq<char>) -> bool {
    exists|at: int| occurs_at(s, part, at)
}

/// `s` with every leading repetition of `part` removed.
pub open spec fn without_leading(s: Seq<char>, part: Seq<char>) -> Seq<char>
    decreases s.len(),
{
    if part.len() > 0 && part.is_prefix_of(s) {
        without_leading(s.skip(part.len() as int), part)
    } else {
        s
    }
}

/// Whether `c` has the Unicode property White_Space.
pub open spec fn is_white_space(c: char) -> bool {
    ||| '\u{9}' <= c <= '\u{d}'
    ||| c == ' '
    ||| c == '\u{85}'
    ||| c == '\u{a0}'
    ||| c == '\u{1680}'
    ||| '\u{2000}' <= c <= '\u{200a}'
    ||| c == '\u{2028}'
    ||| c == '\u{2029}'
    ||| c == '\u{202f}'
    ||| c == '\u{205f}'
    ||| c == '\u{3000}'
}

/// Whether `s` is nothing but white space.
pub open spec fn is_blank(s: Seq<char>) -> bool {
    forall|j: int| 0 <= j < s.len() ==> is_white_space(#[trigger] s[j])
}

/// `s` without the white space at its start.
pub open spec fn trimmed_start(s: Seq<char>) -> Seq<char>
    decreases s.len(),
{
    if s.len() > 0 && is_white_space(s[0]) {
        trimmed_start(s.skip(1))
    } else {
        s
    }
}

/// `s` without the white space at its end.
pub open spec fn trimmed_end(s: Seq<char>) -> Seq<char>
    decreases s.len(),
{
    if s.len() > 0 && is_white_space(s.last()) {
        trimmed_end(s.drop_last())
    } else {
        s
    }
}

/// `s` without the white space at either end.
pub open spec fn trimmed(s: Seq<char>) -> Seq<char> {
    trimmed_end(trimmed_start(s))
}

/// Whether `a` comes before `b`, or equals it, in the order of their characters' code points.
pub open spec fn text_le(a: Seq<char>, b: Seq<char>) -> bool
    decreases a.len(),
{
    if a.len() == 0 {
        true
    } else if b.len() == 0 {
        false
    } else if a[0] != b[0] {
        a[0] < b[0]
    } else {
        text_le(a.skip(1), b.skip(1))
    }
}

/// The character for the digit `d`.
pub open spec fn digit(d: nat) -> char {
    ('0' as nat + d) as char
}

/// `n` in decimal notation.
pub open spec fn decimal(n: nat) -> Seq<char>
    decreases n,
{
    if n < 10 {
        seq![digit(n)]
    } else {
        decimal(n / 10).push(digit(n % 10))
    }
}

/// Where the first `c` of `s` is.
pub proof fn first_position(s: Seq<char>, c: char, i: int)
    requires
        0 <= i < s.len(),
        s[i] == c,
        forall|j: int| 0 <= j < i ==> s[j] != c,
    ensures
        s.index_of_first(c) == Some(i),
{
    s.index_of_first_ensures(c);
    assert(s.contains(c));
}

/// Where the last `c` of `s` is.
pub proof fn last_position(s: Seq<char>, c: char, i: int)
    requires
        0 <= i < s.len(),
        s[i] == c,
        forall|j: int| i < j < s.len() ==> s[j] != c,
    ensures
        s.index_of_last(c) == Some(i),
{
    s.index_of_last_ensures(c);
    assert(s.contains(c));
}

/// A character that does not occur has no position.
pub proof fn no_position(s: Seq<char>, c: char)
    requires
        !s.contains(c),
    ensures
        s.index_of_first(c) is None,
        s.index_of_last(c) is None,
{
    s.index_of_first_ensures(c);
    s.index_of_last_ensures(c);
}

/// `char::is_whitespace` of the standard library: true of the characters with the Unicode
/// property White_Space, which are the ones that [`is_white_space`] lists.
pub assume_specification[ char::is_whitespace ](c: char) -> (white: bool)
    ensures
        white == is_white_space(c),
;

/// The characters of `s`, one by one.
pub fn chars_of(s: &str) -> (chars: Vec<char>)
    ensures
        chars@ == s@,
{
    let mut chars: Vec<char> = Vec::new();
    for c in it: s.chars()
        invariant
            it.seq() == s@,
            chars@ == s@.take(it.index()),
    {
        chars.push(c);
    }
    chars
}

/// The position of the first `c` in `s`.
pub fn find_char(s: &str, c: char) -> (found: Option<usize>)
    ensures
        match found {
            Some(i) => s@.index_of_first(c) == Some(i as int) && i < s@.len(),
            None => s@.index_of_first(c) is None,
        },
{
    let chars = chars_of(s);
    proof {
        s@.index_of_first_ensures(c);
    }
    let mut i: usize = 0;
    while i < chars.len()
        invariant
            chars@ == s@,
            i <= chars.len(),
            forall|j: int| 0 <= j < i ==> s@[j] != c,
            match s@.index_of_first(c) {
                Some(index) => 0 <= index < s@.len() && s@[index] == c && (forall|j: int|
                    0 <= j < index ==> s@[j] != c),
                None => !s@.contains(c),
            },
        decreases chars.len() - i,
    {
        if chars[i] == c {
            assert(s@.contains(c));
            return Some(i);
        }
        i += 1;
    }
    None
}

/// The position of the last `c` in `s`.
pub fn rfind_char(s: &str, c: char) -> (found: Option<usize>)
    ensures
        match found {
            Some(i) => s@.index_of_last(c) == Some(i as int) && i < s@.len(),
            None => s@.index_of_last(c) is None,
        },
{
    let chars = chars_of(s);
    proof {
        s@.index_of_last_ensures(c);
    }
    let mut i: usize = chars.len();
    while i > 0
        invariant
            chars@ == s@,
            i <= chars.len(),
            forall|j: int| i <= j < s@.len() ==> s@[j] != c,
            match s@.index_of_last(c) {
                Some(index) => 0 <= index < s@.len() && s@[index] == c && (forall|j: int|
                    index < j < s@.len() ==> s@[j] != c),
                None => !s@.contains(c),
            },
        decreases i,
    {
        i -= 1;
        if chars[i] == c {
            assert(s@.contains(c));
            return Some(i);
        }
    }
    None
}

/// Whether `c` occurs in `s`.
pub fn has_char(s: &str, c: char) -> (found: bool)
    ensures
        found == s@.contains(c),
{
    proof {
        s@.index_of_first_ensures(c);
    }
    find_char(s, c).is_some()
}

/// Whether `a` and `b` hold the same characters.
pub fn same_text(a: &str, b: &str) -> (same: bool)
    ensures
        same == (a@ == b@),
{
    let left = chars_of(a);
    let right = chars_of(b);
    if left.len() != right.len() {
        return false;
    }
    let mut i: usize = 0;
    while i < left.len()
        invariant
            left@ == a@,
            right@ == b@,
            left.len() == right.len(),
            i <= left.len(),
            forall|j: int| 0 <= j < i ==> a@[j] == b@[j],
        decreases left.len() - i,
    {
        if left[i] != right[i] {
            return false;
        }
        i += 1;
    }
    assert(a@ =~= b@);
    true
}

/// Whether `part` stands in `chars` at position `at`.
fn matches_at(chars: &Vec<char>, part: &Vec<char>, at: usize) -> (matched: bool)
    requires
        at + part.len() <= chars.len(),
    ensures
        matched == occurs_at(chars@, part@, at as int),
{
    let mut i: usize = 0;
    while i < part.len()
        invariant
            at + part.len() <= chars.len(),
            i <= part.len(),
            forall|j: int| 0 <= j < i ==> chars@[at + j] == part@[j],
        decreases part.len() - i,
    {
        if chars[at + i] != part[i] {
            assert(chars@.subrange(at as int, at + part@.len())[i as int] != part@[i as int]);
            return false;
        }
        i += 1;
    }
    assert(chars@.subrange(at as int, at + part@.len()) =~= part@);
    true
}

/// Whether `s` begins with `part`.
pub fn starts_with(s: &str, part: &str) -> (found: bool)
    ensures
        found == part@.is_prefix_of(s@),
{
    let chars = chars_of(s);
    let wanted = chars_of(part);
    if wanted.len() > chars.len() {
        return false;
    }
    matches_at(&chars, &wanted, 0)
}

/// Whether `part` stands somewhere in `s`.
pub fn has_text(s: &str, part: &str) -> (found: bool)
    ensures
        found == occurs(s@, part@),
{
    let chars = chars_of(s);
    let wanted = chars_of(part);
    let mut at: usize = 0;
    while wanted.len() <= chars.len() - at
        invariant
            chars@ == s@,
            wanted@ == part@,
            at <= chars.len(),
            forall|j: int| 0 <= j < at ==> !occurs_at(s@, part@, j),
        decreases chars.len() - at,
    {
        if matches_at(&chars, &wanted, at) {
            return true;
        }
        if at == chars.len() {
            return false;
        }
        at += 1;
    }
    false
}

/// The part of `s` before the first `c`, or all of `s`.
pub fn text_before(s: &str, c: char) -> (part: &str)
    ensures
        part@ == before(s@, c),
{
    match find_char(s, c) {
        Some(i) => s.substring_char(0, i),
        None => s,
    }
}

/// The part of `s` after the first `c`, if there is one.
pub fn text_after(s: &str, c: char) -> (part: Option<&str>)
    ensures
        match part {
            Some(rest) => after(s@, c) == Some(rest@),
            None => after(s@, c) is None,
        },
{
    match find_char(s, c) {
        Some(i) => {
            let len = s.unicode_len();
            Some(s.substring_char(i + 1, len))
        },
        None => None,
    }
}

/// The second of the fields into which `c` divides `s`, if there is one.
pub fn text_second_field(s: &str, c: char) -> (part: Option<&str>)
    ensures
        match part {
            Some(field) => second_field(s@, c) == Some(field@),
            None => second_field(s@, c) is None,
        },
{
    match text_after(s, c) {
        Some(rest) => Some(text_before(rest, c)),
        None => None,
    }
}

/// `s` with every leading repetition of `part` removed.
pub fn strip_leading<'a>(s: &'a str, part: &str) -> (rest: &'a str)
    ensures
        rest@ == without_leading(s@, part@),
{
    let chars = chars_of(s);
    let wanted = chars_of(part);
    let mut at: usize = 0;
    assert(s@.skip(0) =~= s@);
    while wanted.len() > 0 && wanted.len() <= chars.len() - at && matches_at(&chars, &wanted, at)
        invariant
            chars@ == s@,
            wanted@ == part@,
            at <= chars.len(),
            without_leading(s@, part@) == without_leading(s@.skip(at as int), part@),
        decreases chars.len() - at,
    {
        assert(s@.skip(at as int).subrange(0, part@.len() as int) =~= s@.subrange(
            at as int,
            at + part@.len(),
        ));
        assert(s@.skip(at as int).skip(part@.len() as int) =~= s@.skip(at + part@.len()));
        at += wanted.len();
    }
    assert(part@.is_prefix_of(s@.skip(at as int)) ==> s@.skip(at as int).subrange(
        0,
        part@.len() as int,
    ) =~= s@.subrange(at as int, at + part@.len()));
    s.substring_char(at, chars.len())
}

/// `s` without the white space at its start.
pub fn trim_start(s: &str) -> (rest: &str)
    ensures
        rest@ == trimmed_start(s@),
{
    let chars = chars_of(s);
    let mut at: usize = 0;
    assert(s@.skip(0) =~= s@);
    while at < chars.len() && chars[at].is_whitespace()
        invariant
            chars@ == s@,
            at <= chars.len(),
            trimmed_start(s@) == trimmed_start(s@.skip(at as int)),
        decreases chars.len() - at,
    {
        assert(s@.skip(at as int).skip(1) =~= s@.skip(at + 1));
        at += 1;
    }
    s.substring_char(at, chars.len())
}

/// `s` without the white space at its end.
pub fn trim_end(s: &str) -> (rest: &str)
    ensures
        rest@ == trimmed_end(s@),
{
    let chars = chars_of(s);
    let mut end: usize = chars.len();
    assert(s@.take(end as int) =~= s@);
    while end > 0 && chars[end - 1].is_whitespace()
        invariant
            chars@ == s@,
            end <= chars.len(),
            trimmed_end(s@) == trimmed_end(s@.take(end as int)),
        decreases end,
    {
        assert(s@.take(end as int).drop_last() =~= s@.take(end - 1));
        end -= 1;
    }
    s.substring_char(0, end)
}

/// `s` without the white space at either end.
pub fn trim(s: &str) -> (rest: &str)
    ensures
        rest@ == trimmed(s@),
{
    trim_end(trim_start(s))
}

/// Whether `a` comes before `b`, or equals it.
pub fn text_at_most(a: &str, b: &str) -> (le: bool)
    ensures
        le == text_le(a@, b@),
{
    let left = chars_of(a);
    let right = chars_of(b);
    let mut i: usize = 0;
    assert(a@.skip(0) =~= a@);
    assert(b@.skip(0) =~= b@);
    while i < left.len() && i < right.len()
        invariant
            left@ == a@,
            right@ == b@,
            i <= left.len(),
            i <= right.len(),
            text_le(a@, b@) == text_le(a@.skip(i as int), b@.skip(i as int)),
        decreases left.len() - i,
    {
        if left[i] != right[i] {
            return left[i] < right[i];
        }
        assert(a@.skip(i as int).skip(1) =~= a@.skip(i + 1));
        assert(b@.skip(i as int).skip(1) =~= b@.skip(i + 1));
        i += 1;
    }
    i == left.len()
}

/// The order of texts holds between every text and itself.
pub proof fn text_le_reflexive(a: Seq<char>)
    ensures
        text_le(a, a),
    decreases a.len(),
{
    if a.len() > 0 {
        text_le_reflexive(a.skip(1));
    }
}

/// Of two texts, one comes before the other or equals it.
pub proof fn text_le_total(a: Seq<char>, b: Seq<char>)
    ensures
        text_le(a, b) || text_le(b, a),
    decreases a.len(),
{
    if a.len() > 0 && b.len() > 0 {
        text_le_total(a.skip(1), b.skip(1));
    }
}

/// The order of texts is transitive.
pub proof fn text_le_transitive(a: Seq<char>, b: Seq<char>, c: Seq<char>)
    requires
        text_le(a, b),
        text_le(b, c),
    ensures
        text_le(a, c),
    decreases a.len(),
{
    if a.len() > 0 && b.len() > 0 && c.len() > 0 && a[0] == b[0] && b[0] == c[0] {
        text_le_transitive(a.skip(1), b.skip(1), c.skip(1));
    }
}

/// Two texts that each come before the other are equal.
pub proof fn text_le_antisymmetric(a: Seq<char>, b: Seq<char>)
    requires
        text_le(a, b),
        text_le(b, a),
    ensures
        a == b,
    decreases a.len(),
{
    if a.len() > 0 && b.len() > 0 {
        text_le_antisymmetric(a.skip(1), b.skip(1));
        assert(a =~= seq![a[0]] + a.skip(1));
        assert(b =~= seq![b[0]] + b.skip(1));
    } else {
        assert(a =~= b);
    }
}

/// The text of one digit.
fn digit_text(d: u64) -> (text: &'static str)
    requires
        d < 10,
    ensures
        text@ == seq![digit(d as nat)],
{
    proof {
        reveal_strlit("0");
        reveal_strlit("1");
        reveal_strlit("2");
        reveal_strlit("3");
        reveal_strlit("4");
        reveal_strlit("5");
        reveal_strlit("6");
        reveal_strlit("7");
        reveal_strlit("8");
        reveal_strlit("9");
    }
    match d {
        0 => "0",
        1 => "1",
        2 => "2",
        3 => "3",
        4 => "4",
        5 => "5",
        6 => "6",
        7 => "7",
        8 => "8",
        _ => "9",
    }
}

/// `n` in decimal notation.
pub fn decimal_text(n: u64) -> (text: String)
    ensures
        text@ == decimal(n as nat),
    decreases n,
{
    if n < 10 {
        digit_text(n).to_string()
    } else {
        let mut text = decimal_text(n / 10);
        text.append(digit_text(n % 10));
        assert(text@ =~= decimal(n as nat));
        text
    }
}

/// Decimal notation consists of digits, of which there is at least one.
pub proof fn decimal_is_digits(n: nat)
    ensures
        decimal(n).len() > 0,
        forall|j: int| 0 <= j < decimal(n).len() ==> '0' <= #[trigger] decimal(n)[j] <= '9',
    decreases n,
{
    if n >= 10 {
        decimal_is_digits(n / 10);
        assert forall|j: int| 0 <= j < decimal(n).len() implies '0' <= #[trigger] decimal(n)[j]
            <= '9' by {
            if j < decimal(n / 10).len() {
                assert(decimal(n)[j] == decimal(n / 10)[j]);
            }
        }
    }
}

/// Different numbers differ in decimal notation.
pub proof fn decimal_tells_numbers_apart(a: nat, b: nat)
    requires
        decimal(a) == decimal(b),
    ensures
        a == b,
    decreases a,
{
    decimal_is_digits(a / 10);
    decimal_is_digits(b / 10);
    assert(decimal(a).last() == digit(a % 10));
    assert(decimal(b).last() == digit(b % 10));
    if a >= 10 && b >= 10 {
        assert(decimal(a).drop_last() =~= decimal(a / 10));
        assert(decimal(b).drop_last() =~= decimal(b / 10));
        decimal_tells_numbers_apart(a / 10, b / 10);
    }
}

/// `a` and `b`, one after the other.
pub fn concat2(a: &str, b: &str) -> (text: String)
    ensures
        text@ == a@ + b@,
{
    let mut text = a.to_string();
    text.append(b);
    text
}

/// `a`, `b` and `c`, one after the other.
pub fn concat3(a: &str, b: &str, c: &str) -> (text: String)
    ensures
        text@ == a@ + b@ + c@,
{
    let mut text = concat2(a, b);
    text.append(c);
    text
}

/// `a`, `b`, `c` and `d`, one after the other.
pub fn concat4(a: &str, b: &str, c: &str, d: &str) -> (text: String)
    ensures
        text@ == a@ + b@ + c@ + d@,
{
    let mut text = concat3(a, b, c);
    text.append(d);
    text
}

/// A text divides at the first `c`: `a` stands before it and `b` after it, whatever `b` holds.
/// A text without `c` does not divide.
pub proof fn text_divides_at_the_first(a: Seq<char>, c: char, b: Seq<char>)
    requires
        !a.contains(c),
    ensures
        before(a, c) == a,
        after(a, c) is None,
        second_field(a, c) is None,
        before(a + seq![c] + b, c) == a,
        after(a + seq![c] + b, c) == Some(b),
        second_field(a + seq![c] + b, c) == Some(before(b, c)),
{
    let s = a + seq![c] + b;
    no_position(a, c);
    assert forall|j: int| 0 <= j < a.len() implies s[j] != c by {
        assert(s[j] == a[j]);
    }
    first_position(s, c, a.len() as int);
    assert(s.take(a.len() as int) =~= a);
    assert(s.skip(a.len() as int + 1) =~= b);
}

/// A part occurs in a text if and only if the text is something, the part, and something more.
pub proof fn occurring_is_standing_between(s: Seq<char>, part: Seq<char>)
    ensures
        occurs(s, part) <==> exists|a: Seq<char>, b: Seq<char>| #[trigger] (a + part + b) == s,
{
    if occurs(s, part) {
        let at = choose|at: int| occurs_at(s, part, at);
        assert(s.take(at) + part + s.skip(at + part.len()) =~= s);
    }
    if exists|a: Seq<char>, b: Seq<char>| #[trigger] (a + part + b) == s {
        let (a, b) = choose|a: Seq<char>, b: Seq<char>| #[trigger] (a + part + b) == s;
        assert(s.subrange(a.len() as int, (a.len() + part.len()) as int) =~= part);
        assert(occurs_at(s, part, a.len() as int));
    }
}

/// One more `part` in front makes no difference to what is left without it, and a text that does
/// not start with `part` is left as it is.
pub proof fn leading_parts_are_removed(s: Seq<char>, part: Seq<char>)
    requires
        part.len() > 0,
    ensures
        without_leading(part + s, part) == without_leading(s, part),
        !part.is_prefix_of(s) ==> without_leading(s, part) == s,
{
    let longer = part + s;
    assert(longer.subrange(0, part.len() as int) =~= part);
    assert(longer.skip(part.len() as int) =~= s);
}

/// White space in front of a text that starts with something else is trimmed.
pub proof fn blank_start_is_trimmed(space: Seq<char>, s: Seq<char>)
    requires
        is_blank(space),
        s.len() > 0 ==> !is_white_space(s[0]),
    ensures
        trimmed_start(space + s) == s,
    decreases space.len(),
{
    if space.len() > 0 {
        assert((space + s)[0] == space[0]);
        assert((space + s).skip(1) =~= space.skip(1) + s);
        blank_start_is_trimmed(space.skip(1), s);
    } else {
        assert(space + s =~= s);
    }
}

/// White space behind a text that ends with something else is trimmed.
pub proof fn blank_end_is_trimmed(s: Seq<char>, space: Seq<char>)
    requires
        is_blank(space),
        s.len() > 0 ==> !is_white_space(s.last()),
    ensures
        trimmed_end(s + space) == s,
    decreases space.len(),
{
    if space.len() > 0 {
        assert((s + space).last() == space.last());
        assert((s + space).drop_last() =~= s + space.drop_last());
        blank_end_is_trimmed(s, space.drop_last());
    } else {
        assert(s + space =~= s);
    }
}

/// White space around a text is trimmed, and nothing of the text itself.
pub proof fn white_space_around_is_trimmed(front: Seq<char>, s: Seq<char>, back: Seq<char>)
    requires
        is_blank(front),
        is_blank(back),
        s.len() > 0 ==> !is_white_space(s[0]) && !is_white_space(s.last()),
    ensures
        trimmed(front + s + back) == s,
{
    if s.len() > 0 {
        assert(front + s + back =~= front + (s + back));
        assert((s + back)[0] == s[0]);
        blank_start_is_trimmed(front, s + back);
        blank_end_is_trimmed(s, back);
    } else {
        let blank = front + s + back;
        assert forall|j: int| 0 <= j < blank.len() implies is_white_space(#[trigger] blank[j]) by {
            if j < front.len() {
                assert(blank[j] == front[j]);
            } else {
                assert(blank[j] == back[j - front.len()]);
            }
        }
        assert(blank =~= blank + s);
        blank_start_is_trimmed(blank, s);
        assert(s =~= Seq::empty());
    }
}

/// Which of two texts comes first is decided by the first characters in which they differ; where
/// they differ in none, the shorter one comes first.
pub proof fn first_difference_decides(
    start: Seq<char>,
    x: char,
    a: Seq<char>,
    y: char,
    b: Seq<char>,
)
    requires
        x != y,
    ensures
        text_le(start + seq![x] + a, start + seq![y] + b) <==> x < y,
        text_le(start, start + a),
        a.len() > 0 ==> !text_le(start + a, start),
    decreases start.len(),
{
    let left = start + seq![x] + a;
    let right = start + seq![y] + b;
    if start.len() > 0 {
        let rest = start.skip(1);
        first_difference_decides(rest, x, a, y, b);
        assert(left.skip(1) =~= rest + seq![x] + a);
        assert(right.skip(1) =~= rest + seq![y] + b);
        assert((start + a).skip(1) =~= rest + a);
        assert(left[0] == start[0] && right[0] == start[0] && (start + a)[0] == start[0]);
    } else {
        assert(left[0] == x && right[0] == y);
    }
}

/// The decimal notation of a number is that of its tenth part and one digit more.
pub proof fn decimal_goes_digit_by_digit(tens: nat, ones: nat)
    requires
        ones < 10,
    ensures
        decimal(ones) == seq![(48 + ones) as char],
        tens > 0 ==> decimal(10 * tens + ones) == decimal(tens) + seq![(48 + ones) as char],
{
    if tens > 0 {
        let n = 10 * tens + ones;
        assert(n / 10 == tens && n % 10 == ones);
        assert(decimal(n) =~= decimal(tens) + seq![(48 + ones) as char]);
    }
}

} // verus!
