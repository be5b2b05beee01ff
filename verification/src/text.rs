//! Text building blocks: decimal and hexadecimal rendering of integers,
//! substring search and ASCII case folding, each with an exact meaning over
//! the characters of the result.
use vstd::prelude::*;
use vstd::string::*;

verus! {

/// The character that writes the hexadecimal digit `digit`.
pub open spec fn digit_char(digit: int) -> char {
    if digit <= 0 {
        '0'
    } else if digit == 1 {
        '1'
    } else if digit == 2 {
        '2'
    } else if digit == 3 {
        '3'
    } else if digit == 4 {
        '4'
    } else if digit == 5 {
        '5'
    } else if digit == 6 {
        '6'
    } else if digit == 7 {
        '7'
    } else if digit == 8 {
        '8'
    } else if digit == 9 {
        '9'
    } else if digit == 10 {
        'A'
    } else if digit == 11 {
        'B'
    } else if digit == 12 {
        'C'
    } else if digit == 13 {
        'D'
    } else if digit == 14 {
        'E'
    } else {
        'F'
    }
}

/// `value` written in `base` without leading zeros; zero is a single digit.
pub open spec fn numeral(value: nat, base: nat) -> Seq<char>
    decreases value,
{
    if base < 2 || value < base {
        seq![digit_char(value as int)]
    } else {
        proof {
            assert(value / base < value) by (nonlinear_arith)
                requires
                    base >= 2,
                    value >= base,
            ;
        }
        numeral(value / base, base).push(digit_char((value % base) as int))
    }
}

/// The decimal numeral of `value`.
pub open spec fn decimal(value: nat) -> Seq<char> {
    numeral(value, 10)
}

/// The last `width` digits of `value` in `base`, with leading zeros.
pub open spec fn padded(value: nat, base: nat, width: nat) -> Seq<char>
    decreases width,
{
    if width == 0 {
        Seq::empty()
    } else {
        padded(value / base, base, (width - 1) as nat).push(digit_char((value % base) as int))
    }
}

/// Appends the digit `digit` to `text`.
fn append_digit(text: &mut String, digit: u8)
    requires
        digit < 16,
    ensures
        final(text)@ == old(text)@.push(digit_char(digit as int)),
{
    proof {
        reveal_strlit("0");
        reveal_strlit("1");
        reveal_strlit("2");
        reveal_strlit("3");
        reveal_strlit("4");
        reveal_strlit("5");
        reveal_strlit("6");
        reveal_strlit("7");
        reveal_strlit("8");
        reveal_strlit("9");
        reveal_strlit("A");
        reveal_strlit("B");
        reveal_strlit("C");
        reveal_strlit("D");
        reveal_strlit("E");
        reveal_strlit("F");
    }
    let glyph: &str = match digit {
        0 => "0",
        1 => "1",
        2 => "2",
        3 => "3",
        4 => "4",
        5 => "5",
        6 => "6",
        7 => "7",
        8 => "8",
        9 => "9",
        10 => "A",
        11 => "B",
        12 => "C",
        13 => "D",
        14 => "E",
        _ => "F",
    };
    assert(glyph@ =~= seq![digit_char(digit as int)]);
    text.append(glyph);
    assert(text@ =~= old(text)@.push(digit_char(digit as int)));
}

/// Appends the decimal numeral of `value` to `text`.
pub fn append_decimal(text: &mut String, value: u128)
    ensures
        final(text)@ == old(text)@ + decimal(value as nat),
    decreases value,
{
    if value < 10 {
        append_digit(text, value as u8);
        assert(text@ =~= old(text)@ + decimal(value as nat));
    } else {
        append_decimal(text, value / 10);
        let ghost head = text@;
        append_digit(text, (value % 10) as u8);
        assert(text@ =~= old(text)@ + decimal(value as nat));
    }
}

/// Appends the last `width` digits of `value` in `base` to `text`.
pub fn append_padded(text: &mut String, value: u128, base: u128, width: usize)
    requires
        2 <= base <= 16,
    ensures
        final(text)@ == old(text)@ + padded(value as nat, base as nat, width as nat),
    decreases width,
{
    if width == 0 {
        assert(text@ =~= old(text)@ + padded(value as nat, base as nat, width as nat));
    } else {
        append_padded(text, value / base, base, width - 1);
        append_digit(text, (value % base) as u8);
        assert(text@ =~= old(text)@ + padded(value as nat, base as nat, width as nat));
    }
}

/// The ASCII lower-case form of `c`; every other character is kept.
pub open spec fn ascii_lower(c: char) -> char {
    if 'A' <= c && c <= 'Z' {
        (c as u8 + 32) as char
    } else {
        c
    }
}

/// `text` with each ASCII capital replaced by its lower-case letter.
pub open spec fn ascii_lowercase(text: Seq<char>) -> Seq<char> {
    text.map_values(|c: char| ascii_lower(c))
}

/// Whether `needle` stands in `text` from position `at`.
pub open spec fn occurs_at(text: Seq<char>, needle: Seq<char>, at: int) -> bool {
    &&& 0 <= at
    &&& at + needle.len() <= text.len()
    &&& text.subrange(at, at + needle.len()) == needle
}

/// Whether `needle` stands anywhere in `text`.
pub open spec fn occurs_in(text: Seq<char>, needle: Seq<char>) -> bool {
    exists|at: int| occurs_at(text, needle, at)
}

/// The characters of `text`, one per position.
pub fn characters(text: &str) -> (chars: Vec<char>)
    ensures
        chars@ == text@,
{
    let mut chars: Vec<char> = Vec::new();
    for c in it: text.chars()
        invariant
            it.seq() == text@,
            chars@ == text@.take(it.index()),
    {
        chars.push(c);
        assert(chars@ =~= text@.take(it.index() + 1));
    }
    assert(chars@ =~= text@);
    chars
}

/// The characters of `text` with each ASCII capital in lower case.
pub fn lowercase_characters(text: &str) -> (chars: Vec<char>)
    ensures
        chars@ == ascii_lowercase(text@),
{
    let source = characters(text);
    let mut chars: Vec<char> = Vec::new();
    let mut i: usize = 0;
    while i < source.len()
        invariant
            source@ == text@,
            i <= source.len(),
            chars@ == ascii_lowercase(text@.take(i as int)),
        decreases source.len() - i,
    {
        let c = source[i];
        if 'A' <= c && c <= 'Z' {
            chars.push((c as u8 + 32) as char);
        } else {
            chars.push(c);
        }
        i += 1;
        assert(chars@ =~= ascii_lowercase(text@.take(i as int)));
    }
    assert(text@.take(i as int) =~= text@);
    chars
}

/// Whether `needle` stands in `text` from position `at`.
fn matches_at(text: &Vec<char>, needle: &Vec<char>, at: usize) -> (found: bool)
    requires
        at + needle.len() <= text.len(),
    ensures
        found == occurs_at(text@, needle@, at as int),
{
    let mut i: usize = 0;
    while i < needle.len()
        invariant
            i <= needle.len(),
            at + needle.len() <= text.len(),
            forall|j: int| 0 <= j < i ==> text@[at + j] == needle@[j],
        decreases needle.len() - i,
    {
        if text[at + i] != needle[i] {
            assert(text@.subrange(at as int, at + needle.len())[i as int] != needle@[i as int]);
            return false;
        }
        i += 1;
    }
    assert(text@.subrange(at as int, at + needle.len()) =~= needle@);
    true
}

/// Whether `needle` stands anywhere in `text`.
pub fn contains_text(text: &Vec<char>, needle: &str) -> (found: bool)
    ensures
        found == occurs_in(text@, needle@),
{
    let needle_chars = characters(needle);
    let mut at: usize = 0;
    if needle_chars.len() > text.len() {
        return false;
    }
    let last: usize = text.len() - needle_chars.len();
    while at <= last
        invariant
            needle_chars@ == needle@,
            last + needle_chars.len() == text.len(),
            at <= last + 1,
            forall|k: int| 0 <= k < at ==> !occurs_at(text@, needle@, k),
        decreases last + 1 - at,
    {
        if matches_at(text, &needle_chars, at) {
            return true;
        }
        if at == last {
            return false;
        }
        at += 1;
    }
    false
}

/// Whether `text` reads `other`.
pub fn same_text(text: &Vec<char>, other: &str) -> (same: bool)
    ensures
        same == (text@ == other@),
{
    let other_chars = characters(other);
    if text.len() != other_chars.len() {
        return false;
    }
    let same = matches_at(text, &other_chars, 0);
    assert(text@.subrange(0, text@.len() as int) =~= text@);
    same
}

/// The texts of `strings`.
pub open spec fn texts(strings: Seq<String>) -> Seq<Seq<char>> {
    strings.map_values(|s: String| s@)
}

/// The texts of `parts`.
pub open spec fn slice_texts(parts: Seq<&'static str>) -> Seq<Seq<char>> {
    parts.map_values(|s: &'static str| s@)
}

/// `parts` in order, with `separator` between neighbours.
pub open spec fn joined(parts: Seq<Seq<char>>, separator: Seq<char>) -> Seq<char>
    decreases parts.len(),
{
    if parts.len() == 0 {
        Seq::empty()
    } else if parts.len() == 1 {
        parts[0]
    } else {
        joined(parts.drop_last(), separator) + separator + parts.last()
    }
}

/// `parts` in order, with `separator` between neighbours.
pub fn join(parts: &Vec<&'static str>, separator: &str) -> (text: String)
    ensures
        text@ == joined(slice_texts(parts@), separator@),
{
    let mut text = String::new();
    let mut i: usize = 0;
    while i < parts.len()
        invariant
            i <= parts.len(),
            text@ == joined(slice_texts(parts@.take(i as int)), separator@),
        decreases parts.len() - i,
    {
        let ghost before = slice_texts(parts@.take(i as int));
        let ghost after = slice_texts(parts@.take(i + 1));
        assert(after.drop_last() =~= before);
        if i > 0 {
            text.append(separator);
        }
        text.append(parts[i]);
        assert(text@ =~= joined(after, separator@));
        i += 1;
    }
    assert(parts@.take(i as int) =~= parts@);
    text
}

/// A one-element list.
pub fn single(text: String) -> (list: Vec<String>)
    ensures
        texts(list@) == seq![text@],
{
    let mut list: Vec<String> = Vec::new();
    list.push(text);
    assert(texts(list@) =~= seq![text@]);
    list
}

/// The number that a character stands for as a digit.
pub open spec fn digit_value(digit: char) -> int {
    if '0' <= digit <= '9' {
        digit as int - '0' as int
    } else {
        digit as int - 'A' as int + 10
    }
}

/// The number that digits in `base` stand for.
pub open spec fn number_of(digits: Seq<char>, base: nat) -> int
    decreases digits.len(),
{
    if digits.len() == 0 {
        0
    } else {
        number_of(digits.drop_last(), base) * base + digit_value(digits.last())
    }
}

/// A numeral stands for its value, and has no leading zero but for zero itself.
pub proof fn law_a_numeral_stands_for_its_value(value: nat, base: nat)
    requires
        2 <= base <= 16,
    ensures
        number_of(numeral(value, base), base) == value,
        numeral(value, base).len() > 0,
        value > 0 ==> numeral(value, base)[0] != '0',
        value == 0 ==> numeral(value, base) == seq!['0'],
    decreases value,
{
    reveal_with_fuel(number_of, 2);
    let text = numeral(value, base);
    if value < base {
        assert(text.drop_last() =~= Seq::<char>::empty());
        assert(text.last() == digit_char(value as int));
        assert(0 * base == 0);
    } else {
        assert(value / base < value && value / base > 0) by (nonlinear_arith)
            requires
                base >= 2,
                value >= base,
        ;
        law_a_numeral_stands_for_its_value(value / base, base);
        vstd::arithmetic::div_mod::lemma_fundamental_div_mod(value as int, base as int);
        vstd::arithmetic::div_mod::lemma_mod_bound(value as int, base as int);
        assert(text.drop_last() =~= numeral(value / base, base));
        assert((value / base) * base == base * (value / base)) by (nonlinear_arith);
        assert(text[0] == numeral(value / base, base)[0]);
    }
}

/// Padded digits are as many as asked for and stand for the value, as far as
/// that many digits can.
pub proof fn law_padded_digits_stand_for_their_value(value: nat, base: nat, width: nat)
    requires
        2 <= base <= 16,
    ensures
        padded(value, base, width).len() == width,
        number_of(padded(value, base, width), base) == value % (vstd::arithmetic::power::pow(
            base as int,
            width,
        ) as nat),
    decreases width,
{
    vstd::arithmetic::power::lemma_pow_positive(base as int, width);
    if width == 0 {
        vstd::arithmetic::power::lemma_pow0(base as int);
    } else {
        let less = (width - 1) as nat;
        let text = padded(value, base, width);
        law_padded_digits_stand_for_their_value(value / base, base, less);
        assert(text.drop_last() =~= padded(value / base, base, less));
        vstd::arithmetic::power::lemma_pow_positive(base as int, less);
        vstd::arithmetic::power::lemma_pow_adds(base as int, 1, less);
        vstd::arithmetic::power::lemma_pow1(base as int);
        assert(1 + less == width);
        vstd::arithmetic::div_mod::lemma_mod_bound(value as int, base as int);
        vstd::arithmetic::div_mod::lemma_mod_breakdown(
            value as int,
            base as int,
            vstd::arithmetic::power::pow(base as int, less),
        );
        let rest = (value / base) as int % vstd::arithmetic::power::pow(base as int, less);
        assert(rest * base == base * rest) by (nonlinear_arith);
    }
}

} // verus!
