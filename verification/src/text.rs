//! Comparison and slicing of text by its UTF-8 bytes.

use vstd::prelude::*;
use vstd::string::*;
use vstd::utf8::*;

verus! {

/// Two texts with the same UTF-8 encoding are the same text.
pub proof fn lemma_encoding_is_injective(a: Seq<char>, b: Seq<char>)
    requires
        encode_utf8(a) == encode_utf8(b),
    ensures
        a == b,
{
    encode_utf8_decode_utf8(a);
    encode_utf8_decode_utf8(b);
}

/// Whether two string slices hold the same text.
pub fn str_eq(a: &str, b: &str) -> (same: bool)
    ensures
        same == (a@ == b@),
{
    let x = a.as_bytes();
    let y = b.as_bytes();
    if x.len() != y.len() {
        return false;
    }
    let mut i: usize = 0;
    while i < x.len()
        invariant
            i <= x.len(),
            x.len() == y.len(),
            forall|j: int| 0 <= j < i ==> x@[j] == y@[j],
            x@ == encode_utf8(a@),
            y@ == encode_utf8(b@),
        decreases x.len() - i,
    {
        if x[i] != y[i] {
            return false;
        }
        i += 1;
    }
    proof {
        assert(x@ =~= y@);
        lemma_encoding_is_injective(a@, b@);
    }
    true
}

/// An owned copy of a string slice.
pub fn owned(text: &str) -> (copy: String)
    ensures
        copy@ == text@,
{
    text.to_owned()
}

/// The text that the bytes of `input` from `start` up to `end` encode.
/// Where `start` or `end` does not lie between two characters of `input`,
/// it is the empty text.
pub open spec fn slice_of(input: Seq<char>, start: int, end: int) -> Seq<char> {
    let bytes = encode_utf8(input);
    if 0 <= start <= end <= bytes.len() && is_char_boundary(bytes, start) && is_char_boundary(
        bytes.subrange(start, bytes.len() as int),
        end - start,
    ) {
        decode_utf8(bytes.subrange(start, end))
    } else {
        Seq::empty()
    }
}

/// The text that the bytes of `input` from `start` up to `end` encode, see
/// [`slice_of`].
pub fn slice(input: &str, start: usize, end: usize) -> (text: String)
    ensures
        text@ == slice_of(input@, start as int, end as int),
{
    let len = input.as_bytes().len();
    if start <= end && end <= len && input.is_char_boundary(start) {
        let (_, tail) = input.split_at(start);
        if tail.is_char_boundary(end - start) {
            let (middle, _) = tail.split_at(end - start);
            proof {
                let bytes = encode_utf8(input@);
                assert(middle.spec_bytes() =~= bytes.subrange(start as int, end as int));
                encode_utf8_decode_utf8(middle@);
            }
            return middle.to_owned();
        }
    }
    String::new()
}

/// The text `first`, followed by `second` and `third`.
pub fn joined(first: &str, second: &str, third: &str) -> (text: String)
    ensures
        text@ == first@ + second@ + third@,
{
    let mut text = first.to_owned();
    text.append(second);
    text.append(third);
    text
}

/// The number that the decimal digits `digits` stand for.
pub open spec fn digits_value(digits: Seq<u8>) -> int
    decreases digits.len(),
{
    if digits.len() == 0 {
        0
    } else {
        digits_value(digits.drop_last()) * 10 + (digits.last() - 48)
    }
}

/// Whether all of `bytes` are decimal digits.
pub open spec fn all_digits(bytes: Seq<u8>) -> bool {
    forall|i: int| 0 <= i < bytes.len() ==> 48 <= #[trigger] bytes[i] <= 57
}

/// The number that `bytes` stand for: decimal digits, at least one, with a
/// `-` before them for a negative number.
pub open spec fn number_of(bytes: Seq<u8>) -> Option<int> {
    let negative = bytes.len() > 0 && bytes[0] == 45;
    let digits = if negative {
        bytes.subrange(1, bytes.len() as int)
    } else {
        bytes
    };
    if digits.len() > 0 && all_digits(digits) {
        Some(
            if negative {
                -digits_value(digits)
            } else {
                digits_value(digits)
            },
        )
    } else {
        None
    }
}

/// The number that `text` stands for, if it stands for one that an `i32`
/// holds.
pub open spec fn i32_of(text: Seq<char>) -> Option<i32> {
    match number_of(encode_utf8(text)) {
        Some(number) => if i32::MIN <= number <= i32::MAX {
            Some(number as i32)
        } else {
            None
        },
        None => None,
    }
}

/// More digits do not make a number smaller.
proof fn lemma_digits_grow(digits: Seq<u8>, i: int)
    requires
        all_digits(digits),
        0 <= i <= digits.len(),
    ensures
        0 <= digits_value(digits.subrange(0, i)) <= digits_value(digits),
    decreases digits.len() - i,
{
    if i == digits.len() {
        assert(digits.subrange(0, i) =~= digits);
        lemma_digits_are_natural(digits);
    } else {
        lemma_digits_grow(digits, i + 1);
        let longer = digits.subrange(0, i + 1);
        assert(longer.drop_last() =~= digits.subrange(0, i));
        lemma_digits_are_natural(digits.subrange(0, i));
    }
}

/// Digits stand for a natural number.
proof fn lemma_digits_are_natural(digits: Seq<u8>)
    requires
        all_digits(digits),
    ensures
        0 <= digits_value(digits),
    decreases digits.len(),
{
    if digits.len() > 0 {
        lemma_digits_are_natural(digits.drop_last());
    }
}

/// The number that `text` stands for, see [`i32_of`].
pub fn parse_i32(text: &str) -> (number: Option<i32>)
    ensures
        number == i32_of(text@),
{
    let bytes = text.as_bytes();
    let len = bytes.len();
    let negative = len > 0 && bytes[0] == 45;
    let start: usize = if negative {
        1
    } else {
        0
    };
    if start >= len {
        return None;
    }
    let ghost digits = bytes@.subrange(start as int, len as int);
    let mut value: i64 = 0;
    let mut i: usize = start;
    while i < len
        invariant
            start <= i <= len,
            start < len,
            len == bytes@.len(),
            bytes@ == encode_utf8(text@),
            negative == (len > 0 && bytes@[0] == 45),
            start == if negative {
                1int
            } else {
                0int
            },
            digits == bytes@.subrange(start as int, len as int),
            forall|j: int| 0 <= j < i - start ==> 48 <= #[trigger] digits[j] <= 57,
            value == digits_value(digits.subrange(0, i - start)),
            0 <= value <= 2147483648,
        decreases len - i,
    {
        let byte = bytes[i];
        if byte < 48 || byte > 57 {
            assert(digits[i - start] == byte);
            assert(!negative ==> digits =~= bytes@);
            return None;
        }
        proof {
            let longer = digits.subrange(0, i - start + 1);
            assert(longer.drop_last() =~= digits.subrange(0, i - start));
            assert(longer.last() == byte);
        }
        let next = value * 10 + (byte - 48) as i64;
        if next > 2147483648 {
            proof {
                // The number is too large whatever follows.
                assert(!negative ==> digits =~= bytes@);
                if all_digits(digits) {
                    lemma_digits_grow(digits, i - start + 1);
                }
            }
            return None;
        }
        value = next;
        i += 1;
    }
    assert(digits.subrange(0, i - start) =~= digits);
    assert(all_digits(digits));
    assert(!negative ==> digits =~= bytes@);
    if negative {
        Some((-value) as i32)
    } else if value <= 2147483647 {
        Some(value as i32)
    } else {
        None
    }
}

/// The text of the decimal digit `digit`.
pub open spec fn digit_text(digit: int) -> Seq<char> {
    if digit == 0 {
        "0"@
    } else if digit == 1 {
        "1"@
    } else if digit == 2 {
        "2"@
    } else if digit == 3 {
        "3"@
    } else if digit == 4 {
        "4"@
    } else if digit == 5 {
        "5"@
    } else if digit == 6 {
        "6"@
    } else if digit == 7 {
        "7"@
    } else if digit == 8 {
        "8"@
    } else {
        "9"@
    }
}

/// The decimal digits of `number`, without leading zeros.
pub open spec fn natural_text(number: nat) -> Seq<char>
    decreases number,
{
    if number < 10 {
        digit_text(number as int)
    } else {
        natural_text(number / 10) + digit_text((number % 10) as int)
    }
}

/// The decimal digits of `number`, after a `-` if it is negative.
pub open spec fn integer_text(number: int) -> Seq<char> {
    if number < 0 {
        "-"@ + natural_text((-number) as nat)
    } else {
        natural_text(number as nat)
    }
}

/// The text of the decimal digit `digit`.
fn digit_to_text(digit: u32) -> (text: &'static str)
    ensures
        text@ == digit_text(digit as int),
{
    if digit == 0 {
        "0"
    } else if digit == 1 {
        "1"
    } else if digit == 2 {
        "2"
    } else if digit == 3 {
        "3"
    } else if digit == 4 {
        "4"
    } else if digit == 5 {
        "5"
    } else if digit == 6 {
        "6"
    } else if digit == 7 {
        "7"
    } else if digit == 8 {
        "8"
    } else {
        "9"
    }
}

/// The decimal digits of `number`, see [`natural_text`].
pub fn natural_to_text(number: u32) -> (text: String)
    ensures
        text@ == natural_text(number as nat),
    decreases number,
{
    if number < 10 {
        owned(digit_to_text(number))
    } else {
        let mut text = natural_to_text(number / 10);
        text.append(digit_to_text(number % 10));
        text
    }
}

/// The decimal digits of `number`, see [`integer_text`].
pub fn integer_to_text(number: i32) -> (text: String)
    ensures
        text@ == integer_text(number as int),
{
    if number < 0 {
        let magnitude = (-(number as i64)) as u32;
        let mut text = owned("-");
        text.append(natural_to_text(magnitude).as_str());
        text
    } else {
        natural_to_text(number as u32)
    }
}

/// Whether `first` stands before `second`, or is the same: at the first
/// place at which they differ `first` has the smaller byte, or `first` ends
/// before they differ. This is the order of texts.
pub open spec fn precedes(first: Seq<u8>, second: Seq<u8>) -> bool
    decreases first.len(),
{
    if first.len() == 0 {
        true
    } else if second.len() == 0 {
        false
    } else if first[0] != second[0] {
        first[0] < second[0]
    } else {
        precedes(first.drop_first(), second.drop_first())
    }
}

/// Of two texts one stands before the other, and both do only if they are
/// the same.
pub proof fn lemma_precedes_is_total(first: Seq<u8>, second: Seq<u8>)
    ensures
        precedes(first, second) || precedes(second, first),
        precedes(first, second) && precedes(second, first) ==> first == second,
    decreases first.len(),
{
    if first.len() > 0 && second.len() > 0 && first[0] == second[0] {
        lemma_precedes_is_total(first.drop_first(), second.drop_first());
        if precedes(first, second) && precedes(second, first) {
            assert(first =~= seq![first[0]] + first.drop_first());
            assert(second =~= seq![second[0]] + second.drop_first());
        }
    } else if first.len() == 0 && second.len() == 0 {
        assert(first =~= second);
    }
}

/// Whether the text `first` stands before the text `second`, or is the
/// same, see [`precedes`].
pub fn str_precedes(first: &str, second: &str) -> (before: bool)
    ensures
        before == precedes(encode_utf8(first@), encode_utf8(second@)),
{
    let a = first.as_bytes();
    let b = second.as_bytes();
    let mut i: usize = 0;
    assert(a@.subrange(0, a@.len() as int) =~= a@);
    assert(b@.subrange(0, b@.len() as int) =~= b@);
    loop
        invariant
            i <= a@.len(),
            i <= b@.len(),
            a@ == encode_utf8(first@),
            b@ == encode_utf8(second@),
            precedes(a@, b@) == precedes(
                a@.subrange(i as int, a@.len() as int),
                b@.subrange(i as int, b@.len() as int),
            ),
        decreases a@.len() - i,
    {
        if i >= a.len() {
            return true;
        }
        if i >= b.len() {
            return false;
        }
        if a[i] != b[i] {
            return a[i] < b[i];
        }
        proof {
            let rest_a = a@.subrange(i as int, a@.len() as int);
            let rest_b = b@.subrange(i as int, b@.len() as int);
            assert(rest_a.drop_first() =~= a@.subrange(i + 1, a@.len() as int));
            assert(rest_b.drop_first() =~= b@.subrange(i + 1, b@.len() as int));
        }
        i += 1;
    }
}

/// The lower-case letter for the upper-case letter `letter` of the Latin
/// alphabet.
pub open spec fn lower_case(letter: char) -> char {
    ((letter as u8) + 32) as char
}

/// Whether `letter` is an upper-case letter of the Latin alphabet.
pub open spec fn is_upper_case(letter: char) -> bool {
    'A' <= letter <= 'Z'
}

/// `name` with a lower-case letter at its start, if it starts with an
/// upper-case letter of the Latin alphabet.
pub open spec fn camel_case_of(name: Seq<char>) -> Seq<char> {
    if name.len() > 0 && is_upper_case(name[0]) {
        seq![lower_case(name[0])] + name.subrange(1, name.len() as int)
    } else {
        name
    }
}

/// The lower-case letter for the upper-case letter `letter`, as a text.
fn lower_case_text(letter: char) -> (text: &'static str)
    requires
        is_upper_case(letter),
    ensures
        text@ == seq![lower_case(letter)],
{
    if letter == 'A' {
        proof {
            reveal_strlit("a");
        }
        "a"
    } else if letter == 'B' {
        proof {
            reveal_strlit("b");
        }
        "b"
    } else if letter == 'C' {
        proof {
            reveal_strlit("c");
        }
        "c"
    } else if letter == 'D' {
        proof {
            reveal_strlit("d");
        }
        "d"
    } else if letter == 'E' {
        proof {
            reveal_strlit("e");
        }
        "e"
    } else if letter == 'F' {
        proof {
            reveal_strlit("f");
        }
        "f"
    } else if letter == 'G' {
        proof {
            reveal_strlit("g");
        }
        "g"
    } else if letter == 'H' {
        proof {
            reveal_strlit("h");
        }
        "h"
    } else if letter == 'I' {
        proof {
            reveal_strlit("i");
        }
        "i"
    } else if letter == 'J' {
        proof {
            reveal_strlit("j");
        }
        "j"
    } else if letter == 'K' {
        proof {
            reveal_strlit("k");
        }
        "k"
    } else if letter == 'L' {
        proof {
            reveal_strlit("l");
        }
        "l"
    } else if letter == 'M' {
        proof {
            reveal_strlit("m");
        }
        "m"
    } else if letter == 'N' {
        proof {
            reveal_strlit("n");
        }
        "n"
    } else if letter == 'O' {
        proof {
            reveal_strlit("o");
        }
        "o"
    } else if letter == 'P' {
        proof {
            reveal_strlit("p");
        }
        "p"
    } else if letter == 'Q' {
        proof {
            reveal_strlit("q");
        }
        "q"
    } else if letter == 'R' {
        proof {
            reveal_strlit("r");
        }
        "r"
    } else if letter == 'S' {
        proof {
            reveal_strlit("s");
        }
        "s"
    } else if letter == 'T' {
        proof {
            reveal_strlit("t");
        }
        "t"
    } else if letter == 'U' {
        proof {
            reveal_strlit("u");
        }
        "u"
    } else if letter == 'V' {
        proof {
            reveal_strlit("v");
        }
        "v"
    } else if letter == 'W' {
        proof {
            reveal_strlit("w");
        }
        "w"
    } else if letter == 'X' {
        proof {
            reveal_strlit("x");
        }
        "x"
    } else if letter == 'Y' {
        proof {
            reveal_strlit("y");
        }
        "y"
    } else if letter == 'Z' {
        proof {
            reveal_strlit("z");
        }
        "z"
    } else {
        proof {
            reveal_strlit("z");
        }
        "z"
    }
}

/// `name` with a lower-case letter at its start, see [`camel_case_of`].
pub fn camel_case(name: &str) -> (text: String)
    ensures
        text@ == camel_case_of(name@),
{
    let len = name.unicode_len();
    if len > 0 {
        let first = name.get_char(0);
        if 'A' <= first && first <= 'Z' {
            let mut text = owned(lower_case_text(first));
            text.append(name.substring_char(1, len));
            return text;
        }
    }
    owned(name)
}

/// The text of a digit is that digit as a character.
proof fn lemma_digit_text(digit: int)
    requires
        0 <= digit <= 9,
    ensures
        digit_text(digit) == seq![((48 + digit) as u8) as char],
{
    reveal_strlit("0");
    reveal_strlit("1");
    reveal_strlit("2");
    reveal_strlit("3");
    reveal_strlit("4");
    reveal_strlit("5");
    reveal_strlit("6");
    reveal_strlit("7");
    reveal_strlit("8");
    reveal_strlit("9");
    assert(digit_text(digit) =~= seq![((48 + digit) as u8) as char]);
}

/// The text of a natural number is made of digits, at least one, and
/// stands for that number.
proof fn lemma_natural_text(number: nat)
    ensures
        natural_text(number).len() > 0,
        is_ascii_chars(natural_text(number)),
        forall|i: int|
            0 <= i < natural_text(number).len() ==> 48 <= (#[trigger] natural_text(number)[i]) as u8
                <= 57,
        digits_value(Seq::new(natural_text(number).len(), |i: int| natural_text(number)[i] as u8))
            == number,
    decreases number,
{
    let text = natural_text(number);
    let bytes = Seq::new(text.len(), |i: int| text[i] as u8);
    if number < 10 {
        lemma_digit_text(number as int);
        assert(bytes.drop_last() =~= Seq::<u8>::empty());
        assert(digits_value(bytes.drop_last()) == 0);
    } else {
        lemma_natural_text(number / 10);
        lemma_digit_text((number % 10) as int);
        let front = natural_text(number / 10);
        let front_bytes = Seq::new(front.len(), |i: int| front[i] as u8);
        assert(text =~= front + digit_text((number % 10) as int));
        assert(bytes.drop_last() =~= front_bytes);
        assert(bytes.last() == (48 + number % 10) as u8);
    }
}

/// The text of a number that an `i32` holds stands for that number.
pub proof fn lemma_integer_text_is_read(number: i32)
    ensures
        i32_of(integer_text(number as int)) == Some(number),
{
    let text = integer_text(number as int);
    let magnitude: nat = if number < 0 {
        (-number) as nat
    } else {
        number as nat
    };
    let digits = natural_text(magnitude);
    lemma_natural_text(magnitude);
    let digit_bytes = Seq::new(digits.len(), |i: int| digits[i] as u8);
    if number < 0 {
        reveal_strlit("-");
        assert(text =~= seq!['-'] + digits);
        assert(is_ascii_chars(text));
        is_ascii_chars_encode_utf8(text);
        let bytes = encode_utf8(text);
        assert(bytes[0] == 45);
        assert(bytes.subrange(1, bytes.len() as int) =~= digit_bytes);
        assert(all_digits(digit_bytes));
    } else {
        is_ascii_chars_encode_utf8(text);
        let bytes = encode_utf8(text);
        assert(bytes =~= digit_bytes);
        assert(bytes[0] != 45);
        assert(all_digits(bytes));
    }
}

} // verus!
