//! Text as the rest of the crate speaks of it: trimming, decimal numbers and
//! string order, each with its meaning over sequences of characters.

use vstd::prelude::*;
use vstd::string::*;
use vstd::utf8::{
    decode_utf8_split, encode_scalar, encode_utf8, encode_utf8_decode_utf8,
    encode_utf8_first_scalar, encode_utf8_valid_utf8, is_char_boundary, pop_first_scalar,
};

verus! {

/// The characters of the Unicode property White_Space.
pub open spec fn is_white_space(c: char) -> bool {
    ||| '\u{0009}' <= c <= '\u{000D}'
    ||| c == '\u{0020}'
    ||| c == '\u{0085}'
    ||| c == '\u{00A0}'
    ||| c == '\u{1680}'
    ||| '\u{2000}' <= c <= '\u{200A}'
    ||| c == '\u{2028}'
    ||| c == '\u{2029}'
    ||| c == '\u{202F}'
    ||| c == '\u{205F}'
    ||| c == '\u{3000}'
}

/// `text` without the white space at its two ends.
pub open spec fn trimmed(text: Seq<char>) -> Seq<char>
    decreases text.len(),
{
    if text.len() == 0 {
        text
    } else if is_white_space(text[0]) {
        trimmed(text.drop_first())
    } else if is_white_space(text.last()) {
        trimmed(text.drop_last())
    } else {
        text
    }
}

/// The decimal digit for `value`, which is below ten.
pub open spec fn digit(value: nat) -> char {
    (('0' as u32) + value) as char
}

/// `n` in decimal notation, without leading zeros.
pub open spec fn decimal(n: nat) -> Seq<char>
    decreases n,
{
    if n < 10 {
        seq![digit(n)]
    } else {
        decimal(n / 10).push(digit(n % 10))
    }
}

/// The order of strings: by the first character in which they differ, a prefix
/// before what it begins.
pub open spec fn text_before(a: Seq<char>, b: Seq<char>) -> bool
    decreases a.len(),
{
    if b.len() == 0 {
        false
    } else if a.len() == 0 {
        true
    } else if a[0] != b[0] {
        a[0] < b[0]
    } else {
        text_before(a.drop_first(), b.drop_first())
    }
}

/// Of two different texts exactly one is before the other, and none is before
/// itself.
pub proof fn lemma_text_order_is_total(a: Seq<char>, b: Seq<char>)
    ensures
        a == b ==> !text_before(a, b),
        a != b ==> text_before(a, b) == !text_before(b, a),
    decreases a.len(),
{
    if a.len() > 0 && b.len() > 0 && a[0] == b[0] {
        lemma_text_order_is_total(a.drop_first(), b.drop_first());
        if a.drop_first() == b.drop_first() {
            assert(a =~= seq![a[0]] + a.drop_first());
            assert(b =~= seq![b[0]] + b.drop_first());
        }
    } else if a.len() == 0 && b.len() == 0 {
        assert(a =~= b);
    }
}

/// What is before a text is before everything that the text is before.
pub proof fn lemma_text_order_is_transitive(a: Seq<char>, b: Seq<char>, c: Seq<char>)
    requires
        text_before(a, b),
        text_before(b, c),
    ensures
        text_before(a, c),
    decreases a.len(),
{
    if a.len() > 0 && a[0] == b[0] && b[0] == c[0] {
        lemma_text_order_is_transitive(a.drop_first(), b.drop_first(), c.drop_first());
    }
}

/// The texts of a list, with a separator between them.
pub open spec fn listed(list: Seq<Seq<char>>, separator: Seq<char>) -> Seq<char>
    decreases list.len(),
{
    if list.len() == 0 {
        Seq::empty()
    } else if list.len() == 1 {
        list[0]
    } else {
        listed(list.drop_last(), separator) + separator + list.last()
    }
}

/// The value that a run of ASCII digits stands for, most significant digit first.
pub open spec fn digits_value(digits: Seq<u8>) -> nat
    decreases digits.len(),
{
    if digits.len() == 0 {
        0
    } else {
        digits_value(digits.drop_last()) * 10 + (digits.last() - 0x30) as nat
    }
}

/// Whether `bytes` are ASCII digits, at least one of them.
pub open spec fn all_digits(bytes: Seq<u8>) -> bool {
    bytes.len() > 0 && forall|i: int| 0 <= i < bytes.len() ==> 0x30 <= #[trigger] bytes[i] <= 0x39
}

/// `bytes` without the plus sign that they may begin with.
pub open spec fn without_plus(bytes: Seq<u8>) -> Seq<u8> {
    if bytes.len() > 0 && bytes[0] == 0x2b {
        bytes.drop_first()
    } else {
        bytes
    }
}

/// The unsigned number that `bytes` write in decimal, where it is at most
/// `limit`: an optional plus sign, then digits.
pub open spec fn parsed(bytes: Seq<u8>, limit: nat) -> Option<nat> {
    let digits = without_plus(bytes);
    if all_digits(digits) && digits_value(digits) <= limit {
        Some(digits_value(digits))
    } else {
        None
    }
}

/// The parts of `text` before and after the first `mark`; nothing where there is
/// none.
pub open spec fn parted(text: Seq<char>, mark: char) -> Option<(Seq<char>, Seq<char>)>
    decreases text.len(),
{
    if text.len() == 0 {
        None
    } else if text[0] == mark {
        Some((Seq::empty(), text.drop_first()))
    } else {
        match parted(text.drop_first(), mark) {
            Some((left, right)) => Some((seq![text[0]] + left, right)),
            None => None,
        }
    }
}

/// What a result over strings says, with its texts as characters.
pub open spec fn told<T>(result: Result<T, String>) -> Result<T, Seq<char>> {
    match result {
        Ok(value) => Ok(value),
        Err(error) => Err(error@),
    }
}

/// What a result with a view says: the view of its value, or its error's characters.
pub open spec fn shown<T: View>(result: Result<T, String>) -> Result<T::V, Seq<char>> {
    match result {
        Ok(value) => Ok(value@),
        Err(error) => Err(error@),
    }
}

/// The views of the strings in a list.
pub open spec fn texts(list: Seq<String>) -> Seq<Seq<char>> {
    list.map_values(|s: String| s@)
}

/// `str::trim`: the text without the white space at its ends, where white space
/// is the Unicode property White_Space.
#[verifier::external_body]
pub(crate) fn trim(text: &str) -> (result: &str)
    ensures
        result@ == trimmed(text@),
{
    text.trim()
}

/// `==` of two string slices: whether they hold the same characters.
#[verifier::external_body]
pub(crate) fn same(a: &str, b: &str) -> (result: bool)
    ensures
        result == (a@ == b@),
{
    a == b
}

/// `<` of two string slices: lexicographic by byte, which for UTF-8 is
/// lexicographic by character.
#[verifier::external_body]
pub(crate) fn before(a: &str, b: &str) -> (result: bool)
    ensures
        result == text_before(a@, b@),
{
    a < b
}

/// `str::starts_with` for a string pattern: whether the pattern is a prefix.
#[verifier::external_body]
pub(crate) fn starts_with(text: &str, pattern: &str) -> (result: bool)
    ensures
        result == pattern@.is_prefix_of(text@),
{
    text.starts_with(pattern)
}

/// `str::split_once` for a character: the parts before and after its first
/// occurrence, or nothing where it does not occur.
#[verifier::external_body]
pub(crate) fn split_once(text: &str, mark: char) -> (result: Option<(&str, &str)>)
    ensures
        match result {
            Some((left, right)) => parted(text@, mark) == Some((left@, right@)),
            None => parted(text@, mark) is None,
        },
{
    text.split_once(mark)
}

/// A text that begins with a part without the mark, and goes on with the mark,
/// is parted there; one without the mark is not.
pub proof fn lemma_parted(left: Seq<char>, mark: char, right: Seq<char>)
    requires
        !left.contains(mark),
    ensures
        parted(left + seq![mark] + right, mark) == Some((left, right)),
        parted(left, mark) is None,
    decreases left.len(),
{
    let text = left + seq![mark] + right;
    if left.len() == 0 {
        assert(text.drop_first() =~= right);
        assert(left =~= Seq::empty());
    } else {
        let rest = left.drop_first();
        assert(left[0] != mark);
        assert forall|i: int| 0 <= i < rest.len() implies rest[i] != mark by {
            assert(rest[i] == left[i + 1]);
        }
        lemma_parted(rest, mark, right);
        assert(text.drop_first() =~= rest + seq![mark] + right);
        assert(seq![left[0]] + rest =~= left);
    }
}

/// Whether `part` is the beginning of `text` that has `length` bytes in UTF-8.
pub open spec fn is_byte_prefix(part: Seq<char>, text: Seq<char>, length: nat) -> bool {
    part.is_prefix_of(text) && encode_utf8(part).len() == length
}

/// Whether a beginning of `text` has `length` bytes in UTF-8.
pub open spec fn has_byte_prefix(text: Seq<char>, length: nat) -> bool {
    exists|part: Seq<char>| #[trigger] is_byte_prefix(part, text, length)
}

/// Two texts in a row are the bytes of the one followed by those of the other.
pub(crate) proof fn lemma_utf8_of_two(a: Seq<char>, b: Seq<char>)
    ensures
        encode_utf8(a + b) == encode_utf8(a) + encode_utf8(b),
    decreases a.len(),
{
    if a.len() == 0 {
        assert(a + b =~= b);
        assert(encode_utf8(a) + encode_utf8(b) =~= encode_utf8(b));
    } else {
        lemma_utf8_of_two(a.drop_first(), b);
        assert((a + b).drop_first() =~= a.drop_first() + b);
        assert(encode_utf8(a + b) =~= encode_utf8(a) + encode_utf8(b));
    }
}

proof fn lemma_text_ends_at_boundary(a: Seq<char>, b: Seq<char>)
    ensures
        is_char_boundary(encode_utf8(a + b), encode_utf8(a).len() as int),
    decreases a.len(),
{
    let bytes = encode_utf8(a + b);
    encode_utf8_valid_utf8(a + b);
    if a.len() > 0 {
        let rest = a.drop_first();
        lemma_text_ends_at_boundary(rest, b);
        encode_utf8_first_scalar(a + b);
        encode_utf8_first_scalar(a);
        lemma_utf8_of_two(a, b);
        assert((a + b).drop_first() =~= rest + b);
        assert((a + b)[0] == a[0]);
        assert(pop_first_scalar(bytes) =~= encode_utf8(rest + b));
        assert(encode_utf8(a).len() == encode_scalar(a[0] as u32).len() + encode_utf8(rest).len());
    }
}

/// The beginning of the text with that many bytes, or nothing where the text is
/// shorter or a character goes across.
pub(crate) fn byte_prefix(text: &str, length: usize) -> (result: Option<&str>)
    ensures
        match result {
            Some(part) => is_byte_prefix(part@, text@, length as nat),
            None => !has_byte_prefix(text@, length as nat),
        },
{
    let ghost bytes = text.spec_bytes();
    proof {
        encode_utf8_valid_utf8(text@);
        assert(bytes == encode_utf8(text@));
    }
    if text.is_char_boundary(length) {
        let (part, rest) = text.split_at(length);
        proof {
            decode_utf8_split(bytes, length as int);
            encode_utf8_decode_utf8(text@);
            encode_utf8_decode_utf8(part@);
            encode_utf8_decode_utf8(rest@);
            assert(text@ == part@ + rest@);
            lemma_utf8_of_two(part@, rest@);
            assert(part@ =~= text@.take(part@.len() as int));
            assert(encode_utf8(part@).len() == length);
        }
        Some(part)
    } else {
        proof {
            assert forall|part: Seq<char>| !#[trigger] is_byte_prefix(
                part,
                text@,
                length as nat,
            ) by {
                if is_byte_prefix(part, text@, length as nat) {
                    let rest = text@.skip(part.len() as int);
                    assert(text@ =~= part + rest);
                    lemma_text_ends_at_boundary(part, rest);
                }
            }
        }
        None
    }
}

/// `u128::to_string`: the number in decimal.
#[verifier::external_body]
pub(crate) fn decimal_text(n: u128) -> (result: String)
    ensures
        result@ == decimal(n as nat),
{
    n.to_string()
}

/// How many bytes `text` has in UTF-8.
pub(crate) fn byte_len(text: &str) -> (result: usize)
    ensures
        result == encode_utf8(text@).len(),
{
    text.as_bytes().len()
}

/// The text `a` followed by `b`.
pub(crate) fn joined(a: &str, b: &str) -> (result: String)
    ensures
        result@ == a@ + b@,
{
    let mut text = a.to_owned();
    text.append(b);
    text
}

/// The texts of a list, with a separator between them.
pub(crate) fn join_texts(list: &Vec<String>, separator: &str) -> (result: String)
    ensures
        result@ == listed(texts(list@), separator@),
{
    let ghost all = texts(list@);
    if list.len() == 0 {
        return String::new();
    }
    let mut result = list[0].clone();
    assert(listed(all.take(1), separator@) == all[0]);
    let mut index: usize = 1;
    while index < list.len()
        invariant
            1 <= index <= list@.len(),
            all == texts(list@),
            result@ == listed(all.take(index as int), separator@),
        decreases list@.len() - index,
    {
        assert(all.take(index + 1).drop_last() =~= all.take(index as int));
        assert(all.take(index + 1).last() == list@[index as int]@);
        result.append(separator);
        result.append(list[index].as_str());
        index = index + 1;
    }
    assert(all.take(index as int) =~= all);
    result
}

proof fn lemma_digits_value_step(bytes: Seq<u8>, n: int)
    requires
        0 <= n < bytes.len(),
    ensures
        digits_value(bytes.take(n + 1)) == digits_value(bytes.take(n)) * 10 + (bytes[n] - 0x30) as nat,
{
    assert(bytes.take(n + 1).drop_last() =~= bytes.take(n));
}

proof fn lemma_digits_value_grows(bytes: Seq<u8>, n: int)
    requires
        0 <= n <= bytes.len(),
        forall|i: int| 0 <= i < bytes.len() ==> 0x30 <= #[trigger] bytes[i] <= 0x39,
    ensures
        digits_value(bytes.take(n)) <= digits_value(bytes),
    decreases bytes.len() - n,
{
    if n < bytes.len() {
        lemma_digits_value_step(bytes, n);
        lemma_digits_value_grows(bytes, n + 1);
    } else {
        assert(bytes.take(n) =~= bytes);
    }
}

/// Reads an unsigned decimal number of at most `limit`: an optional plus sign,
/// then at least one ASCII digit, and nothing else.
pub fn parse_decimal(bytes: &[u8], limit: u64) -> (result: Option<u64>)
    ensures
        match result {
            Some(n) => parsed(bytes@, limit as nat) == Some(n as nat),
            None => parsed(bytes@, limit as nat) is None,
        },
{
    let start: usize = if bytes.len() > 0 && bytes[0] == 0x2b {
        1
    } else {
        0
    };
    if bytes.len() == start {
        return None;
    }
    let ghost digits = without_plus(bytes@);
    assert(digits =~= bytes@.skip(start as int));
    let mut value: u64 = 0;
    let mut index: usize = start;
    while index < bytes.len()
        invariant
            start <= index <= bytes.len(),
            digits == without_plus(bytes@),
            digits == bytes@.skip(start as int),
            value == digits_value(digits.take(index - start)),
            value <= limit,
            forall|i: int| 0 <= i < index - start ==> 0x30 <= #[trigger] digits[i] <= 0x39,
        decreases bytes.len() - index,
    {
        let byte = bytes[index];
        assert(digits[index - start] == byte);
        if byte < 0x30 || byte > 0x39 {
            assert(!all_digits(digits));
            return None;
        }
        proof {
            lemma_digits_value_step(digits, index - start);
        }
        let wide: u128 = value as u128 * 10 + (byte - 0x30) as u128;
        if wide > limit as u128 {
            proof {
                if all_digits(digits) {
                    lemma_digits_value_grows(digits, index - start + 1);
                }
            }
            return None;
        }
        value = wide as u64;
        index = index + 1;
    }
    assert(digits.take(index - start) =~= digits);
    Some(value)
}

/// Whether every character of `text` is white space.
pub open spec fn all_white_space(text: Seq<char>) -> bool {
    forall|i: int| 0 <= i < text.len() ==> is_white_space(#[trigger] text[i])
}

/// What is taken off a text is white space at its two ends, and all of it: the text is
/// white space, then what is left, then white space, and what is left neither begins
/// nor ends with any.
pub proof fn law_trimmed_text_keeps_its_middle(text: Seq<char>)
    ensures
        exists|left: Seq<char>, right: Seq<char>|
            {
                &&& text == left + trimmed(text) + right
                &&& #[trigger] all_white_space(left)
                &&& #[trigger] all_white_space(right)
            },
        trimmed(text).len() > 0 ==> !is_white_space(trimmed(text)[0]) && !is_white_space(
            trimmed(text).last(),
        ),
    decreases text.len(),
{
    let empty = Seq::<char>::empty();
    assert(all_white_space(empty));
    if text.len() == 0 {
        assert(text == empty + trimmed(text) + empty);
    } else if is_white_space(text[0]) {
        let rest = text.drop_first();
        law_trimmed_text_keeps_its_middle(rest);
        let (left, right) = choose|left: Seq<char>, right: Seq<char>|
            {
                &&& rest == left + trimmed(rest) + right
                &&& #[trigger] all_white_space(left)
                &&& #[trigger] all_white_space(right)
            };
        let longer = seq![text[0]] + left;
        assert forall|i: int| 0 <= i < longer.len() implies is_white_space(#[trigger] longer[i]) by {
            if i > 0 {
                assert(longer[i] == left[i - 1]);
            }
        }
        assert(all_white_space(longer));
        assert(text == seq![text[0]] + rest);
        assert(text == longer + trimmed(text) + right);
    } else if is_white_space(text.last()) {
        let rest = text.drop_last();
        law_trimmed_text_keeps_its_middle(rest);
        let (left, right) = choose|left: Seq<char>, right: Seq<char>|
            {
                &&& rest == left + trimmed(rest) + right
                &&& #[trigger] all_white_space(left)
                &&& #[trigger] all_white_space(right)
            };
        let longer = right.push(text.last());
        assert forall|i: int| 0 <= i < longer.len() implies is_white_space(#[trigger] longer[i]) by {
            if i < right.len() {
                assert(longer[i] == right[i]);
            }
        }
        assert(all_white_space(longer));
        assert(text == rest.push(text.last()));
        assert(text == left + trimmed(text) + longer);
    } else {
        assert(text == empty + trimmed(text) + empty);
    }
}

/// A number in decimal ends with its last digit, behind what is left of it without it;
/// a number below ten is one digit.
pub proof fn law_decimal_is_written_digit_by_digit(n: nat, d: nat)
    requires
        d < 10,
    ensures
        decimal(d) == seq![('0' as u32 + d) as char],
        n > 0 ==> decimal(n * 10 + d) == decimal(n).push(('0' as u32 + d) as char),
{
    if n > 0 {
        assert((n * 10 + d) / 10 == n);
        assert((n * 10 + d) % 10 == d);
    }
}

/// What is read of a text that writes a number: the digits one after the other, most
/// significant first, with or without a plus sign before them, where the number is
/// within the limit. A text with anything but digits is no number.
pub proof fn law_number_is_read_digit_by_digit(bytes: Seq<u8>, last: u8, limit: nat)
    ensures
        0x30 <= last <= 0x39 ==> parsed(seq![last], limit) == if last - 0x30 <= limit {
            Some((last - 0x30) as nat)
        } else {
            None
        },
        bytes.len() > 0 && bytes[0] != 0x2b && 0x30 <= last <= 0x39 ==> (parsed(
            bytes,
            limit,
        ) matches Some(value) ==> parsed(bytes.push(last), limit) == if value * 10 + (last - 0x30)
            <= limit {
            Some((value * 10 + (last - 0x30)) as nat)
        } else {
            None
        }),
        bytes.len() > 0 && bytes[0] != 0x2b ==> parsed(seq![0x2bu8] + bytes, limit) == parsed(
            bytes,
            limit,
        ),
        !(0x30 <= last <= 0x39) && bytes.len() > 0 ==> parsed(bytes.push(last), limit) is None,
        parsed(Seq::<u8>::empty(), limit) is None,
{
    let one = seq![last];
    assert(one.drop_last() =~= Seq::<u8>::empty());
    assert(digits_value(one.drop_last()) == 0);
    if 0x30 <= last <= 0x39 {
        assert(without_plus(one) == one);
    }
    let longer = bytes.push(last);
    assert(longer.drop_last() =~= bytes);
    assert(longer.last() == last);
    if bytes.len() > 0 && bytes[0] != 0x2b {
        assert(longer[0] == bytes[0]);
        assert(without_plus(bytes) == bytes);
        assert(without_plus(longer) == longer);
        if parsed(bytes, limit) is Some && 0x30 <= last <= 0x39 {
            assert forall|i: int| 0 <= i < longer.len() implies 0x30 <= #[trigger] longer[i]
                <= 0x39 by {
                if i < bytes.len() {
                    assert(longer[i] == bytes[i]);
                }
            }
        }
        assert((seq![0x2bu8] + bytes).drop_first() =~= bytes);
    }
    if !(0x30 <= last <= 0x39) && bytes.len() > 0 {
        let digits = without_plus(longer);
        if digits.len() > 0 {
            assert(digits[digits.len() - 1] == last);
        }
    }
}

/// A text is parted at the first mark: the part before it has none, and the two parts
/// with the mark between them are the text. A text without the mark is not parted.
pub proof fn law_text_is_parted_at_the_first_mark(text: Seq<char>, mark: char)
    ensures
        parted(text, mark) matches Some(parts) ==> !parts.0.contains(mark) && text == parts.0
            + seq![mark] + parts.1,
        parted(text, mark) is None <==> !text.contains(mark),
    decreases text.len(),
{
    if text.len() > 0 {
        let rest = text.drop_first();
        law_text_is_parted_at_the_first_mark(rest, mark);
        if text[0] == mark {
            assert(text.contains(mark));
            assert(text =~= Seq::<char>::empty() + seq![mark] + rest);
        } else {
            if rest.contains(mark) {
                let i = choose|i: int| 0 <= i < rest.len() && rest[i] == mark;
                assert(text[i + 1] == mark);
            }
            if text.contains(mark) {
                let i = choose|i: int| 0 <= i < text.len() && text[i] == mark;
                assert(rest[i - 1] == mark);
            }
            if parted(rest, mark) is Some {
                let (left, right) = parted(rest, mark)->0;
                let longer = seq![text[0]] + left;
                if longer.contains(mark) {
                    let i = choose|i: int| 0 <= i < longer.len() && longer[i] == mark;
                    assert(left[i - 1] == mark);
                }
                assert(text =~= seq![text[0]] + rest);
                assert(text =~= longer + seq![mark] + right);
            }
        }
    }
}

/// A list is written with the separator between its texts and nowhere else.
pub proof fn law_list_is_written_with_separators(
    list: Seq<Seq<char>>,
    text: Seq<char>,
    separator: Seq<char>,
)
    ensures
        listed(Seq::<Seq<char>>::empty(), separator).len() == 0,
        listed(seq![text], separator) == text,
        list.len() > 0 ==> listed(list.push(text), separator) == listed(list, separator) + separator
            + text,
{
    assert(list.push(text).drop_last() =~= list);
}

/// A list of strings has the characters of each of them, in their order.
pub proof fn law_each_string_has_its_characters(list: Seq<String>, i: int)
    ensures
        texts(list).len() == list.len(),
        0 <= i < list.len() ==> texts(list)[i] == list[i]@,
{
}

/// Texts are ordered by the first character in which they differ; what begins a longer
/// text is before it.
pub proof fn law_texts_are_ordered_by_characters(
    common: Seq<char>,
    a: char,
    b: char,
    left: Seq<char>,
    right: Seq<char>,
)
    ensures
        a < b ==> text_before(common + seq![a] + left, common + seq![b] + right),
        text_before(common, common + seq![a] + left),
    decreases common.len(),
{
    let first = common + seq![a] + left;
    let second = common + seq![b] + right;
    if common.len() > 0 {
        let rest = common.drop_first();
        law_texts_are_ordered_by_characters(rest, a, b, left, right);
        assert(first.drop_first() =~= rest + seq![a] + left);
        assert(second.drop_first() =~= rest + seq![b] + right);
        assert(first[0] == common[0] && second[0] == common[0]);
    } else {
        assert(first[0] == a && second[0] == b);
    }
}

/// Of the ASCII characters, tabs, line breaks and the space are white space, and no other.
pub proof fn law_ascii_white_space(c: char)
    requires
        (c as u32) < 0x80,
    ensures
        is_white_space(c) <==> c == ' ' || ('\t' <= c <= '\r'),
{
}

/// Beyond ASCII, eighteen characters and the next-line control are white space: the
/// spaces of the general punctuation up to the hair space among them, and no zero-width
/// one.
pub proof fn law_wide_white_space(c: char)
    requires
        (c as u32) >= 0x80,
    ensures
        is_white_space(c) <==> c as u32 == 0x85 || c as u32 == 0xa0 || c as u32 == 0x1680 || (0x2000
            <= c as u32 <= 0x200a) || c as u32 == 0x2028 || c as u32 == 0x2029 || c as u32 == 0x202f
            || c as u32 == 0x205f || c as u32 == 0x3000,
{
}

/// A result is shown as it is: a success by its value, a failure by its text.
pub proof fn law_results_are_shown_as_they_are<T: View>(result: Result<T, String>)
    ensures
        result matches Ok(value) ==> shown(result) == Ok::<T::V, Seq<char>>(value@) && told(result)
            == Ok::<T, Seq<char>>(value),
        result matches Err(error) ==> shown(result) == Err::<T::V, Seq<char>>(error@) && told(result)
            == Err::<T, Seq<char>>(error@),
{
}

} // verus!
