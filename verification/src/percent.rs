//! Percent-encoding, as it is used in the addresses of an OAuth exchange.

use crate::text;
use vstd::prelude::*;
use vstd::utf8::{encode_utf8, is_ascii_chars};

verus! {

/// Whether a byte stands for itself in an encoded text.
pub open spec fn is_unreserved(byte: u8) -> bool {
    'A' as u8 <= byte <= 'Z' as u8 || 'a' as u8 <= byte <= 'z' as u8 || '0' as u8 <= byte
        <= '9' as u8 || byte == '-' as u8 || byte == '_' as u8 || byte == '.' as u8 || byte
        == '~' as u8
}

/// The digit of a number below sixteen, with a capital letter from ten on.
pub open spec fn upper_hex_digit(n: u8) -> char {
    if n < 10 {
        (('0' as u8) + n) as char
    } else {
        (('A' as u8) + n - 10) as char
    }
}

/// A byte in an encoded text: itself, or a percent sign and its two hexadecimal digits.
pub open spec fn encoded_byte(byte: u8) -> Seq<char> {
    if is_unreserved(byte) {
        seq![byte as char]
    } else {
        seq!['%', upper_hex_digit(byte / 16), upper_hex_digit(byte % 16)]
    }
}

/// The encoding of bytes.
pub open spec fn percent_encoded(bytes: Seq<u8>) -> Seq<char>
    decreases bytes.len(),
{
    if bytes.len() == 0 {
        Seq::empty()
    } else {
        percent_encoded(bytes.drop_last()) + encoded_byte(bytes.last())
    }
}

/// The value of a hexadecimal digit.
pub open spec fn hex_value(byte: u8) -> Option<u8> {
    if '0' as u8 <= byte <= '9' as u8 {
        Some((byte - '0' as u8) as u8)
    } else if 'a' as u8 <= byte <= 'f' as u8 {
        Some((byte - 'a' as u8 + 10) as u8)
    } else if 'A' as u8 <= byte <= 'F' as u8 {
        Some((byte - 'A' as u8 + 10) as u8)
    } else {
        None
    }
}

/// The value of the two bytes behind a percent sign: two digits, or a plus sign and one.
pub open spec fn hex_pair(first: u8, second: u8) -> Option<u8> {
    match (hex_value(first), hex_value(second)) {
        (Some(high), Some(low)) => Some((16 * high + low) as u8),
        (None, Some(low)) if first == '+' as u8 => Some(low),
        _ => None,
    }
}

/// The byte at a place, or the digit zero behind the end.
pub open spec fn byte_or_zero(bytes: Seq<u8>, at: int) -> u8 {
    if at < bytes.len() {
        bytes[at]
    } else {
        '0' as u8
    }
}

/// The decoding of bytes, each of which becomes the character with its number. A percent sign
/// takes the next two bytes with it; where these are no number, it alone is left of the three.
pub open spec fn percent_decoded(bytes: Seq<u8>) -> Seq<char>
    decreases bytes.len(),
{
    if bytes.len() == 0 {
        Seq::empty()
    } else if bytes[0] == '%' as u8 {
        let decoded = match hex_pair(byte_or_zero(bytes, 1), byte_or_zero(bytes, 2)) {
            Some(value) => value as char,
            None => '%',
        };
        seq![decoded] + percent_decoded(bytes.skip(if bytes.len() < 3 {
            bytes.len() as int
        } else {
            3
        }))
    } else if bytes[0] == '+' as u8 {
        seq![' '] + percent_decoded(bytes.skip(1))
    } else {
        seq![bytes[0] as char] + percent_decoded(bytes.skip(1))
    }
}

fn upper_hex_char(n: u8) -> (c: char)
    requires
        n < 16,
    ensures
        c == upper_hex_digit(n),
{
    if n < 10 {
        (('0' as u8) + n) as char
    } else {
        (('A' as u8) + (n - 10)) as char
    }
}

/// The encoding of a text: of the bytes it is made of, only letters, digits and `-_.~` stand for
/// themselves.
pub fn percent_encode(s: &str) -> (encoded: String)
    ensures
        encoded@ == percent_encoded(encode_utf8(s@)),
{
    let bytes = s.as_bytes();
    let mut out = String::new();
    let mut at: usize = 0;
    assert(bytes@.take(0) =~= Seq::empty());
    while at < bytes.len()
        invariant
            at <= bytes@.len(),
            out@ == percent_encoded(bytes@.take(at as int)),
        decreases bytes@.len() - at,
    {
        let byte: u8 = bytes[at];
        let ghost before = out@;
        assert(bytes@.take(at + 1).drop_last() =~= bytes@.take(at as int));
        if ('A' as u8) <= byte && byte <= ('Z' as u8) || ('a' as u8) <= byte && byte <= ('z' as u8) || ('0' as u8) <= byte && byte
            <= ('9' as u8) || byte == ('-' as u8) || byte == ('_' as u8) || byte == ('.' as u8) || byte == ('~' as u8) {
            text::push_char(&mut out, byte as char);
        } else {
            text::push_char(&mut out, '%');
            text::push_char(&mut out, upper_hex_char(byte / 16));
            text::push_char(&mut out, upper_hex_char(byte % 16));
        }
        assert(out@ =~= before + encoded_byte(byte));
        at = at + 1;
    }
    assert(bytes@.take(at as int) =~= bytes@);
    out
}

fn hex_number(byte: u8) -> (value: Option<u8>)
    ensures
        value == hex_value(byte),
        value matches Some(value) ==> value < 16,
{
    if ('0' as u8) <= byte && byte <= ('9' as u8) {
        Some(byte - ('0' as u8))
    } else if ('a' as u8) <= byte && byte <= ('f' as u8) {
        Some(byte - ('a' as u8) + 10)
    } else if ('A' as u8) <= byte && byte <= ('F' as u8) {
        Some(byte - ('A' as u8) + 10)
    } else {
        None
    }
}

fn pair_number(first: u8, second: u8) -> (value: Option<u8>)
    ensures
        value == hex_pair(first, second),
{
    match (hex_number(first), hex_number(second)) {
        (Some(high), Some(low)) => Some(16 * high + low),
        (None, Some(low)) => if first == ('+' as u8) {
            Some(low)
        } else {
            None
        },
        _ => None,
    }
}

/// The decoding of a text.
pub fn percent_decode(s: &str) -> (decoded: String)
    ensures
        decoded@ == percent_decoded(encode_utf8(s@)),
{
    let bytes = s.as_bytes();
    let mut result = String::new();
    let mut at: usize = 0;
    assert(bytes@.skip(0) =~= bytes@);
    assert(result@ + percent_decoded(bytes@.skip(0)) =~= percent_decoded(bytes@));
    while at < bytes.len()
        invariant
            at <= bytes@.len(),
            result@ + percent_decoded(bytes@.skip(at as int)) == percent_decoded(bytes@),
        decreases bytes@.len() - at,
    {
        let ghost before = result@;
        let ghost rest = bytes@.skip(at as int);
        let byte: u8 = bytes[at];
        if byte == ('%' as u8) {
            let left: usize = bytes.len() - at;
            let first: u8 = if left > 1 {
                bytes[at + 1]
            } else {
                ('0' as u8)
            };
            let second: u8 = if left > 2 {
                bytes[at + 2]
            } else {
                ('0' as u8)
            };
            match pair_number(first, second) {
                Some(value) => text::push_char(&mut result, value as char),
                None => text::push_char(&mut result, '%'),
            }
            let taken: usize = if left < 3 {
                left
            } else {
                3
            };
            assert(rest.skip(taken as int) =~= bytes@.skip(at + taken));
            at = at + taken;
        } else if byte == ('+' as u8) {
            text::push_char(&mut result, ' ');
            assert(rest.skip(1) =~= bytes@.skip(at + 1));
            at = at + 1;
        } else {
            text::push_char(&mut result, byte as char);
            assert(rest.skip(1) =~= bytes@.skip(at + 1));
            at = at + 1;
        }
        assert(result@ + percent_decoded(bytes@.skip(at as int)) =~= before + percent_decoded(
            rest,
        ));
    }
    assert(result@ + percent_decoded(bytes@.skip(at as int)) =~= result@);
    result
}

/// Each byte as the character with its number.
pub open spec fn as_chars(bytes: Seq<u8>) -> Seq<char> {
    Seq::new(bytes.len(), |i: int| bytes[i] as char)
}

/// Each character as the byte with its number, for characters that have one.
pub open spec fn as_bytes(chars: Seq<char>) -> Seq<u8> {
    Seq::new(chars.len(), |i: int| chars[i] as u8)
}

/// Decoding undoes the encoding of a byte, whatever follows it.
pub proof fn decoding_undoes_escape(byte: u8, rest: Seq<u8>)
    ensures
        percent_decoded(
            as_bytes(
                seq!['%', upper_hex_digit(byte / 16), upper_hex_digit(byte % 16)],
            ) + rest,
        ) == seq![byte as char] + percent_decoded(rest),
        is_ascii_chars(seq!['%', upper_hex_digit(byte / 16), upper_hex_digit(byte % 16)]),
{
    let bytes = as_bytes(seq!['%', upper_hex_digit(byte / 16), upper_hex_digit(byte % 16)]) + rest;
    assert(bytes[0] == '%' as u8);
    assert(hex_value(bytes[1]) == Some((byte / 16) as u8));
    assert(hex_value(bytes[2]) == Some((byte % 16) as u8));
    assert(bytes.skip(3) =~= rest);
}

/// Decoding leaves a byte that stands for itself as it is, whatever follows it.
pub proof fn decoding_keeps_byte(byte: u8, rest: Seq<u8>)
    requires
        byte != '%' as u8,
        byte != '+' as u8,
        byte < 128,
    ensures
        percent_decoded(as_bytes(seq![byte as char]) + rest) == seq![byte as char]
            + percent_decoded(rest),
        is_ascii_chars(seq![byte as char]),
{
    let bytes = as_bytes(seq![byte as char]) + rest;
    assert(bytes[0] == byte);
    assert(bytes.skip(1) =~= rest);
}

proof fn decoding_undoes_encoded_bytes(bytes: Seq<u8>, rest: Seq<u8>)
    ensures
        percent_decoded(as_bytes(percent_encoded(bytes)) + rest) == as_chars(bytes)
            + percent_decoded(rest),
        is_ascii_chars(percent_encoded(bytes)),
    decreases bytes.len(),
{
    if bytes.len() == 0 {
        assert(as_bytes(percent_encoded(bytes)) + rest =~= rest);
        assert(as_chars(bytes) + percent_decoded(rest) =~= percent_decoded(rest));
    } else {
        let front = bytes.drop_last();
        let last = bytes.last();
        let tail = as_bytes(encoded_byte(last)) + rest;
        decoding_undoes_encoded_bytes(front, tail);
        if is_unreserved(last) {
            decoding_keeps_byte(last, rest);
        } else {
            decoding_undoes_escape(last, rest);
        }
        assert(as_bytes(percent_encoded(bytes)) + rest =~= as_bytes(percent_encoded(front))
            + tail);
        assert(as_chars(bytes) + percent_decoded(rest) =~= as_chars(front) + (seq![last as char]
            + percent_decoded(rest)));
    }
}

/// Decoding gives back what was encoded, byte for byte; a text of plain ASCII comes back as it
/// was.
pub proof fn decoding_undoes_encoding(text: Seq<char>)
    ensures
        percent_decoded(encode_utf8(percent_encoded(encode_utf8(text)))) == as_chars(
            encode_utf8(text),
        ),
        is_ascii_chars(text) ==> percent_decoded(encode_utf8(percent_encoded(encode_utf8(text))))
            == text,
{
    let bytes = encode_utf8(text);
    let encoded = percent_encoded(bytes);
    decoding_undoes_encoded_bytes(bytes, Seq::empty());
    vstd::utf8::is_ascii_chars_encode_utf8(encoded);
    assert(encode_utf8(encoded) =~= as_bytes(encoded) + Seq::<u8>::empty());
    assert(as_chars(bytes) + percent_decoded(Seq::<u8>::empty()) =~= as_chars(bytes));
    if is_ascii_chars(text) {
        vstd::utf8::is_ascii_chars_encode_utf8(text);
        assert(as_chars(bytes) =~= text);
    }
}

proof fn encoding_bytes_one_behind_the_other(first: Seq<u8>, second: Seq<u8>)
    ensures
        percent_encoded(first + second) == percent_encoded(first) + percent_encoded(second),
    decreases second.len(),
{
    if second.len() == 0 {
        assert(first + second =~= first);
        assert(percent_encoded(first) + percent_encoded(second) =~= percent_encoded(first));
    } else {
        encoding_bytes_one_behind_the_other(first, second.drop_last());
        assert((first + second).drop_last() =~= first + second.drop_last());
        assert(percent_encoded(first + second) =~= percent_encoded(first) + percent_encoded(
            second,
        ));
    }
}

proof fn bytes_of_texts_one_behind_the_other(first: Seq<char>, second: Seq<char>)
    ensures
        encode_utf8(first + second) == encode_utf8(first) + encode_utf8(second),
    decreases first.len(),
{
    if first.len() == 0 {
        assert(first + second =~= second);
        assert(encode_utf8(first) + encode_utf8(second) =~= encode_utf8(second));
    } else {
        bytes_of_texts_one_behind_the_other(first.drop_first(), second);
        assert((first + second).drop_first() =~= first.drop_first() + second);
        assert(encode_utf8(first + second) =~= encode_utf8(first) + encode_utf8(second));
    }
}

/// Two texts one behind the other are encoded one behind the other.
pub proof fn encoding_keeps_texts_apart(first: Seq<char>, second: Seq<char>)
    ensures
        percent_encoded(encode_utf8(first + second)) == percent_encoded(encode_utf8(first))
            + percent_encoded(encode_utf8(second)),
{
    bytes_of_texts_one_behind_the_other(first, second);
    encoding_bytes_one_behind_the_other(encode_utf8(first), encode_utf8(second));
}

/// Letters, digits and `-_.~` stand for themselves. Every other byte takes three characters: a
/// percent sign and two digits, capital from ten on, that give the byte again.
pub proof fn only_unreserved_bytes_stand_for_themselves(byte: u8)
    ensures
        ({
            let c = byte as char;
            let written = percent_encoded(seq![byte]);
            if 'a' <= c <= 'z' || 'A' <= c <= 'Z' || '0' <= c <= '9' || c == '-' || c == '_' || c
                == '.' || c == '~' {
                written == seq![c]
            } else {
                &&& written.len() == 3
                &&& written[0] == '%'
                &&& '0' <= written[1] <= '9' || 'A' <= written[1] <= 'F'
                &&& '0' <= written[2] <= '9' || 'A' <= written[2] <= 'F'
                &&& byte == 16 * (if written[1] <= '9' {
                    written[1] as int - '0' as int
                } else {
                    written[1] as int - 'A' as int + 10
                }) + (if written[2] <= '9' {
                    written[2] as int - '0' as int
                } else {
                    written[2] as int - 'A' as int + 10
                })
            }
        }),
{
    let one = seq![byte];
    assert(one.drop_last() =~= Seq::empty());
    assert(percent_encoded(one.drop_last()) =~= Seq::empty());
    assert(percent_encoded(one) =~= encoded_byte(byte));
}

/// Bytes one behind the other are encoded one behind the other.
pub proof fn bytes_are_encoded_in_order(first: Seq<u8>, second: Seq<u8>)
    ensures
        percent_encoded(first + second) == percent_encoded(first) + percent_encoded(second),
{
    encoding_bytes_one_behind_the_other(first, second);
}

/// An encoded text holds nothing that separates the parts of an address.
pub proof fn encoded_text_holds_no_separator(bytes: Seq<u8>)
    ensures
        forall|i: int|
            0 <= i < percent_encoded(bytes).len() ==> {
                let c = #[trigger] percent_encoded(bytes)[i];
                'a' <= c <= 'z' || 'A' <= c <= 'Z' || '0' <= c <= '9' || c == '-' || c == '_' || c
                    == '.' || c == '~' || c == '%'
            },
    decreases bytes.len(),
{
    if bytes.len() > 0 {
        encoded_text_holds_no_separator(bytes.drop_last());
        let front = percent_encoded(bytes.drop_last());
        let last = encoded_byte(bytes.last());
        assert forall|i: int| 0 <= i < percent_encoded(bytes).len() implies {
            let c = #[trigger] percent_encoded(bytes)[i];
            'a' <= c <= 'z' || 'A' <= c <= 'Z' || '0' <= c <= '9' || c == '-' || c == '_' || c
                == '.' || c == '~' || c == '%'
        } by {
            if i < front.len() {
                assert(percent_encoded(bytes)[i] == front[i]);
            } else {
                assert(percent_encoded(bytes)[i] == last[i - front.len()]);
            }
        }
    }
}

/// A plus sign is a space, and any other byte but a percent sign is the character with its number,
/// whatever follows.
pub proof fn plain_bytes_are_decoded_alone(byte: u8, rest: Seq<u8>)
    requires
        byte != '%' as u8,
    ensures
        percent_decoded(seq![byte] + rest) == seq![
            if byte == '+' as u8 {
                ' '
            } else {
                byte as char
            },
        ] + percent_decoded(rest),
{
    let bytes = seq![byte] + rest;
    assert(bytes[0] == byte);
    assert(bytes.skip(1) =~= rest);
}

/// Two hexadecimal digits behind a percent sign give the byte that they stand for, whether their
/// letters are small or capital.
pub proof fn escapes_are_decoded(high: u8, low: u8, first: u8, second: u8, rest: Seq<u8>)
    requires
        high < 16 && low < 16,
        first == (if high < 10 {
            '0' as u8 + high
        } else {
            'a' as u8 + high - 10
        }) || first == upper_hex_digit(high) as u8,
        second == (if low < 10 {
            '0' as u8 + low
        } else {
            'a' as u8 + low - 10
        }) || second == upper_hex_digit(low) as u8,
    ensures
        percent_decoded(seq!['%' as u8, first, second] + rest) == seq![
            (16 * high + low) as u8 as char,
        ] + percent_decoded(rest),
{
    let bytes = seq!['%' as u8, first, second] + rest;
    assert(bytes[0] == '%' as u8);
    assert(bytes[1] == first);
    assert(bytes[2] == second);
    assert(hex_value(first) == Some(high));
    assert(hex_value(second) == Some(low));
    assert(bytes.skip(3) =~= rest);
}

/// Where the second byte behind a percent sign is no hexadecimal digit, or the first is neither
/// one nor a plus sign, the percent sign is left of the three.
pub proof fn broken_escapes_leave_a_percent_sign(first: u8, second: u8, rest: Seq<u8>)
    requires
        ({
            let a = first as char;
            let b = second as char;
            ||| !('0' <= b <= '9' || 'a' <= b <= 'f' || 'A' <= b <= 'F')
            ||| !('0' <= a <= '9' || 'a' <= a <= 'f' || 'A' <= a <= 'F' || a == '+')
        }),
    ensures
        percent_decoded(seq!['%' as u8, first, second] + rest) == seq!['%'] + percent_decoded(rest),
{
    let bytes = seq!['%' as u8, first, second] + rest;
    assert(bytes[0] == '%' as u8);
    assert(bytes[1] == first);
    assert(bytes[2] == second);
    assert(bytes.skip(3) =~= rest);
}

/// What ends within an escape is decoded as if zeros followed.
pub proof fn cut_off_escapes_are_filled_up(first: u8)
    ensures
        percent_decoded(seq!['%' as u8]) == percent_decoded(seq!['%' as u8, '0' as u8, '0' as u8]),
        percent_decoded(seq!['%' as u8, first]) == percent_decoded(
            seq!['%' as u8, first, '0' as u8],
        ),
{
    let none = Seq::<u8>::empty();
    let alone = seq!['%' as u8];
    let filled = seq!['%' as u8, '0' as u8, '0' as u8];
    assert(alone.skip(1) =~= none);
    assert(filled.skip(3) =~= none);
    let short = seq!['%' as u8, first];
    let longer = seq!['%' as u8, first, '0' as u8];
    assert(short.skip(2) =~= none);
    assert(longer.skip(3) =~= none);
    assert(alone[0] == '%' as u8 && filled[0] == '%' as u8 && short[0] == '%' as u8 && longer[0]
        == '%' as u8);
    assert(filled[1] == '0' as u8 && filled[2] == '0' as u8);
    assert(short[1] == first && longer[1] == first && longer[2] == '0' as u8);
}

} // verus!
