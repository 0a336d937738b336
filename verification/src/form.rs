//! Bodies of HTTP requests in the form of an HTML form.

use crate::percent::{
    as_bytes, as_chars, decoding_keeps_byte, decoding_undoes_escape, percent_decoded,
    upper_hex_digit,
};
use crate::text;
use url::form_urlencoded;
use vstd::prelude::*;
use vstd::utf8::{encode_utf8, is_ascii_chars};

verus! {

/// Whether a byte stands for itself in a form.
pub open spec fn is_form_safe(byte: u8) -> bool {
    'A' as u8 <= byte <= 'Z' as u8 || 'a' as u8 <= byte <= 'z' as u8 || '0' as u8 <= byte
        <= '9' as u8 || byte == '*' as u8 || byte == '-' as u8 || byte == '.' as u8 || byte
        == '_' as u8
}

/// A byte in a form: itself, a plus sign for a space, or a percent sign and its two hexadecimal
/// digits.
pub open spec fn form_byte(byte: u8) -> Seq<char> {
    if is_form_safe(byte) {
        seq![byte as char]
    } else if byte == ' ' as u8 {
        seq!['+']
    } else {
        seq!['%', upper_hex_digit(byte / 16), upper_hex_digit(byte % 16)]
    }
}

/// Bytes in a form.
pub open spec fn form_bytes(bytes: Seq<u8>) -> Seq<char>
    decreases bytes.len(),
{
    if bytes.len() == 0 {
        Seq::empty()
    } else {
        form_bytes(bytes.drop_last()) + form_byte(bytes.last())
    }
}

/// A field of a form: its name, an equals sign and its value.
pub open spec fn form_field(field: (String, String)) -> Seq<char> {
    form_bytes(encode_utf8(field.0@)) + seq!['='] + form_bytes(encode_utf8(field.1@))
}

/// The fields of a form.
pub open spec fn form_fields(fields: Seq<(String, String)>) -> Seq<Seq<char>> {
    Seq::new(fields.len(), |i: int| form_field(fields[i]))
}

/// Writes a form by `form_urlencoded::Serializer` of `url`: the fields in their order, with an
/// ampersand between each two.
#[verifier::external_body]
pub(crate) fn form_body(fields: &Vec<(String, String)>) -> (body: String)
    ensures
        body@ == text::join(form_fields(fields@), seq!['&']),
{
    form_urlencoded::Serializer::new(String::new()).extend_pairs(fields).finish()
}

proof fn decoding_reads_form_bytes_before(bytes: Seq<u8>, rest: Seq<u8>)
    ensures
        percent_decoded(as_bytes(form_bytes(bytes)) + rest) == as_chars(bytes) + percent_decoded(
            rest,
        ),
        is_ascii_chars(form_bytes(bytes)),
    decreases bytes.len(),
{
    if bytes.len() == 0 {
        assert(as_bytes(form_bytes(bytes)) + rest =~= rest);
        assert(as_chars(bytes) + percent_decoded(rest) =~= percent_decoded(rest));
    } else {
        let front = bytes.drop_last();
        let last = bytes.last();
        let tail = as_bytes(form_byte(last)) + rest;
        decoding_reads_form_bytes_before(front, tail);
        if is_form_safe(last) {
            decoding_keeps_byte(last, rest);
        } else if last == ' ' as u8 {
            assert(tail[0] == '+' as u8);
            assert(tail.skip(1) =~= rest);
        } else {
            decoding_undoes_escape(last, rest);
        }
        assert(as_bytes(form_bytes(bytes)) + rest =~= as_bytes(form_bytes(front)) + tail);
        assert(as_chars(bytes) + percent_decoded(rest) =~= as_chars(front) + (seq![last as char]
            + percent_decoded(rest)));
    }
}

/// What a form holds can be read back: decoding a name or a value gives its bytes.
pub proof fn decoding_reads_form_bytes(bytes: Seq<u8>)
    ensures
        percent_decoded(encode_utf8(form_bytes(bytes))) == as_chars(bytes),
{
    let written = form_bytes(bytes);
    decoding_reads_form_bytes_before(bytes, Seq::empty());
    vstd::utf8::is_ascii_chars_encode_utf8(written);
    assert(encode_utf8(written) =~= as_bytes(written) + Seq::<u8>::empty());
    assert(as_chars(bytes) + percent_decoded(Seq::<u8>::empty()) =~= as_chars(bytes));
}

/// Letters, digits and `*-._` stand for themselves in a form, a space is a plus sign, and every
/// other byte takes three characters.
pub proof fn only_safe_bytes_stand_for_themselves(byte: u8)
    ensures
        ({
            let c = byte as char;
            let written = form_bytes(seq![byte]);
            if 'a' <= c <= 'z' || 'A' <= c <= 'Z' || '0' <= c <= '9' || c == '*' || c == '-' || c
                == '.' || c == '_' {
                written == seq![c]
            } else if c == ' ' {
                written == seq!['+']
            } else {
                written.len() == 3 && written[0] == '%'
            }
        }),
{
    let one = seq![byte];
    assert(one.drop_last() =~= Seq::empty());
    assert(form_bytes(one.drop_last()) =~= Seq::empty());
    assert(form_bytes(one) =~= form_byte(byte));
}

/// Bytes one behind the other stand one behind the other in a form.
pub proof fn form_bytes_come_in_order(first: Seq<u8>, second: Seq<u8>)
    ensures
        form_bytes(first + second) == form_bytes(first) + form_bytes(second),
    decreases second.len(),
{
    if second.len() == 0 {
        assert(first + second =~= first);
        assert(form_bytes(first) + form_bytes(second) =~= form_bytes(first));
    } else {
        form_bytes_come_in_order(first, second.drop_last());
        assert((first + second).drop_last() =~= first + second.drop_last());
        assert(form_bytes(first + second) =~= form_bytes(first) + form_bytes(second));
    }
}

} // verus!
