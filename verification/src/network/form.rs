//! Forms and the texts in them: percent-encoded values, decimal
//! numbers, and strings in JSON.

use crate::network::scan::{pairs_texts, Pair};
use crate::text::{chars_of, code_point, push_char};
use vstd::prelude::*;
use vstd::string::StringExecFns;
use vstd::utf8::{decode_utf8, valid_utf8};

verus! {

/// The value of a hexadecimal digit.
pub open spec fn hex_value(c: char) -> Option<int> {
    let n = c as int;
    if 0x30 <= n <= 0x39 {
        Some(n - 0x30)
    } else if 0x61 <= n <= 0x66 {
        Some(n - 0x61 + 10)
    } else if 0x41 <= n <= 0x46 {
        Some(n - 0x41 + 10)
    } else {
        None
    }
}

/// The byte that at most two characters denote in hexadecimal: one or
/// two digits, or a plus sign and one digit.
pub open spec fn hex_byte(s: Seq<char>) -> Option<u8> {
    if s.len() == 1 && hex_value(s[0]) is Some {
        Some(hex_value(s[0])->Some_0 as u8)
    } else if s.len() == 2 && hex_value(s[0]) is Some && hex_value(s[1]) is Some {
        Some((16 * hex_value(s[0])->Some_0 + hex_value(s[1])->Some_0) as u8)
    } else if s.len() == 2 && s[0] == '+' && hex_value(s[1]) is Some {
        Some(hex_value(s[1])->Some_0 as u8)
    } else {
        None
    }
}

/// The number of bytes that follow a first byte in the encoding of one
/// character, judged by the first byte.
pub open spec fn extra_bytes(byte: u8) -> nat {
    if byte >= 0xf0 {
        3
    } else if byte >= 0xe0 {
        2
    } else if byte >= 0xc0 {
        1
    } else {
        0
    }
}

/// The number of characters that at most `n` further escapes take up at
/// the beginning of `s`.  An escape is a percent sign and up to two
/// characters; a character that is no percent sign is passed over in
/// the place of an escape.
pub open spec fn follow_len(s: Seq<char>, n: nat) -> int
    decreases n,
{
    if n == 0 || s.len() == 0 {
        0
    } else if s[0] != '%' {
        1 + follow_len(s.skip(1), (n - 1) as nat)
    } else if s.len() < 3 {
        s.len() as int
    } else {
        3 + follow_len(s.skip(3), (n - 1) as nat)
    }
}

/// The bytes that at most `n` further escapes at the beginning of `s`
/// denote.  An escape that denotes no byte gives none.
pub open spec fn follow_bytes(s: Seq<char>, n: nat) -> Seq<u8>
    decreases n,
{
    if n == 0 || s.len() == 0 {
        Seq::empty()
    } else if s[0] != '%' {
        follow_bytes(s.skip(1), (n - 1) as nat)
    } else {
        let hex = s.subrange(1, if s.len() < 3 {
            s.len() as int
        } else {
            3
        });
        let rest = if s.len() < 3 {
            Seq::empty()
        } else {
            follow_bytes(s.skip(3), (n - 1) as nat)
        };
        match hex_byte(hex) {
            Some(b) => seq![b] + rest,
            None => rest,
        }
    }
}

/// Further escapes take up no more than there is.
pub proof fn follow_len_bounded(s: Seq<char>, n: nat)
    ensures
        0 <= follow_len(s, n) <= s.len(),
    decreases n,
{
    if n == 0 || s.len() == 0 {
    } else if s[0] != '%' {
        follow_len_bounded(s.skip(1), (n - 1) as nat);
    } else if s.len() >= 3 {
        follow_len_bounded(s.skip(3), (n - 1) as nat);
    }
}

/// The text that a percent-encoded text stands for.
///
/// A plus sign stands for a space.  A percent sign with two hexadecimal
/// digits stands for a byte; where that byte begins the encoding of a
/// character of several bytes, the escapes that follow give the other
/// bytes, and together they stand for the characters they encode, or
/// for a question mark if they encode none.  A percent sign that is not
/// followed by hexadecimal digits stands for itself, and so does every
/// other character.
pub open spec fn url_decoded(s: Seq<char>) -> Seq<char>
    decreases s.len(),
{
    if s.len() == 0 {
        Seq::empty()
    } else if s[0] == '+' {
        seq![' '] + url_decoded(s.skip(1))
    } else if s[0] == '%' {
        let end = if s.len() < 3 {
            s.len() as int
        } else {
            3
        };
        let hex = s.subrange(1, end);
        let rest = s.skip(end);
        match hex_byte(hex) {
            Some(b) => {
                let bytes = seq![b] + follow_bytes(rest, extra_bytes(b));
                proof {
                    follow_len_bounded(rest, extra_bytes(b));
                }
                (if valid_utf8(bytes) {
                    decode_utf8(bytes)
                } else {
                    seq!['?']
                }) + url_decoded(rest.skip(follow_len(rest, extra_bytes(b))))
            },
            None => seq!['%'] + hex + url_decoded(rest),
        }
    } else {
        seq![s[0]] + url_decoded(s.skip(1))
    }
}

/// The text that the bytes encode in UTF-8, if they encode one.
///
/// Wraps `String::from_utf8`, which checks that the bytes are valid
/// UTF-8 and, if so, hands them back as a string without changing them.
#[verifier::external_body]
fn text_of_bytes(bytes: Vec<u8>) -> (text: Option<String>)
    ensures
        text is Some == valid_utf8(bytes@),
        text is Some ==> text->Some_0@ == decode_utf8(bytes@),
{
    match String::from_utf8(bytes) {
        Ok(text) => Some(text),
        Err(_) => None,
    }
}

fn hex_digit(c: char) -> (v: Option<u8>)
    ensures
        v is Some == hex_value(c) is Some,
        v is Some ==> v->Some_0 == hex_value(c)->Some_0,
{
    let n = code_point(c);
    if 0x30 <= n && n <= 0x39 {
        Some((n - 0x30) as u8)
    } else if 0x61 <= n && n <= 0x66 {
        Some((n - 0x61 + 10) as u8)
    } else if 0x41 <= n && n <= 0x46 {
        Some((n - 0x41 + 10) as u8)
    } else {
        None
    }
}

/// The byte that the characters of `s` from `from` up to `to` denote in
/// hexadecimal.
fn read_hex(s: &Vec<char>, from: usize, to: usize) -> (b: Option<u8>)
    requires
        from <= to <= s.len(),
        to - from <= 2,
    ensures
        b == hex_byte(s@.subrange(from as int, to as int)),
{
    let ghost hex = s@.subrange(from as int, to as int);
    if to - from == 1 {
        assert(hex[0] == s@[from as int]);
        hex_digit(s[from])
    } else if to - from == 2 {
        assert(hex[0] == s@[from as int]);
        assert(hex[1] == s@[from + 1]);
        match hex_digit(s[from + 1]) {
            Some(low) => match hex_digit(s[from]) {
                Some(high) => Some(16 * high + low),
                None => {
                    if s[from] == '+' {
                        Some(low)
                    } else {
                        None
                    }
                },
            },
            None => None,
        }
    } else {
        None
    }
}

fn extra_of(byte: u8) -> (n: usize)
    ensures
        n == extra_bytes(byte),
{
    if byte >= 0xf0 {
        3
    } else if byte >= 0xe0 {
        2
    } else if byte >= 0xc0 {
        1
    } else {
        0
    }
}

/// Decodes a percent-encoded text.
pub fn url_decode(s: &str) -> (decoded: String)
    ensures
        decoded@ == url_decoded(s@),
{
    let chars = chars_of(s);
    let mut result = String::new();
    let mut i: usize = 0;
    assert(chars@.skip(0) == chars@);
    assert(Seq::<char>::empty() + url_decoded(chars@) == url_decoded(chars@));
    while i < chars.len()
        invariant
            i <= chars.len(),
            url_decoded(chars@) == result@ + url_decoded(chars@.skip(i as int)),
        decreases chars.len() - i,
    {
        let ghost rest_all = chars@.skip(i as int);
        let ghost before = result@;
        let c = chars[i];
        assert(rest_all[0] == c);
        if c == '+' {
            push_char(&mut result, ' ');
            proof {
                assert(rest_all.skip(1) == chars@.skip(i + 1));
                assert(before + (seq![' '] + url_decoded(rest_all.skip(1))) == before.push(' ')
                    + url_decoded(rest_all.skip(1)));
            }
            i = i + 1;
        } else if c == '%' {
            let end = if chars.len() - i < 3 {
                chars.len()
            } else {
                i + 3
            };
            let ghost hex = rest_all.subrange(1, end - i);
            let ghost rest = rest_all.skip(end - i);
            proof {
                assert(hex == chars@.subrange(i + 1, end as int));
                assert(rest == chars@.skip(end as int));
            }
            match read_hex(&chars, i + 1, end) {
                Some(byte) => {
                    let mut bytes: Vec<u8> = Vec::new();
                    bytes.push(byte);
                    let extra = extra_of(byte);
                    let mut at: usize = end;
                    let mut left: usize = extra;
                    proof {
                        assert(rest.skip(0) == rest);
                        assert(bytes@ + follow_bytes(rest, extra as nat) == seq![byte]
                            + follow_bytes(rest, extra as nat));
                    }
                    while left > 0 && at < chars.len()
                        invariant
                            end <= at <= chars.len(),
                            left <= extra,
                            rest == chars@.skip(end as int),
                            seq![byte] + follow_bytes(rest, extra as nat) == bytes@ + follow_bytes(
                                chars@.skip(at as int),
                                left as nat,
                            ),
                            follow_len(rest, extra as nat) == (at - end) + follow_len(
                                chars@.skip(at as int),
                                left as nat,
                            ),
                        decreases left,
                    {
                        let ghost here = chars@.skip(at as int);
                        let ghost got = bytes@;
                        assert(here[0] == chars@[at as int]);
                        if chars[at] == '%' {
                            let stop = if chars.len() - at < 3 {
                                chars.len()
                            } else {
                                at + 3
                            };
                            proof {
                                assert(here.subrange(1, stop - at) == chars@.subrange(
                                    at + 1,
                                    stop as int,
                                ));
                                if chars.len() - at >= 3 {
                                    assert(here.skip(3) == chars@.skip(stop as int));
                                }
                            }
                            match read_hex(&chars, at + 1, stop) {
                                Some(b) => {
                                    bytes.push(b);
                                    proof {
                                        let tail = if here.len() < 3 {
                                            Seq::<u8>::empty()
                                        } else {
                                            follow_bytes(here.skip(3), (left - 1) as nat)
                                        };
                                        assert(got + (seq![b] + tail) == got.push(b) + tail);
                                    }
                                },
                                None => {},
                            }
                            proof {
                                if chars.len() - at < 3 {
                                    // The text ends within this escape.
                                    assert(chars@.skip(stop as int).len() == 0);
                                    assert(bytes@ + Seq::<u8>::empty() == bytes@);
                                }
                            }
                            at = stop;
                        } else {
                            proof {
                                assert(here.skip(1) == chars@.skip(at + 1));
                            }
                            at = at + 1;
                        }
                        left = left - 1;
                    }
                    proof {
                        assert(bytes@ + Seq::<u8>::empty() == bytes@);
                        assert(seq![byte] + follow_bytes(rest, extra as nat) == bytes@);
                        assert(follow_len(rest, extra as nat) == at - end);
                        assert(rest.skip(at - end) == chars@.skip(at as int));
                    }
                    let ghost all = bytes@;
                    match text_of_bytes(bytes) {
                        Some(text) => {
                            result.append(text.as_str());
                            proof {
                                assert(before + (decode_utf8(all) + url_decoded(
                                    chars@.skip(at as int),
                                )) == (before + decode_utf8(all)) + url_decoded(
                                    chars@.skip(at as int),
                                ));
                            }
                        },
                        None => {
                            push_char(&mut result, '?');
                            proof {
                                assert(before + (seq!['?'] + url_decoded(chars@.skip(at as int)))
                                    == before.push('?') + url_decoded(chars@.skip(at as int)));
                            }
                        },
                    }
                    i = at;
                },
                None => {
                    push_char(&mut result, '%');
                    let kept = crate::network::scan::piece_text(&chars, i + 1, end);
                    result.append(kept.as_str());
                    proof {
                        assert(before + (seq!['%'] + hex + url_decoded(rest)) == (before.push('%')
                            + hex) + url_decoded(rest));
                    }
                    i = end;
                },
            }
        } else {
            push_char(&mut result, c);
            proof {
                assert(rest_all.skip(1) == chars@.skip(i + 1));
                assert(before + (seq![c] + url_decoded(rest_all.skip(1))) == before.push(c)
                    + url_decoded(rest_all.skip(1)));
            }
            i = i + 1;
        }
    }
    proof {
        assert(chars@.skip(chars.len() as int) == Seq::<char>::empty());
        assert(result@ + Seq::<char>::empty() == result@);
    }
    result
}

/// The value of a decimal digit.
pub open spec fn digit_value(c: char) -> Option<int> {
    let n = c as int;
    if 0x30 <= n <= 0x39 {
        Some(n - 0x30)
    } else {
        None
    }
}

/// The number that a text of decimal digits denotes; nothing for an
/// empty text and for a text with anything but digits in it.
pub open spec fn digits_value(s: Seq<char>) -> Option<nat>
    decreases s.len(),
{
    if s.len() == 0 || digit_value(s.last()) is None {
        None
    } else if s.len() == 1 {
        Some(digit_value(s.last())->Some_0 as nat)
    } else {
        match digits_value(s.drop_last()) {
            Some(v) => Some((10 * v + digit_value(s.last())->Some_0) as nat),
            None => None,
        }
    }
}

/// The number that a text denotes: decimal digits, with or without a
/// plus sign before them, if the number is not too great for 64 bits.
pub open spec fn number_of(s: Seq<char>) -> Option<u64> {
    let digits = if s.len() > 0 && s[0] == '+' {
        s.skip(1)
    } else {
        s
    };
    match digits_value(digits) {
        Some(v) => if v <= u64::MAX {
            Some(v as u64)
        } else {
            None
        },
        None => None,
    }
}

/// A number is no less than the number that any beginning of its
/// digits denotes, and every beginning denotes a number.
proof fn digits_value_grows(s: Seq<char>, i: int)
    requires
        1 <= i <= s.len(),
        digits_value(s) is Some,
    ensures
        digits_value(s.take(i)) is Some,
        digits_value(s.take(i))->Some_0 <= digits_value(s)->Some_0,
    decreases s.len(),
{
    if i == s.len() {
        assert(s.take(i) == s);
    } else {
        assert(s.drop_last().take(i) == s.take(i));
        digits_value_grows(s.drop_last(), i);
    }
}

/// Reads a number: decimal digits, with or without a plus sign before
/// them.
pub fn parse_number(s: &str) -> (n: Option<u64>)
    ensures
        n == number_of(s@),
{
    let chars = chars_of(s);
    let from: usize = if chars.len() > 0 && chars[0] == '+' {
        1
    } else {
        0
    };
    let ghost digits = chars@.skip(from as int);
    assert(chars@.skip(0) == chars@);
    if from >= chars.len() {
        return None;
    }
    let mut value: u64 = 0;
    let mut i: usize = from;
    while i < chars.len()
        invariant
            from <= i <= chars.len(),
            from < chars.len(),
            chars@ == s@,
            digits == chars@.skip(from as int),
            number_of(s@) == (match digits_value(digits) {
                Some(v) => if v <= u64::MAX {
                    Some(v as u64)
                } else {
                    None
                },
                None => None,
            }),
            i > from ==> digits_value(digits.take(i - from)) == Some(value as nat),
            i == from ==> value == 0,
        decreases chars.len() - i,
    {
        let n = code_point(chars[i]);
        let ghost next = digits.take(i + 1 - from);
        proof {
            assert(next.last() == chars@[i as int]);
            assert(next.drop_last() == digits.take(i - from));
            assert(digits.take(0).len() == 0);
        }
        if !(0x30 <= n && n <= 0x39) {
            proof {
                assert(digit_value(next.last()) is None);
                assert(digits_value(next) is None);
                if digits_value(digits) is Some {
                    digits_value_grows(digits, i + 1 - from);
                }
            }
            return None;
        }
        let d = (n - 0x30) as u64;
        proof {
            assert(digit_value(next.last()) == Some(d as int));
            assert(digits_value(next) == Some((10 * value + d) as nat));
        }
        if value > (u64::MAX - d) / 10 {
            proof {
                assert(10 * value + d > u64::MAX);
                if digits_value(digits) is Some {
                    digits_value_grows(digits, i + 1 - from);
                }
            }
            return None;
        }
        value = 10 * value + d;
        i = i + 1;
    }
    assert(digits.take(chars.len() - from) == digits);
    Some(value)
}

/// The counterpart of a character in a string in JSON: quotes,
/// backslashes and control characters are escaped.
pub open spec fn json_escape(c: char) -> Seq<char> {
    let n = c as int;
    if c == '"' {
        "\\\""@
    } else if c == '\\' {
        "\\\\"@
    } else if c == '\n' {
        "\\n"@
    } else if c == '\r' {
        "\\r"@
    } else if c == '\t' {
        "\\t"@
    } else if n == 0x08 {
        "\\b"@
    } else if n == 0x0c {
        "\\f"@
    } else if n < 0x20 {
        "\\u00"@ + seq![hex_digit_char(n / 16), hex_digit_char(n % 16)]
    } else {
        seq![c]
    }
}

/// The hexadecimal digit for a value below sixteen, in lower case.
pub open spec fn hex_digit_char(v: int) -> char {
    if v == 0 {
        '0'
    } else if v == 1 {
        '1'
    } else if v == 2 {
        '2'
    } else if v == 3 {
        '3'
    } else if v == 4 {
        '4'
    } else if v == 5 {
        '5'
    } else if v == 6 {
        '6'
    } else if v == 7 {
        '7'
    } else if v == 8 {
        '8'
    } else if v == 9 {
        '9'
    } else if v == 10 {
        'a'
    } else if v == 11 {
        'b'
    } else if v == 12 {
        'c'
    } else if v == 13 {
        'd'
    } else if v == 14 {
        'e'
    } else {
        'f'
    }
}

/// The text `s` with every character escaped as a string in JSON
/// requires.
pub open spec fn json_escaped(s: Seq<char>) -> Seq<char>
    decreases s.len(),
{
    if s.len() == 0 {
        Seq::empty()
    } else {
        json_escaped(s.drop_last()) + json_escape(s.last())
    }
}

/// The text `s` as a string in JSON: escaped, between quotes.
pub open spec fn json_quoted(s: Seq<char>) -> Seq<char> {
    "\""@ + json_escaped(s) + "\""@
}

fn hex_digit_of(v: u32) -> (c: char)
    requires
        v < 16,
    ensures
        c == hex_digit_char(v as int),
{
    if v == 0 {
        '0'
    } else if v == 1 {
        '1'
    } else if v == 2 {
        '2'
    } else if v == 3 {
        '3'
    } else if v == 4 {
        '4'
    } else if v == 5 {
        '5'
    } else if v == 6 {
        '6'
    } else if v == 7 {
        '7'
    } else if v == 8 {
        '8'
    } else if v == 9 {
        '9'
    } else if v == 10 {
        'a'
    } else if v == 11 {
        'b'
    } else if v == 12 {
        'c'
    } else if v == 13 {
        'd'
    } else if v == 14 {
        'e'
    } else {
        'f'
    }
}

/// Appends to `out` the text `s` as a string in JSON.
pub fn push_json_string(out: &mut String, s: &str)
    ensures
        final(out)@ == old(out)@ + json_quoted(s@),
{
    let chars = chars_of(s);
    out.append("\"");
    let mut i: usize = 0;
    assert(json_escaped(chars@.take(0)) == Seq::<char>::empty());
    assert(old(out)@ + "\""@ + Seq::<char>::empty() == old(out)@ + "\""@);
    while i < chars.len()
        invariant
            i <= chars.len(),
            out@ == old(out)@ + "\""@ + json_escaped(chars@.take(i as int)),
        decreases chars.len() - i,
    {
        let c = chars[i];
        let n = code_point(c);
        let ghost head = old(out)@ + "\""@;
        let ghost so_far = json_escaped(chars@.take(i as int));
        proof {
            assert(chars@.take(i + 1).drop_last() == chars@.take(i as int));
            assert(chars@.take(i + 1).last() == c);
        }
        if c == '"' {
            out.append("\\\"");
        } else if c == '\\' {
            out.append("\\\\");
        } else if c == '\n' {
            out.append("\\n");
        } else if c == '\r' {
            out.append("\\r");
        } else if c == '\t' {
            out.append("\\t");
        } else if n == 0x08 {
            out.append("\\b");
        } else if n == 0x0c {
            out.append("\\f");
        } else if n < 0x20 {
            out.append("\\u00");
            push_char(out, hex_digit_of(n / 16));
            push_char(out, hex_digit_of(n % 16));
            proof {
                let a = hex_digit_char((n / 16) as int);
                let b = hex_digit_char((n % 16) as int);
                assert(((head + so_far) + "\\u00"@).push(a).push(b) == (head + so_far) + ("\\u00"@
                    + seq![a, b]));
            }
        } else {
            push_char(out, c);
            assert((head + so_far).push(c) == (head + so_far) + seq![c]);
        }
        proof {
            assert((head + so_far) + json_escape(c) == head + (so_far + json_escape(c)));
        }
        i = i + 1;
    }
    assert(chars@.take(chars.len() as int) == chars@);
    out.append("\"");
}

/// The text `s` as a string in JSON.
pub fn json_string(s: &str) -> (quoted: String)
    ensures
        quoted@ == json_quoted(s@),
{
    let mut quoted = String::new();
    push_json_string(&mut quoted, s);
    assert(Seq::<char>::empty() + json_quoted(s@) == json_quoted(s@));
    quoted
}

/// The value of the field `name` of a form, or `default` if the form
/// has no such field.
pub open spec fn field_of(
    form: Seq<(Seq<char>, Seq<char>)>,
    name: Seq<char>,
    default: Seq<char>,
) -> Seq<char> {
    match crate::network::scan::lookup(form, name) {
        Some(value) => value,
        None => default,
    }
}

/// The value of the field `name` of a form, or `default` if the form
/// has no such field.
pub fn field(form: &Vec<Pair>, name: &str, default: &str) -> (value: String)
    ensures
        value@ == field_of(pairs_texts(form@), name@, default@),
{
    match crate::network::scan::get(form, name) {
        Some(value) => value.clone(),
        None => default.to_string(),
    }
}

/// A form with every value decoded.
pub open spec fn decoded_form(form: Seq<(Seq<char>, Seq<char>)>) -> Seq<(Seq<char>, Seq<char>)> {
    form.map_values(|p: (Seq<char>, Seq<char>)| (p.0, url_decoded(p.1)))
}

/// Decodes every value of a form.
pub fn decode_form(form: &Vec<Pair>) -> (decoded: Vec<Pair>)
    ensures
        pairs_texts(decoded@) == decoded_form(pairs_texts(form@)),
{
    let mut decoded: Vec<Pair> = Vec::new();
    let mut i: usize = 0;
    while i < form.len()
        invariant
            i <= form.len(),
            decoded@.len() == i,
            forall|j: int|
                0 <= j < i ==> (#[trigger] decoded@[j]).name@ == form@[j].name@ && decoded@[j].value@
                    == url_decoded(form@[j].value@),
        decreases form.len() - i,
    {
        decoded.push(
            Pair { name: form[i].name.clone(), value: url_decode(form[i].value.as_str()) },
        );
        i = i + 1;
    }
    assert(pairs_texts(decoded@) =~= decoded_form(pairs_texts(form@)));
    decoded
}

} // verus!
