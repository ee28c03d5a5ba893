//! JSON texts: what `serde_json` writes for an object with one text member.

use vstd::prelude::*;
use vstd::utf8::{decode_utf8, encode_utf8, encode_utf8_decode_utf8};

verus! {

/// `serde_json::Error`.
#[verifier::external_type_specification]
#[verifier::external_body]
pub struct ExJsonError(serde_json::Error);

/// A hexadecimal digit, in lower case.
pub open spec fn hex_digit(value: int) -> char {
    if value < 10 {
        ('0' as int + value) as char
    } else {
        ('a' as int + value - 10) as char
    }
}

/// How a character is written inside a JSON string.
pub open spec fn escape(c: char) -> Seq<char> {
    if c == '"' {
        seq!['\\', '"']
    } else if c == '\\' {
        seq!['\\', '\\']
    } else if c == '\u{8}' {
        seq!['\\', 'b']
    } else if c == '\u{9}' {
        seq!['\\', 't']
    } else if c == '\u{a}' {
        seq!['\\', 'n']
    } else if c == '\u{c}' {
        seq!['\\', 'f']
    } else if c == '\u{d}' {
        seq!['\\', 'r']
    } else if (c as int) < 0x20 {
        seq!['\\', 'u', '0', '0', hex_digit(c as int / 16), hex_digit(c as int % 16)]
    } else {
        seq![c]
    }
}

/// How a text is written inside a JSON string.
pub open spec fn escaped(text: Seq<char>) -> Seq<char>
    decreases text.len(),
{
    if text.len() == 0 {
        Seq::empty()
    } else {
        escape(text.first()) + escaped(text.drop_first())
    }
}

/// The JSON object whose one member has the given name and text, without white space.
pub open spec fn object_text(name: Seq<char>, text: Seq<char>) -> Seq<char> {
    "{\""@ + escaped(name) + "\":\""@ + escaped(text) + "\"}"@
}

/// `serde_json::to_vec` of an object with one text member. `to_vec` fails only where the value
/// itself refuses to be written or has keys other than strings; this one does neither.
#[verifier::external_body]
pub(crate) fn object_to_vec(name: String, text: String) -> (written: Result<
    Vec<u8>,
    serde_json::Error,
>)
    ensures
        written is Ok,
        written->Ok_0@ == encode_utf8(object_text(name@, text@)),
{
    let mut object = serde_json::Map::new();
    object.insert(name, serde_json::Value::String(text));
    serde_json::to_vec(&serde_json::Value::Object(object))
}

/// The value of a hexadecimal digit in lower case.
pub open spec fn digit_value(digit: char) -> int {
    if (digit as int) < 'a' as int {
        digit as int - '0' as int
    } else {
        digit as int - 'a' as int + 10
    }
}

/// The character that a two-character escape stands for, by its second character.
pub open spec fn short_escape(c: char) -> char {
    if c == 'b' {
        '\u{8}'
    } else if c == 't' {
        '\u{9}'
    } else if c == 'n' {
        '\u{a}'
    } else if c == 'f' {
        '\u{c}'
    } else if c == 'r' {
        '\u{d}'
    } else {
        c
    }
}

/// The text that a reader of the inside of a JSON string gets: escapes are replaced by what they
/// stand for, an escape by number by the character with this number.
pub open spec fn unescaped(text: Seq<char>) -> Seq<char>
    decreases text.len(),
{
    if text.len() == 0 {
        Seq::empty()
    } else if text[0] != '\\' {
        seq![text[0]] + unescaped(text.skip(1))
    } else if text.len() >= 6 && text[1] == 'u' {
        let high = digit_value(text[2]) * 16 + digit_value(text[3]);
        let low = digit_value(text[4]) * 16 + digit_value(text[5]);
        seq![(high * 256 + low) as char] + unescaped(text.skip(6))
    } else if text.len() >= 2 {
        seq![short_escape(text[1])] + unescaped(text.skip(2))
    } else {
        Seq::empty()
    }
}

/// The text that a reader gets of the JSON object whose one member has the given name.
pub open spec fn text_of(name: Seq<char>, json: Seq<u8>) -> Seq<char> {
    let object = decode_utf8(json);
    let start = ("{\""@ + escaped(name) + "\":\""@).len() as int;
    unescaped(object.subrange(start, object.len() - "\"}"@.len()))
}

proof fn lemma_unescaped_escape(c: char, rest: Seq<char>)
    ensures
        unescaped(escape(c) + rest) == seq![c] + unescaped(rest),
{
    let text = escape(c) + rest;
    assert(text.skip(escape(c).len() as int) =~= rest);
    assert(text[0] == escape(c)[0]);
    if text[0] == '\\' {
        assert(text[1] == escape(c)[1]);
        if text[1] == 'u' {
            assert(text[2] == escape(c)[2] && text[3] == escape(c)[3]);
            assert(text[4] == escape(c)[4] && text[5] == escape(c)[5]);
        }
    }
}

proof fn lemma_unescaped_escaped(text: Seq<char>)
    ensures
        unescaped(escaped(text)) == text,
    decreases text.len(),
{
    if text.len() > 0 {
        lemma_unescaped_escaped(text.drop_first());
        lemma_unescaped_escape(text.first(), escaped(text.drop_first()));
        assert(seq![text.first()] + text.drop_first() =~= text);
    } else {
        assert(unescaped(escaped(text)) =~= text);
    }
}

/// A reader of what is written for an object with one text member gets the text back.
pub proof fn law_text_is_read_back(name: Seq<char>, text: Seq<char>)
    ensures
        text_of(name, encode_utf8(object_text(name, text))) == text,
{
    let object = object_text(name, text);
    let head = "{\""@ + escaped(name) + "\":\""@;
    encode_utf8_decode_utf8(object);
    assert(escaped(text) =~= object.subrange(
        head.len() as int,
        object.len() - "\"}"@.len(),
    ));
    lemma_unescaped_escaped(text);
}

/// A text without quotes, backslashes and control characters is written as it is.
pub proof fn law_plain_text_is_written_as_it_is(text: Seq<char>)
    requires
        forall|i: int|
            0 <= i < text.len() ==> #[trigger] text[i] != '"' && text[i] != '\\' && text[i] as int
                >= 0x20,
    ensures
        escaped(text) == text,
    decreases text.len(),
{
    if text.len() > 0 {
        let rest = text.drop_first();
        assert forall|i: int| 0 <= i < rest.len() implies #[trigger] rest[i] != '"' && rest[i]
            != '\\' && rest[i] as int >= 0x20 by {
            assert(rest[i] == text[i + 1]);
        }
        law_plain_text_is_written_as_it_is(rest);
        assert(text[0] == text.first());
        assert(seq![text.first()] + rest =~= text);
    } else {
        assert(escaped(text) =~= text);
    }
}

/// What is written for an object with one text member tells its text: two texts that are written
/// alike are the same.
pub proof fn law_text_is_recoverable(name: Seq<char>, a: Seq<char>, b: Seq<char>)
    requires
        encode_utf8(object_text(name, a)) == encode_utf8(object_text(name, b)),
    ensures
        a == b,
{
    law_text_is_read_back(name, a);
    law_text_is_read_back(name, b);
}

} // verus!
