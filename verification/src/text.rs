//! Operations of `str` that the configuration and the request headers are read with.

use vstd::prelude::*;

verus! {

/// The characters with the Unicode property `White_Space`.
pub open spec fn is_white_space(c: char) -> bool {
    ||| '\u{9}' <= c <= '\u{d}'
    ||| c == ' '
    ||| c == '\u{85}'
    ||| c == '\u{a0}'
    ||| c == '\u{1680}'
    ||| '\u{2000}' <= c <= '\u{200a}'
    ||| c == '\u{2028}'
    ||| c == '\u{2029}'
    ||| c == '\u{202f}'
    ||| c == '\u{205f}'
    ||| c == '\u{3000}'
}

/// `text` without the white space that it starts with.
pub open spec fn trim_start(text: Seq<char>) -> Seq<char>
    decreases text.len(),
{
    if text.len() > 0 && is_white_space(text.first()) {
        trim_start(text.drop_first())
    } else {
        text
    }
}

/// `text` without the white space that it ends with.
pub open spec fn trim_end(text: Seq<char>) -> Seq<char>
    decreases text.len(),
{
    if text.len() > 0 && is_white_space(text.last()) {
        trim_end(text.drop_last())
    } else {
        text
    }
}

/// `text` without the white space around it.
pub open spec fn trimmed(text: Seq<char>) -> Seq<char> {
    trim_end(trim_start(text))
}

/// The pieces of `text` between the separators, in order: one more than there are separators.
pub open spec fn pieces(text: Seq<char>, separator: char) -> Seq<Seq<char>>
    decreases text.len(),
{
    if text.len() == 0 {
        seq![Seq::empty()]
    } else {
        let earlier = pieces(text.drop_last(), separator);
        if text.last() == separator {
            earlier.push(Seq::empty())
        } else {
            earlier.drop_last().push(earlier.last().push(text.last()))
        }
    }
}

/// The text consists of decimal digits, at least one.
pub open spec fn is_decimal(text: Seq<char>) -> bool {
    text.len() > 0 && forall|i: int| 0 <= i < text.len() ==> '0' <= #[trigger] text[i] <= '9'
}

/// The value of a sequence of decimal digits.
pub open spec fn decimal(digits: Seq<char>) -> nat
    decreases digits.len(),
{
    if digits.len() == 0 {
        0
    } else {
        decimal(digits.drop_last()) * 10 + (digits.last() as nat - '0' as nat) as nat
    }
}

/// The number that `text` stands for: decimal digits, at least one, after an optional plus sign,
/// with a value that fits.
pub open spec fn port_number(text: Seq<char>) -> Option<u16> {
    let digits = if text.len() > 0 && text[0] == '+' {
        text.skip(1)
    } else {
        text
    };
    if is_decimal(digits) && decimal(digits) <= u16::MAX {
        Some(decimal(digits) as u16)
    } else {
        None
    }
}

/// The characters of `text` from `i` on, and before `j`, are all white space.
pub open spec fn is_blank(text: Seq<char>, i: int, j: int) -> bool {
    forall|k: int| i <= k < j ==> is_white_space(#[trigger] text[k])
}

/// The characters of `text` from `i` on, and before `j`, are all that stands between two separators,
/// or between one and an end of the text.
pub open spec fn is_run_between(text: Seq<char>, separator: char, i: int, j: int) -> bool {
    &&& 0 <= i <= j <= text.len()
    &&& i == 0 || text[i - 1] == separator
    &&& j == text.len() || text[j] == separator
    &&& forall|k: int| i <= k < j ==> #[trigger] text[k] != separator
}

proof fn lemma_trim_start(text: Seq<char>)
    ensures
        trim_start(text).len() > 0 ==> !is_white_space(trim_start(text).first()),
        exists|from: int|
            0 <= from <= text.len() && is_blank(text, 0, from) && trim_start(text)
                == #[trigger] text.subrange(from, text.len() as int),
    decreases text.len(),
{
    if text.len() > 0 && is_white_space(text.first()) {
        let rest = text.drop_first();
        lemma_trim_start(rest);
        let from = choose|from: int|
            0 <= from <= rest.len() && is_blank(rest, 0, from) && trim_start(rest)
                == #[trigger] rest.subrange(from, rest.len() as int);
        assert(trim_start(text) =~= text.subrange(from + 1, text.len() as int));
        assert forall|i: int| 0 <= i < from + 1 implies is_white_space(#[trigger] text[i]) by {
            if i > 0 {
                assert(rest[i - 1] == text[i]);
            }
        }
    } else {
        assert(text =~= text.subrange(0, text.len() as int));
    }
}

proof fn lemma_trim_end(text: Seq<char>)
    ensures
        trim_end(text).len() > 0 ==> !is_white_space(trim_end(text).last()),
        trim_end(text).len() > 0 ==> trim_end(text).first() == text.first(),
        exists|to: int|
            0 <= to <= text.len() && is_blank(text, to, text.len() as int) && trim_end(text)
                == #[trigger] text.subrange(0, to),
    decreases text.len(),
{
    if text.len() > 0 && is_white_space(text.last()) {
        let rest = text.drop_last();
        lemma_trim_end(rest);
        let to = choose|to: int|
            0 <= to <= rest.len() && is_blank(rest, to, rest.len() as int) && trim_end(rest)
                == #[trigger] rest.subrange(0, to);
        assert(trim_end(text) =~= text.subrange(0, to));
        assert forall|i: int| to <= i < text.len() implies is_white_space(#[trigger] text[i]) by {
            if i < rest.len() {
                assert(rest[i] == text[i]);
            }
        }
    } else {
        assert(text =~= text.subrange(0, text.len() as int));
    }
}

/// A trimmed text neither starts nor ends with white space, and is a part of the text, with nothing
/// but white space around it.
pub proof fn law_trimmed(text: Seq<char>)
    ensures
        trimmed(text).len() > 0 ==> !is_white_space(trimmed(text).first()) && !is_white_space(
            trimmed(text).last(),
        ),
        exists|from: int, to: int|
            0 <= from <= to <= text.len() && is_blank(text, 0, from) && is_blank(
                text,
                to,
                text.len() as int,
            ) && trimmed(text) == #[trigger] text.subrange(from, to),
{
    lemma_trim_start(text);
    let start = trim_start(text);
    lemma_trim_end(start);
    let from = choose|from: int|
        0 <= from <= text.len() && is_blank(text, 0, from) && start == #[trigger] text.subrange(
            from,
            text.len() as int,
        );
    let to = choose|to: int|
        0 <= to <= start.len() && is_blank(start, to, start.len() as int) && trim_end(start)
            == #[trigger] start.subrange(0, to);
    assert(trimmed(text) =~= text.subrange(from, from + to));
    assert forall|i: int| from + to <= i < text.len() implies is_white_space(
        #[trigger] text[i],
    ) by {
        assert(start[i - from] == text[i]);
    }
}

/// What stands between white space on both sides, and neither starts nor ends with it, is what is left
/// of the text when it is trimmed.
pub proof fn law_trimmed_is_the_core(text: Seq<char>, from: int, to: int)
    requires
        0 <= from < to <= text.len(),
        is_blank(text, 0, from),
        is_blank(text, to, text.len() as int),
        !is_white_space(text[from]),
        !is_white_space(text[to - 1]),
    ensures
        trimmed(text) == text.subrange(from, to),
{
    law_trimmed(text);
    let (a, b) = choose|a: int, b: int|
        0 <= a <= b <= text.len() && is_blank(text, 0, a) && is_blank(text, b, text.len() as int)
            && trimmed(text) == #[trigger] text.subrange(a, b);
    assert(a <= from && to <= b);
    assert(trimmed(text).first() == text[a] && trimmed(text).last() == text[b - 1]);
}

/// No piece of a text contains the separator.
pub proof fn law_pieces_have_no_separator(text: Seq<char>, separator: char, i: int)
    requires
        0 <= i < pieces(text, separator).len(),
    ensures
        !pieces(text, separator)[i].contains(separator),
    decreases text.len(),
{
    if text.len() > 0 {
        let earlier = pieces(text.drop_last(), separator);
        lemma_pieces_exist(text.drop_last(), separator);
        if i < earlier.len() {
            law_pieces_have_no_separator(text.drop_last(), separator, i);
        }
        if text.last() != separator && i == earlier.len() - 1 {
            let piece = earlier.last().push(text.last());
            assert forall|j: int| 0 <= j < piece.len() implies #[trigger] piece[j] != separator by {
                if j < earlier.last().len() {
                    assert(earlier.last().contains(earlier.last()[j]));
                }
            }
        }
    }
}

/// There is at least one piece.
proof fn lemma_pieces_exist(text: Seq<char>, separator: char)
    ensures
        pieces(text, separator).len() > 0,
    decreases text.len(),
{
    if text.len() > 0 {
        lemma_pieces_exist(text.drop_last(), separator);
    }
}

/// The last piece is what stands after the last separator.
proof fn lemma_last_piece(text: Seq<char>, separator: char)
    ensures
        exists|i: int|
            #![trigger text.subrange(i, text.len() as int)]
            is_run_between(text, separator, i, text.len() as int) && pieces(text, separator).last()
                == text.subrange(i, text.len() as int),
    decreases text.len(),
{
    let n = text.len() as int;
    if n == 0 {
        assert(text.subrange(0, n) =~= Seq::empty());
    } else {
        let rest = text.drop_last();
        lemma_last_piece(rest, separator);
        lemma_pieces_exist(rest, separator);
        if text.last() == separator {
            assert(text.subrange(n, n) =~= Seq::empty());
        } else {
            let i = choose|i: int|
                #![trigger rest.subrange(i, rest.len() as int)]
                is_run_between(rest, separator, i, rest.len() as int) && pieces(
                    rest,
                    separator,
                ).last() == rest.subrange(i, rest.len() as int);
            assert(text.subrange(i, n) =~= rest.subrange(i, n - 1).push(text.last()));
            assert(i > 0 ==> rest[i - 1] == text[i - 1]);
            assert forall|k: int| i <= k < n implies #[trigger] text[k] != separator by {
                if k < n - 1 {
                    assert(rest[k] == text[k]);
                }
            }
        }
    }
}

/// There is only one run that ends where the text ends.
proof fn lemma_last_run_is_unique(text: Seq<char>, separator: char, i: int, j: int)
    requires
        is_run_between(text, separator, i, text.len() as int),
        is_run_between(text, separator, j, text.len() as int),
    ensures
        i == j,
{
    if i < j {
        assert(text[j - 1] != separator);
    }
    if j < i {
        assert(text[i - 1] != separator);
    }
}

/// Every run between separators is a piece, in front of the last one unless the text ends with it.
proof fn lemma_run_is_a_piece(text: Seq<char>, separator: char, i: int, j: int)
    requires
        is_run_between(text, separator, i, j),
    ensures
        exists|p: int|
            0 <= p < pieces(text, separator).len() && (j < text.len() ==> p < pieces(
                text,
                separator,
            ).len() - 1) && #[trigger] pieces(text, separator)[p] == text.subrange(i, j),
    decreases text.len(),
{
    let n = text.len() as int;
    let all = pieces(text, separator);
    lemma_pieces_exist(text, separator);
    if j == n {
        lemma_last_piece(text, separator);
        let l = choose|l: int|
            #![trigger text.subrange(l, text.len() as int)]
            is_run_between(text, separator, l, text.len() as int) && all.last() == text.subrange(
                l,
                text.len() as int,
            );
        lemma_last_run_is_unique(text, separator, i, l);
        assert(all[all.len() - 1] == text.subrange(i, j));
    } else {
        let rest = text.drop_last();
        assert(is_run_between(rest, separator, i, j)) by {
            assert(i > 0 ==> rest[i - 1] == text[i - 1]);
            assert(j < rest.len() ==> rest[j] == text[j]);
            assert forall|k: int| i <= k < j implies #[trigger] rest[k] != separator by {
                assert(text[k] != separator);
            }
        }
        lemma_run_is_a_piece(rest, separator, i, j);
        let earlier = pieces(rest, separator);
        let p = choose|p: int|
            0 <= p < earlier.len() && (j < rest.len() ==> p < earlier.len() - 1)
                && #[trigger] earlier[p] == rest.subrange(i, j);
        assert(text.subrange(i, j) =~= rest.subrange(i, j));
        assert(all[p] == text.subrange(i, j));
    }
}

/// Every piece is a run between separators, and ends before the text does unless it is the last.
proof fn lemma_piece_is_a_run(text: Seq<char>, separator: char, p: int)
    requires
        0 <= p < pieces(text, separator).len(),
    ensures
        exists|i: int, j: int|
            is_run_between(text, separator, i, j) && (p < pieces(text, separator).len() - 1 ==> j
                < text.len()) && pieces(text, separator)[p] == #[trigger] text.subrange(i, j),
    decreases text.len(),
{
    let n = text.len() as int;
    let all = pieces(text, separator);
    if p == all.len() - 1 {
        lemma_last_piece(text, separator);
    } else {
        let rest = text.drop_last();
        let earlier = pieces(rest, separator);
        lemma_pieces_exist(rest, separator);
        lemma_piece_is_a_run(rest, separator, p);
        let (i, j) = choose|i: int, j: int|
            is_run_between(rest, separator, i, j) && (p < earlier.len() - 1 ==> j < rest.len())
                && earlier[p] == #[trigger] rest.subrange(i, j);
        assert(text.subrange(i, j) =~= rest.subrange(i, j));
        assert(is_run_between(text, separator, i, j)) by {
            assert(i > 0 ==> rest[i - 1] == text[i - 1]);
            assert(j < rest.len() ==> rest[j] == text[j]);
            assert forall|k: int| i <= k < j implies #[trigger] text[k] != separator by {
                assert(rest[k] != separator);
            }
        }
        assert(all[p] == text.subrange(i, j));
    }
}

/// The pieces of a text are exactly what stands between the separators.
pub proof fn law_pieces_are_what_is_between(text: Seq<char>, separator: char)
    ensures
        forall|i: int, j: int|
            #![trigger text.subrange(i, j)]
            is_run_between(text, separator, i, j) ==> pieces(text, separator).contains(
                text.subrange(i, j),
            ),
        forall|piece: Seq<char>| #[trigger]
            pieces(text, separator).contains(piece) ==> exists|i: int, j: int|
                is_run_between(text, separator, i, j) && piece == #[trigger] text.subrange(i, j),
{
    assert forall|i: int, j: int|
        #![trigger text.subrange(i, j)]
        is_run_between(text, separator, i, j) implies pieces(text, separator).contains(
        text.subrange(i, j),
    ) by {
        lemma_run_is_a_piece(text, separator, i, j);
    }
    assert forall|piece: Seq<char>| #[trigger]
        pieces(text, separator).contains(piece) implies exists|i: int, j: int|
        is_run_between(text, separator, i, j) && piece == #[trigger] text.subrange(i, j) by {
        let p = choose|p: int|
            0 <= p < pieces(text, separator).len() && pieces(text, separator)[p] == piece;
        lemma_piece_is_a_run(text, separator, p);
    }
}

/// The pieces of a text, with the separator between each two of them.
pub open spec fn rejoined(pieces: Seq<Seq<char>>, separator: char) -> Seq<char>
    decreases pieces.len(),
{
    if pieces.len() == 0 {
        Seq::empty()
    } else if pieces.len() == 1 {
        pieces[0]
    } else {
        rejoined(pieces.drop_last(), separator).push(separator) + pieces.last()
    }
}

/// A text is its pieces with the separator between each two of them: nothing is lost or reordered.
pub proof fn law_pieces_make_up_the_text(text: Seq<char>, separator: char)
    ensures
        rejoined(pieces(text, separator), separator) == text,
    decreases text.len(),
{
    let all = pieces(text, separator);
    if text.len() == 0 {
        assert(rejoined(all, separator) =~= text);
    } else {
        let rest = text.drop_last();
        let earlier = pieces(rest, separator);
        law_pieces_make_up_the_text(rest, separator);
        lemma_pieces_exist(rest, separator);
        if text.last() == separator {
            assert(all.drop_last() =~= earlier);
            assert(rejoined(all, separator) =~= text);
        } else {
            assert(all.drop_last() =~= earlier.drop_last());
            assert(rejoined(all, separator) =~= rejoined(earlier, separator).push(text.last()));
            assert(rest.push(text.last()) =~= text);
        }
    }
}

/// A number is read digit by digit: a further digit makes it ten times as large and adds its value, as
/// long as it fits, and a text that stands for no number does not come to stand for one by a digit
/// after it, unless it is empty or a plus sign.
pub proof fn law_number_is_read_by_digits(text: Seq<char>, digit: char)
    requires
        '0' <= digit <= '9',
        text.len() > 0,
        text != seq!['+'],
    ensures
        port_number(text.push(digit)) == (match port_number(text) {
            Some(number) => if number * 10 + (digit as int - '0' as int) <= u16::MAX {
                Some((number * 10 + (digit as int - '0' as int)) as u16)
            } else {
                None
            },
            None => None,
        }),
{
    let longer = text.push(digit);
    let (digits, more) = if text[0] == '+' {
        (text.skip(1), longer.skip(1))
    } else {
        (text, longer)
    };
    assert(more.drop_last() =~= digits);
    assert(more.last() == digit);
    assert(text[0] == '+' && text.len() == 1 ==> text =~= seq!['+']);
    if is_decimal(more) {
        assert forall|i: int| 0 <= i < digits.len() implies '0' <= #[trigger] digits[i] <= '9' by {
            assert(more[i] == digits[i]);
        }
    }
    if is_decimal(digits) {
        assert forall|i: int| 0 <= i < more.len() implies '0' <= #[trigger] more[i] <= '9' by {
            if i < digits.len() {
                assert(more[i] == digits[i]);
            }
        }
    }
    assert(decimal(more) == decimal(digits) * 10 + (digit as nat - '0' as nat) as nat);
}

/// A single digit stands for its value; nothing, or another single character, stands for no number.
pub proof fn law_number_starts_with_a_digit(c: char)
    ensures
        port_number(seq![c]) == if '0' <= c <= '9' {
            Some((c as int - '0' as int) as u16)
        } else {
            None
        },
        port_number(seq!['+', c]) == port_number(seq![c]),
        port_number(Seq::empty()) is None,
{
    reveal_with_fuel(decimal, 2);
    assert(seq!['+', c].skip(1) =~= seq![c]);
    assert(seq!['+'].skip(1) =~= Seq::empty());
    assert(seq![c][0] == c);
    assert(seq![c].drop_last() =~= Seq::empty());
    if is_decimal(seq![c]) {
        assert('0' <= seq![c][0] <= '9');
    }
}

/// `str::split` on a character, collected: the pieces of the text between the separators.
#[verifier::external_body]
pub(crate) fn split<'a>(text: &'a str, separator: char) -> (parts: Vec<&'a str>)
    ensures
        parts@.len() == pieces(text@, separator).len(),
        forall|i: int|
            0 <= i < parts@.len() ==> (#[trigger] parts@[i])@ == pieces(text@, separator)[i],
{
    text.split(separator).collect()
}

/// `str::trim`: the text without leading and trailing white space, in the sense of the Unicode
/// property `White_Space`.
#[verifier::external_body]
pub(crate) fn trim<'a>(text: &'a str) -> (inner: &'a str)
    ensures
        inner@ == trimmed(text@),
{
    text.trim()
}

/// `str::strip_prefix` with a string: the rest of the text after the prefix, if it starts with it.
#[verifier::external_body]
pub(crate) fn strip_prefix<'a>(text: &'a str, prefix: &str) -> (rest: Option<&'a str>)
    ensures
        rest is Some <==> prefix@.is_prefix_of(text@),
        rest matches Some(rest) ==> rest@ == text@.skip(prefix@.len() as int),
{
    text.strip_prefix(prefix)
}

/// `str::parse::<u16>`: the number that the text stands for, if it stands for one.
#[verifier::external_body]
pub(crate) fn parse_u16(text: &str) -> (number: Option<u16>)
    ensures
        number == port_number(text@),
{
    text.parse::<u16>().ok()
}

} // verus!
