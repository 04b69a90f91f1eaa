//! What is kept of a text and how numbers are written, said of what goes in and what
//! comes out.

use crate::text::{
    decimal_text, digit_char, holds, is_space, last_filled_line, last_line_feed,
    lemma_last_line_feed_bounds, shortened, signed_text, stands_at, trimmed, trimmed_end,
    trimmed_start, without_line_end,
};
use vstd::prelude::*;

verus! {

/// The codes of white space.
pub open spec fn space_codes() -> Seq<u32> {
    seq![
        0x9u32,
        0xA,
        0xB,
        0xC,
        0xD,
        0x20,
        0x85,
        0xA0,
        0x1680,
        0x2000,
        0x2001,
        0x2002,
        0x2003,
        0x2004,
        0x2005,
        0x2006,
        0x2007,
        0x2008,
        0x2009,
        0x200A,
        0x2028,
        0x2029,
        0x202F,
        0x205F,
        0x3000,
    ]
}

/// White space is what Unicode calls white space.
pub proof fn law_white_space_has_these_codes(c: char)
    ensures
        is_space(c) ==> space_codes().contains(c as u32),
        forall|i: int| 0 <= i < space_codes().len() && #[trigger] space_codes()[i] == c as u32 ==> is_space(c),
{
    if is_space(c) {
        let code = c as u32;
        let codes = space_codes();
        if code <= 0xD {
            assert(codes[code - 9] == code);
        } else if code == 0x20 {
            assert(codes[5] == code);
        } else if code == 0x85 {
            assert(codes[6] == code);
        } else if code == 0xA0 {
            assert(codes[7] == code);
        } else if code == 0x1680 {
            assert(codes[8] == code);
        } else if code <= 0x200A {
            assert(codes[code - 0x2000 + 9] == code);
        } else if code == 0x2028 {
            assert(codes[20] == code);
        } else if code == 0x2029 {
            assert(codes[21] == code);
        } else if code == 0x202F {
            assert(codes[22] == code);
        } else if code == 0x205F {
            assert(codes[23] == code);
        } else {
            assert(codes[24] == code);
        }
    }
}

proof fn lemma_start(text: Seq<char>) -> (from: int)
    ensures
        0 <= from <= text.len(),
        trimmed_start(text) == text.skip(from),
        forall|i: int| 0 <= i < from ==> is_space(#[trigger] text[i]),
        from < text.len() ==> !is_space(text[from]),
    decreases text.len(),
{
    if text.len() > 0 && is_space(text.first()) {
        let rest = text.drop_first();
        let from = lemma_start(rest);
        assert(rest.skip(from) =~= text.skip(from + 1));
        assert forall|i: int| 0 <= i < from + 1 implies is_space(#[trigger] text[i]) by {
            if i > 0 {
                assert(rest[i - 1] == text[i]);
            }
        }
        if from < rest.len() {
            assert(rest[from] == text[from + 1]);
        }
        from + 1
    } else {
        assert(text.skip(0) =~= text);
        0
    }
}

proof fn lemma_end(text: Seq<char>) -> (to: int)
    ensures
        0 <= to <= text.len(),
        trimmed_end(text) == text.take(to),
        forall|i: int| to <= i < text.len() ==> is_space(#[trigger] text[i]),
        to > 0 ==> !is_space(text[to - 1]),
    decreases text.len(),
{
    if text.len() > 0 && is_space(text.last()) {
        let rest = text.drop_last();
        let to = lemma_end(rest);
        assert(rest.take(to) =~= text.take(to));
        assert forall|i: int| to <= i < text.len() implies is_space(#[trigger] text[i]) by {
            if i < text.len() - 1 {
                assert(rest[i] == text[i]);
            }
        }
        if to > 0 {
            assert(rest[to - 1] == text[to - 1]);
        }
        to
    } else {
        assert(text.take(text.len() as int) =~= text);
        text.len() as int
    }
}

/// What trimming keeps is one piece of the text, with nothing but white space before
/// it and behind it, and it neither begins nor ends with white space.
pub proof fn law_trimming_takes_white_space_off_the_ends(text: Seq<char>) -> (piece: (int, int))
    ensures
        0 <= piece.0 <= piece.1 <= text.len(),
        trimmed(text) == text.subrange(piece.0, piece.1),
        forall|i: int| 0 <= i < piece.0 ==> is_space(#[trigger] text[i]),
        forall|i: int| piece.1 <= i < text.len() ==> is_space(#[trigger] text[i]),
        trimmed(text).len() > 0 ==> !is_space(trimmed(text).first()) && !is_space(
            trimmed(text).last(),
        ),
{
    let from = lemma_start(text);
    let rest = text.skip(from);
    let to = lemma_end(rest);
    assert(rest.take(to) =~= text.subrange(from, from + to));
    assert forall|i: int| from + to <= i < text.len() implies is_space(#[trigger] text[i]) by {
        assert(rest[i - from] == text[i]);
    }
    if to > 0 {
        assert(trimmed(text).first() == text[from]);
        assert(trimmed(text).last() == rest[to - 1]);
    }
    (from, from + to)
}

/// A text that is not too long is kept whole but for the white space around it. Of a
/// longer one the first characters are kept, as many as may be, and an ellipsis stands
/// for the rest.
pub proof fn law_long_texts_are_cut(text: Seq<char>, limit: nat)
    ensures
        ({
            let whole = trimmed(text);
            let kept = shortened(text, limit);
            &&& whole.len() <= limit ==> kept == whole
            &&& whole.len() > limit ==> kept.len() == limit + 1 && kept.last() as u32 == 0x2026
                && kept.drop_last().is_prefix_of(whole)
        }),
{
    assert(shortened(text, limit).len() > limit ==> shortened(text, limit).drop_last()
        =~= trimmed(text).take(limit as int));
}

/// The last line that is not blank is the end of what trimming keeps, from its last
/// line feed on.
pub proof fn law_last_lines_are_found(text: Seq<char>)
    ensures
        ({
            let whole = trimmed(text);
            let line = last_filled_line(text);
            let from = whole.len() - line.len();
            &&& 0 <= from
            &&& line == whole.skip(from)
            &&& !line.contains('\n')
            &&& from > 0 ==> whole[from - 1] == '\n'
        }),
{
    let whole = trimmed(text);
    let at = last_line_feed(whole);
    lemma_last_line_feed_bounds(whole);
    let line = last_filled_line(text);
    assert forall|i: int| 0 <= i < line.len() implies line[i] != '\n' by {
        assert(line[i] == whole[at + 1 + i]);
    }
}

/// What is left of a text without its line end is its beginning: behind it there are
/// carriage returns and line feeds alone, and it ends in neither.
pub proof fn law_line_ends_are_dropped(text: Seq<char>)
    ensures
        ({
            let kept = without_line_end(text);
            &&& kept.is_prefix_of(text)
            &&& forall|i: int|
                kept.len() <= i < text.len() ==> (#[trigger] text[i]) == '\r' || text[i] == '\n'
            &&& kept.len() > 0 ==> kept.last() != '\r' && kept.last() != '\n'
        }),
    decreases text.len(),
{
    if text.len() > 0 && (text.last() == '\r' || text.last() == '\n') {
        let rest = text.drop_last();
        law_line_ends_are_dropped(rest);
        let kept = without_line_end(text);
        assert forall|i: int| kept.len() <= i < text.len() implies (#[trigger] text[i]) == '\r'
            || text[i] == '\n' by {
            if i < text.len() - 1 {
                assert(rest[i] == text[i]);
            }
        }
    }
}

/// A text holds every piece that it is put together of, and where it holds a piece it
/// can be put together of it.
pub proof fn law_texts_hold_their_pieces(
    before: Seq<char>,
    piece: Seq<char>,
    behind: Seq<char>,
    text: Seq<char>,
)
    ensures
        holds(before + piece + behind, piece),
        holds(text, piece) ==> exists|first: Seq<char>, last: Seq<char>|
            text == #[trigger] (first + piece + last),
{
    let whole = before + piece + behind;
    assert(whole.subrange(before.len() as int, (before.len() + piece.len()) as int) =~= piece);
    assert(stands_at(whole, piece, before.len() as int));
    if holds(text, piece) {
        let start = choose|start: int| #[trigger] stands_at(text, piece, start);
        let first = text.take(start);
        let last = text.skip(start + piece.len());
        assert forall|i: int| 0 <= i < text.len() implies text[i] == (first + piece + last)[i] by {
            if start <= i < start + piece.len() {
                assert(text.subrange(start, start + piece.len())[i - start] == text[i]);
            }
        }
        assert(text =~= first + piece + last);
    }
}

/// The number that digits stand for.
pub open spec fn number_of(digits: Seq<char>) -> int
    decreases digits.len(),
{
    if digits.len() == 0 {
        0
    } else {
        10 * number_of(digits.drop_last()) + (digits.last() as u32 - 48)
    }
}

/// A number in decimal is made of digits, the digits stand for it, and no zero leads
/// but the one of zero itself.
pub proof fn law_numbers_can_be_read_back(value: nat)
    ensures
        ({
            let digits = decimal_text(value);
            &&& number_of(digits) == value
            &&& digits.len() > 0
            &&& forall|i: int| 0 <= i < digits.len() ==> 48 <= (#[trigger] digits[i]) as u32 <= 57
            &&& digits.first() as u32 == 48 ==> digits.len() == 1
        }),
    decreases value,
{
    let digits = decimal_text(value);
    if value < 10 {
        assert(digits.drop_last() =~= Seq::<char>::empty());
        assert(number_of(digits.drop_last()) == 0);
        assert(digits.last() == digit_char(value));
    } else {
        law_numbers_can_be_read_back(value / 10);
        let front = decimal_text(value / 10);
        assert(digits.drop_last() =~= front);
        assert(digits.first() == front.first());
        if front.len() == 1 && front.first() as u32 == 48 {
            assert(front.drop_last() =~= Seq::<char>::empty());
            assert(number_of(front) == 10 * number_of(front.drop_last()) + 0);
        }
    }
}

/// A number below zero is written as what it falls short of zero by, behind a minus.
pub proof fn law_signs_are_written(value: int)
    ensures
        value >= 0 ==> number_of(signed_text(value)) == value && signed_text(value).first()
            != '-',
        value < 0 ==> signed_text(value).first() == '-' && -number_of(
            signed_text(value).drop_first(),
        ) == value,
{
    if value < 0 {
        law_numbers_can_be_read_back((-value) as nat);
        assert(signed_text(value).drop_first() =~= decimal_text((-value) as nat));
    } else {
        law_numbers_can_be_read_back(value as nat);
        let digits = decimal_text(value as nat);
        assert(digits[0] == digits.first());
    }
}

} // verus!
