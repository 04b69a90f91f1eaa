//! Text rules: blankness, shortening, lines and numerals.

use vstd::prelude::*;
use vstd::string::StrSliceExecFns;
use vstd::string::StringExecFns;

verus! {

/// The Unicode `White_Space` property.
pub open spec fn is_space(c: char) -> bool {
    let code = c as u32;
    ||| 0x9 <= code <= 0xD
    ||| code == 0x20
    ||| code == 0x85
    ||| code == 0xA0
    ||| code == 0x1680
    ||| 0x2000 <= code <= 0x200A
    ||| code == 0x2028
    ||| code == 0x2029
    ||| code == 0x202F
    ||| code == 0x205F
    ||| code == 0x3000
}

/// A text without its leading white space.
pub open spec fn trimmed_start(text: Seq<char>) -> Seq<char>
    decreases text.len(),
{
    if text.len() > 0 && is_space(text.first()) {
        trimmed_start(text.drop_first())
    } else {
        text
    }
}

/// A text without its trailing white space.
pub open spec fn trimmed_end(text: Seq<char>) -> Seq<char>
    decreases text.len(),
{
    if text.len() > 0 && is_space(text.last()) {
        trimmed_end(text.drop_last())
    } else {
        text
    }
}

/// A text without leading and trailing white space.
pub open spec fn trimmed(text: Seq<char>) -> Seq<char> {
    trimmed_end(trimmed_start(text))
}

/// A text that holds nothing but white space.
pub open spec fn blank(text: Seq<char>) -> bool {
    forall|i: int| 0 <= i < text.len() ==> is_space(#[trigger] text[i])
}

/// Whether a character is white space.
fn is_space_char(c: char) -> (res: bool)
    ensures
        res == is_space(c),
{
    let code: u32 = c as u32;
    (0x9 <= code && code <= 0xD) || code == 0x20 || code == 0x85 || code == 0xA0 || code == 0x1680
        || (0x2000 <= code && code <= 0x200A) || code == 0x2028 || code == 0x2029 || code == 0x202F
        || code == 0x205F || code == 0x3000
}

/// Drops the white space at both ends of `text`.
pub fn trim(text: &str) -> (res: &str)
    ensures
        res@ == trimmed(text@),
{
    let len: usize = text.unicode_len();
    let mut start: usize = 0;
    assert(text@.skip(0) =~= text@);
    while start < len && is_space_char(text.get_char(start))
        invariant
            start <= len,
            len == text@.len(),
            trimmed_start(text@.skip(start as int)) == trimmed_start(text@),
        decreases len - start,
    {
        assert(text@.skip(start as int).drop_first() =~= text@.skip(start + 1));
        start = start + 1;
    }
    assert(trimmed_start(text@) == text@.skip(start as int));
    let mut end: usize = len;
    assert(text@.subrange(start as int, end as int) =~= text@.skip(start as int));
    while end > start && is_space_char(text.get_char(end - 1))
        invariant
            start <= end <= len,
            len == text@.len(),
            trimmed_end(text@.subrange(start as int, end as int)) == trimmed_end(
                text@.skip(start as int),
            ),
        decreases end,
    {
        assert(text@.subrange(start as int, end as int).drop_last() =~= text@.subrange(
            start as int,
            end - 1,
        ));
        end = end - 1;
    }
    text.substring_char(start, end)
}

proof fn lemma_trimmed_start_blank(text: Seq<char>)
    ensures
        blank(text) ==> trimmed_start(text).len() == 0,
        !blank(text) ==> trimmed_start(text).len() > 0 && !is_space(trimmed_start(text).first()),
    decreases text.len(),
{
    if text.len() > 0 && is_space(text.first()) {
        let rest = text.drop_first();
        lemma_trimmed_start_blank(rest);
        assert forall|i: int| 0 <= i < rest.len() implies rest[i] == text[i + 1] by {}
        if blank(text) {
            assert forall|i: int| 0 <= i < rest.len() implies is_space(#[trigger] rest[i]) by {
                assert(is_space(text[i + 1]));
            }
        } else {
            let at = choose|i: int| 0 <= i < text.len() && !is_space(#[trigger] text[i]);
            assert(rest[at - 1] == text[at]);
        }
    } else if text.len() > 0 {
        assert(!is_space(text[0]));
    }
}

proof fn lemma_trimmed_end_keeps(text: Seq<char>)
    requires
        text.len() > 0,
        !is_space(text.first()),
    ensures
        trimmed_end(text).len() > 0,
    decreases text.len(),
{
    if is_space(text.last()) {
        assert(text.len() > 1);
        lemma_trimmed_end_keeps(text.drop_last());
    }
}

/// Trimming leaves nothing exactly when the text is blank.
pub proof fn lemma_trimmed_empty_iff_blank(text: Seq<char>)
    ensures
        trimmed(text).len() == 0 <==> blank(text),
{
    lemma_trimmed_start_blank(text);
    if !blank(text) {
        lemma_trimmed_end_keeps(trimmed_start(text));
    }
}

/// Whether a text holds nothing but white space.
pub fn is_blank(text: &str) -> (res: bool)
    ensures
        res == blank(text@),
{
    proof {
        lemma_trimmed_empty_iff_blank(text@);
    }
    trim(text).is_empty()
}

/// The first `limit` characters of the trimmed text, marked with an ellipsis
/// when something was left out.
pub open spec fn shortened(text: Seq<char>, limit: nat) -> Seq<char> {
    let text = trimmed(text);
    if text.len() > limit {
        text.take(limit as int).push('…')
    } else {
        text
    }
}

/// Trims `text` and keeps at most `limit` of its characters.
pub fn bounded(text: &str, limit: usize) -> (res: String)
    ensures
        res@ == shortened(text@, limit as nat),
{
    let text = trim(text);
    if text.unicode_len() > limit {
        let mut kept = text.substring_char(0, limit).to_owned();
        kept.append("…");
        proof {
            reveal_strlit("…");
            assert(kept@ =~= text@.take(limit as int).push('…'));
        }
        kept
    } else {
        text.to_owned()
    }
}

/// The position of the last line feed, or -1.
pub open spec fn last_line_feed(text: Seq<char>) -> int
    decreases text.len(),
{
    if text.len() == 0 {
        -1
    } else if text.last() == '\n' {
        text.len() - 1
    } else {
        last_line_feed(text.drop_last())
    }
}

/// The last line of a text that is not blank: what follows the last line feed
/// once the white space around the text is gone.
pub open spec fn last_filled_line(text: Seq<char>) -> Seq<char> {
    let kept = trimmed(text);
    kept.skip(last_line_feed(kept) + 1)
}

/// The last line feed is one, and there is none behind it.
pub proof fn lemma_last_line_feed_bounds(text: Seq<char>)
    ensures
        -1 <= last_line_feed(text) < text.len(),
        last_line_feed(text) >= 0 ==> text[last_line_feed(text)] == '\n',
        forall|i: int| last_line_feed(text) < i < text.len() ==> text[i] != '\n',
    decreases text.len(),
{
    if text.len() > 0 && text.last() != '\n' {
        lemma_last_line_feed_bounds(text.drop_last());
        assert forall|i: int| last_line_feed(text) < i < text.len() implies text[i] != '\n' by {
            if i < text.len() - 1 {
                assert(text.drop_last()[i] == text[i]);
            }
        }
    }
}

/// The last line of `text` that is not blank, without the white space after
/// it, or nothing where every line is blank.
pub fn last_nonblank_line(text: &str) -> (res: Option<String>)
    ensures
        match res {
            Some(line) => !blank(text@) && line@ == last_filled_line(text@),
            None => blank(text@),
        },
{
    if is_blank(text) {
        return None;
    }
    let kept = trim(text);
    let len: usize = kept.unicode_len();
    let mut start: usize = len;
    proof {
        lemma_last_line_feed_bounds(kept@);
    }
    while start > 0 && kept.get_char(start - 1) != '\n'
        invariant
            start <= len,
            len == kept@.len(),
            last_line_feed(kept@) < start,
            forall|i: int| last_line_feed(kept@) < i < kept@.len() ==> kept@[i] != '\n',
            last_line_feed(kept@) >= 0 ==> kept@[last_line_feed(kept@)] == '\n',
        decreases start,
    {
        start = start - 1;
    }
    let line = kept.substring_char(start, len);
    assert(line@ =~= kept@.skip(last_line_feed(kept@) + 1));
    Some(line.to_owned())
}

/// A text without the carriage returns and line feeds at its end.
pub open spec fn without_line_end(text: Seq<char>) -> Seq<char>
    decreases text.len(),
{
    if text.len() > 0 && (text.last() == '\r' || text.last() == '\n') {
        without_line_end(text.drop_last())
    } else {
        text
    }
}

/// Drops the carriage returns and line feeds at the end of `text`.
pub fn trim_line_end(text: &str) -> (res: &str)
    ensures
        res@ == without_line_end(text@),
{
    let len: usize = text.unicode_len();
    let mut end: usize = len;
    assert(text@.take(end as int) =~= text@);
    while end > 0 && (text.get_char(end - 1) == '\r' || text.get_char(end - 1) == '\n')
        invariant
            end <= len,
            len == text@.len(),
            without_line_end(text@.take(end as int)) == without_line_end(text@),
        decreases end,
    {
        assert(text@.take(end as int).drop_last() =~= text@.take(end - 1));
        end = end - 1;
    }
    assert(text@.subrange(0, end as int) =~= text@.take(end as int));
    text.substring_char(0, end)
}

/// Whether a text holds another one somewhere.
pub open spec fn holds(text: Seq<char>, part: Seq<char>) -> bool {
    exists|start: int| #[trigger] stands_at(text, part, start)
}

/// Whether a text holds another one from a position on.
pub open spec fn stands_at(text: Seq<char>, part: Seq<char>, start: int) -> bool {
    0 <= start <= text.len() - part.len() && text.subrange(start, start + part.len()) == part
}

/// Whether a text holds another one somewhere.
pub fn holds_text(text: &str, part: &str) -> (res: bool)
    ensures
        res == holds(text@, part@),
{
    let len: usize = text.unicode_len();
    let wanted: usize = part.unicode_len();
    if wanted > len {
        assert forall|start: int| !#[trigger] stands_at(text@, part@, start) by {}
        return false;
    }
    let mut start: usize = 0;
    while start <= len - wanted
        invariant
            start <= len - wanted + 1,
            wanted <= len,
            len == text@.len(),
            wanted == part@.len(),
            forall|before: int| before < start ==> !#[trigger] stands_at(text@, part@, before),
        decreases len - wanted + 1 - start,
    {
        let mut index: usize = 0;
        while index < wanted && text.get_char(start + index) == part.get_char(index)
            invariant
                index <= wanted,
                start <= len - wanted,
                wanted <= len,
                len == text@.len(),
                wanted == part@.len(),
                forall|i: int| 0 <= i < index ==> text@[start + i] == #[trigger] part@[i],
            decreases wanted - index,
        {
            index = index + 1;
        }
        if index == wanted {
            assert(text@.subrange(start as int, start + wanted) =~= part@);
            assert(stands_at(text@, part@, start as int));
            return true;
        }
        assert(!stands_at(text@, part@, start as int)) by {
            assert(text@.subrange(start as int, start + wanted)[index as int]
                == text@[start + index]);
        }
        if start == len - wanted {
            assert forall|at: int| !#[trigger] stands_at(text@, part@, at) by {}
            return false;
        }
        start = start + 1;
    }
    false
}

/// The decimal digit for a value below ten.
pub open spec fn digit_char(value: nat) -> char {
    ('0' as u32 + value) as char
}

/// A number in decimal, without leading zeros.
pub open spec fn decimal_text(value: nat) -> Seq<char>
    decreases value,
{
    if value < 10 {
        seq![digit_char(value)]
    } else {
        decimal_text(value / 10).push(digit_char(value % 10))
    }
}

/// A signed number in decimal.
pub open spec fn signed_text(value: int) -> Seq<char> {
    if value < 0 {
        seq!['-'] + decimal_text((-value) as nat)
    } else {
        decimal_text(value as nat)
    }
}

fn digit(value: u64) -> (res: &'static str)
    requires
        value < 10,
    ensures
        res@ == seq![digit_char(value as nat)],
{
    proof {
        reveal_strlit("0");
        reveal_strlit("1");
        reveal_strlit("2");
        reveal_strlit("3");
        reveal_strlit("4");
        reveal_strlit("5");
        reveal_strlit("6");
        reveal_strlit("7");
        reveal_strlit("8");
        reveal_strlit("9");
    }
    let res = match value {
        0 => "0",
        1 => "1",
        2 => "2",
        3 => "3",
        4 => "4",
        5 => "5",
        6 => "6",
        7 => "7",
        8 => "8",
        _ => "9",
    };
    assert(res@ =~= seq![digit_char(value as nat)]);
    res
}

/// Writes a number in decimal.
pub fn decimal(value: u64) -> (res: String)
    ensures
        res@ == decimal_text(value as nat),
    decreases value,
{
    if value < 10 {
        digit(value).to_owned()
    } else {
        let mut res = decimal(value / 10);
        let last = digit(value % 10);
        let ghost head = res@;
        res.append(last);
        assert(res@ =~= head.push(digit_char((value % 10) as nat)));
        res
    }
}

/// Writes a signed number in decimal.
pub fn signed_decimal(value: i64) -> (res: String)
    ensures
        res@ == signed_text(value as int),
{
    if value < 0 {
        let magnitude: u64 = (-(value as i128)) as u64;
        let mut res = "-".to_owned();
        proof {
            reveal_strlit("-");
        }
        res.append(decimal(magnitude).as_str());
        assert(res@ =~= seq!['-'] + decimal_text((-value) as nat));
        res
    } else {
        decimal(value as u64)
    }
}

} // verus!
