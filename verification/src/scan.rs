//! Reading words, lines and numbers out of text.
use vstd::prelude::*;

verus! {

/// The characters of a text.
pub fn chars_of(text: &str) -> (result: Vec<char>)
    ensures
        result@ == text@,
{
    let mut chars: Vec<char> = Vec::new();
    let len: usize = text.unicode_len();
    let mut at: usize = 0;
    while at < len
        invariant
            len == text@.len(),
            at <= len,
            chars@ =~= text@.take(at as int),
        decreases len - at,
    {
        chars.push(text.get_char(at));
        at = at + 1;
    }
    assert(chars@ =~= text@);
    chars
}

pub open spec fn views(texts: Seq<String>) -> Seq<Seq<char>> {
    Seq::new(texts.len(), |i: int| texts[i]@)
}

proof fn views_push(texts: Seq<String>, text: String)
    ensures
        views(texts.push(text)) == views(texts).push(text@),
{
    assert(views(texts.push(text)) =~= views(texts).push(text@));
}

/// Unicode white space.
pub open spec fn is_space(c: char) -> bool {
    let n = c as u32;
    9 <= n <= 13 || n == 32 || n == 0x85 || n == 0xa0 || n == 0x1680 || 0x2000 <= n <= 0x200a || n
        == 0x2028 || n == 0x2029 || n == 0x202f || n == 0x205f || n == 0x3000
}

pub fn is_white_space(c: char) -> (result: bool)
    ensures
        result == is_space(c),
{
    let n: u32 = c as u32;
    (9 <= n && n <= 13) || n == 32 || n == 0x85 || n == 0xa0 || n == 0x1680 || (0x2000 <= n && n
        <= 0x200a) || n == 0x2028 || n == 0x2029 || n == 0x202f || n == 0x205f || n == 0x3000
}

/// Maximal runs of characters that are not white space.
pub open spec fn words(text: Seq<char>) -> Seq<Seq<char>>
    decreases text.len(),
{
    if text.len() == 0 {
        Seq::empty()
    } else {
        let earlier = text.drop_last();
        let before = words(earlier);
        if is_space(text.last()) {
            before
        } else if earlier.len() == 0 || is_space(earlier.last()) {
            before.push(seq![text.last()])
        } else {
            before.drop_last().push(before.last().push(text.last()))
        }
    }
}

pub fn split_whitespace(text: &str) -> (result: Vec<String>)
    ensures
        views(result@) == words(text@),
{
    let len: usize = text.unicode_len();
    let mut found: Vec<String> = Vec::new();
    let mut start: usize = 0;
    let mut inside = false;
    let mut at: usize = 0;
    assert(views(found@) =~= words(text@.take(0)));
    while at < len
        invariant
            len == text@.len(),
            start <= at <= len,
            inside ==> start < at,
            inside == (at > 0 && !is_space(text@[at - 1])),
            words(text@.take(at as int)) == if inside {
                views(found@).push(text@.subrange(start as int, at as int))
            } else {
                views(found@)
            },
        decreases len - at,
    {
        let ghost shorter = text@.take(at as int);
        let ghost longer = text@.take(at + 1);
        assert(longer.drop_last() =~= shorter);
        assert(at > 0 ==> shorter.last() == text@[at - 1]);
        let c = text.get_char(at);
        if is_white_space(c) {
            if inside {
                let ghost before = found@;
                let word = text.substring_char(start, at).to_owned();
                proof {
                    views_push(before, word);
                }
                found.push(word);
                inside = false;
            }
        } else if !inside {
            start = at;
            inside = true;
            assert(text@.subrange(at as int, at + 1) =~= seq![c]);
        } else {
            assert(text@.subrange(start as int, at + 1) =~= text@.subrange(
                start as int,
                at as int,
            ).push(c));
            assert(views(found@).push(text@.subrange(start as int, at as int)).drop_last() =~= views(
                found@,
            ));
        }
        at = at + 1;
    }
    assert(text@.take(at as int) =~= text@);
    if inside {
        let ghost before = found@;
        let word = text.substring_char(start, at).to_owned();
        proof {
            views_push(before, word);
        }
        found.push(word);
    }
    found
}

/// Pieces between separators; a text without separators is one piece.
pub open spec fn pieces(text: Seq<char>, separator: char) -> Seq<Seq<char>>
    decreases text.len(),
{
    if text.len() == 0 {
        seq![Seq::empty()]
    } else {
        let before = pieces(text.drop_last(), separator);
        if text.last() == separator {
            before.push(Seq::empty())
        } else {
            before.drop_last().push(before.last().push(text.last()))
        }
    }
}

pub fn split_on(text: &str, separator: char) -> (result: Vec<String>)
    ensures
        views(result@) == pieces(text@, separator),
        result@.len() > 0,
{
    let len: usize = text.unicode_len();
    let mut found: Vec<String> = Vec::new();
    let mut start: usize = 0;
    let mut at: usize = 0;
    assert(text@.subrange(0, 0) =~= Seq::<char>::empty());
    assert(pieces(text@.take(0), separator) =~= views(found@).push(text@.subrange(0, 0)));
    while at < len
        invariant
            len == text@.len(),
            start <= at <= len,
            pieces(text@.take(at as int), separator) == views(found@).push(
                text@.subrange(start as int, at as int),
            ),
        decreases len - at,
    {
        let ghost shorter = text@.take(at as int);
        let ghost longer = text@.take(at + 1);
        assert(longer.drop_last() =~= shorter);
        let c = text.get_char(at);
        if c == separator {
            let ghost before = found@;
            let piece = text.substring_char(start, at).to_owned();
            proof {
                views_push(before, piece);
            }
            found.push(piece);
            start = at + 1;
            assert(text@.subrange(at + 1, at + 1) =~= Seq::<char>::empty());
        } else {
            assert(text@.subrange(start as int, at + 1) =~= text@.subrange(
                start as int,
                at as int,
            ).push(c));
            assert(views(found@).push(text@.subrange(start as int, at as int)).drop_last() =~= views(
                found@,
            ));
        }
        at = at + 1;
    }
    assert(text@.take(at as int) =~= text@);
    let ghost before = found@;
    let piece = text.substring_char(start, at).to_owned();
    proof {
        views_push(before, piece);
    }
    found.push(piece);
    found
}

/// A line without the carriage return of its line ending.
pub open spec fn without_return(line: Seq<char>) -> Seq<char> {
    if line.len() > 0 && line.last() == '\r' {
        line.drop_last()
    } else {
        line
    }
}

/// Lines of a text; the line ending of the last line is optional.
pub open spec fn lines_of(text: Seq<char>) -> Seq<Seq<char>> {
    let all = pieces(text, '\n');
    let ended = Seq::new((all.len() - 1) as nat, |i: int| without_return(all[i]));
    if all.last().len() == 0 {
        ended
    } else {
        ended.push(all.last())
    }
}

pub fn lines(text: &str) -> (result: Vec<String>)
    ensures
        views(result@) == lines_of(text@),
{
    let all: Vec<String> = split_on(text, '\n');
    let count: usize = all.len();
    let mut found: Vec<String> = Vec::new();
    let mut at: usize = 0;
    let ghost split = pieces(text@, '\n');
    while at + 1 < count
        invariant
            count == all@.len(),
            count > 0,
            split == views(all@),
            at < count,
            found@.len() == at,
            forall|i: int| 0 <= i < at ==> (#[trigger] found@[i])@ == without_return(split[i]),
        decreases count - at,
    {
        let line: &str = all[at].as_str();
        assert(split[at as int] == line@);
        let len: usize = line.unicode_len();
        if len > 0 && line.get_char(len - 1) == '\r' {
            assert(line@.subrange(0, len - 1) =~= line@.drop_last());
            found.push(line.substring_char(0, len - 1).to_owned());
        } else {
            found.push(line.to_owned());
        }
        at = at + 1;
    }
    let ghost ended = Seq::new((split.len() - 1) as nat, |i: int| without_return(split[i]));
    assert(views(found@) =~= ended);
    assert(split.last() == all@[count - 1]@);
    let last: &str = all[count - 1].as_str();
    if last.unicode_len() > 0 {
        let ghost before = found@;
        let line = last.to_owned();
        proof {
            views_push(before, line);
        }
        found.push(line);
    }
    found
}

/// Position of the first occurrence of a character.
pub fn find_char(text: &str, wanted: char) -> (result: Option<usize>)
    ensures
        match result {
            Some(at) => at < text@.len() && text@[at as int] == wanted && forall|i: int|
                0 <= i < at ==> text@[i] != wanted,
            None => forall|i: int| 0 <= i < text@.len() ==> text@[i] != wanted,
        },
{
    let len: usize = text.unicode_len();
    let mut at: usize = 0;
    while at < len
        invariant
            len == text@.len(),
            at <= len,
            forall|i: int| 0 <= i < at ==> text@[i] != wanted,
        decreases len - at,
    {
        if text.get_char(at) == wanted {
            return Some(at);
        }
        at = at + 1;
    }
    None
}

/// A text starts with another one.
pub open spec fn has_prefix(text: Seq<char>, prefix: Seq<char>) -> bool {
    prefix.len() <= text.len() && text.take(prefix.len() as int) == prefix
}

/// The rest of a text behind a prefix, if it starts with it.
pub fn strip_prefix<'a>(text: &'a str, prefix: &str) -> (result: Option<&'a str>)
    ensures
        match result {
            Some(rest) => has_prefix(text@, prefix@) && rest@ == text@.skip(prefix@.len() as int),
            None => !has_prefix(text@, prefix@),
        },
{
    let len: usize = text.unicode_len();
    let count: usize = prefix.unicode_len();
    if count > len {
        return None;
    }
    let mut at: usize = 0;
    while at < count
        invariant
            len == text@.len(),
            count == prefix@.len(),
            at <= count <= len,
            forall|i: int| 0 <= i < at ==> text@[i] == prefix@[i],
        decreases count - at,
    {
        if text.get_char(at) != prefix.get_char(at) {
            assert(text@.take(count as int)[at as int] != prefix@[at as int]);
            return None;
        }
        at = at + 1;
    }
    assert(text@.take(count as int) =~= prefix@);
    assert(text@.subrange(count as int, len as int) =~= text@.skip(count as int));
    Some(text.substring_char(count, len))
}

/// First position at or after `from` that is not white space.
pub open spec fn skip_space(text: Seq<char>, from: int) -> int
    decreases text.len() - from,
{
    if from < text.len() && is_space(text[from]) {
        skip_space(text, from + 1)
    } else {
        from
    }
}

/// End of the text before trailing white space, not before `low`.
pub open spec fn drop_space(text: Seq<char>, high: int, low: int) -> int
    decreases high - low,
{
    if high > low && is_space(text[high - 1]) {
        drop_space(text, high - 1, low)
    } else {
        high
    }
}

/// A text without white space at either end.
pub open spec fn trimmed(text: Seq<char>) -> Seq<char> {
    let start = skip_space(text, 0);
    text.subrange(start, drop_space(text, text.len() as int, start))
}

pub fn trim<'a>(text: &'a str) -> (result: &'a str)
    ensures
        result@ == trimmed(text@),
{
    let len: usize = text.unicode_len();
    let mut start: usize = 0;
    while start < len && is_white_space(text.get_char(start))
        invariant
            len == text@.len(),
            start <= len,
            skip_space(text@, 0) == skip_space(text@, start as int),
        decreases len - start,
    {
        start = start + 1;
    }
    let mut end: usize = len;
    while end > start && is_white_space(text.get_char(end - 1))
        invariant
            len == text@.len(),
            start <= end <= len,
            start == skip_space(text@, 0),
            drop_space(text@, len as int, start as int) == drop_space(
                text@,
                end as int,
                start as int,
            ),
        decreases end,
    {
        end = end - 1;
    }
    text.substring_char(start, end)
}

pub open spec fn digit_of(c: char, radix: int) -> Option<int> {
    let n = c as u32;
    let digit = if 48 <= n <= 57 {
        n - 48
    } else if 97 <= n <= 122 {
        n - 87
    } else if 65 <= n <= 90 {
        n - 55
    } else {
        radix
    };
    if digit < radix {
        Some(digit)
    } else {
        None
    }
}

/// Value of a run of digits.
pub open spec fn digits_value(text: Seq<char>, radix: int) -> Option<int>
    decreases text.len(),
{
    if text.len() == 0 {
        Some(0)
    } else {
        match (digits_value(text.drop_last(), radix), digit_of(text.last(), radix)) {
            (Some(value), Some(digit)) => Some(value * radix + digit),
            _ => None,
        }
    }
}

/// A number not above `maximum`, with an optional plus sign.
pub open spec fn number_in(text: Seq<char>, radix: int, maximum: int) -> Option<int> {
    let digits = if text.len() > 0 && text[0] == '+' {
        text.skip(1)
    } else {
        text
    };
    if digits.len() == 0 {
        None
    } else {
        match digits_value(digits, radix) {
            Some(value) => if value <= maximum {
                Some(value)
            } else {
                None
            },
            None => None,
        }
    }
}

/// A number that was read is not negative and not above its maximum.
pub proof fn numbers_stay_in_range(text: Seq<char>, radix: int, maximum: int)
    requires
        radix >= 0,
    ensures
        number_in(text, radix, maximum) matches Some(value) ==> 0 <= value <= maximum,
{
    digits_value_is_natural(text, radix);
    digits_value_is_natural(text.skip(1), radix);
}

proof fn digits_value_is_natural(text: Seq<char>, radix: int)
    requires
        radix >= 0,
    ensures
        digits_value(text, radix) matches Some(value) ==> value >= 0,
    decreases text.len(),
{
    if text.len() > 0 {
        digits_value_is_natural(text.drop_last(), radix);
        if let Some(value) = digits_value(text.drop_last(), radix) {
            assert(value * radix >= 0) by (nonlinear_arith)
                requires
                    value >= 0,
                    radix >= 0,
            ;
        }
    }
}

/// Reads an unsigned number; radix is at most sixteen.
pub fn parse_number(text: &str, radix: u64, maximum: u64) -> (result: Option<u64>)
    requires
        2 <= radix <= 16,
        maximum <= 0xffff_ffff,
    ensures
        match result {
            Some(value) => number_in(text@, radix as int, maximum as int) == Some(value as int),
            None => number_in(text@, radix as int, maximum as int) is None,
        },
{
    let len: usize = text.unicode_len();
    let start: usize = if len > 0 && text.get_char(0) == '+' {
        1
    } else {
        0
    };
    let ghost digits = if len > 0 && text@[0] == '+' {
        text@.skip(1)
    } else {
        text@
    };
    assert(digits =~= text@.skip(start as int));
    if start == len {
        return None;
    }
    let mut value: u64 = 0;
    let mut above = false;
    let mut at: usize = start;
    assert(digits.take(0) =~= Seq::<char>::empty());
    while at < len
        invariant
            len == text@.len(),
            start <= at <= len,
            start <= 1,
            2 <= radix <= 16,
            maximum <= 0xffff_ffff,
            digits == text@.skip(start as int),
            digits == if len > 0 && text@[0] == '+' {
                text@.skip(1)
            } else {
                text@
            },
            digits.len() > 0,
            digits_value(digits.take(at - start), radix as int) is Some,
            above ==> digits_value(digits.take(at - start), radix as int)->0 > maximum,
            !above ==> value <= maximum && digits_value(digits.take(at - start), radix as int)
                == Some(value as int),
        decreases len - at,
    {
        let ghost shorter = digits.take(at - start);
        let ghost longer = digits.take(at + 1 - start);
        assert(longer.drop_last() =~= shorter);
        let c = text.get_char(at);
        assert(longer.last() == c);
        let n: u64 = c as u32 as u64;
        let digit: u64 = if 48 <= n && n <= 57 {
            n - 48
        } else if 97 <= n && n <= 122 {
            n - 87
        } else if 65 <= n && n <= 90 {
            n - 55
        } else {
            radix
        };
        proof {
            digits_value_is_natural(shorter, radix as int);
        }
        if digit >= radix {
            assert(digits[at - start] == c);
            proof {
                invalid_digit_stays(digits, at - start, radix as int);
            }
            return None;
        }
        let ghost earlier = digits_value(shorter, radix as int)->0;
        assert(earlier * (radix as int) >= earlier) by (nonlinear_arith)
            requires
                earlier >= 0,
                radix >= 2,
        ;
        if !above {
            assert(value * radix <= 0xffff_ffff * 16) by (nonlinear_arith)
                requires
                    value <= 0xffff_ffff,
                    radix <= 16,
            ;
            let next: u64 = value * radix + digit;
            if next > maximum {
                above = true;
            } else {
                value = next;
            }
        }
        at = at + 1;
    }
    assert(digits.take(at - start) =~= digits);
    if above {
        None
    } else {
        Some(value)
    }
}

/// A character that is no digit makes every longer run invalid.
proof fn invalid_digit_stays(text: Seq<char>, at: int, radix: int)
    requires
        0 <= at < text.len(),
        digit_of(text[at], radix) is None,
    ensures
        digits_value(text, radix) is None,
    decreases text.len(),
{
    if at < text.len() - 1 {
        assert(text.drop_last()[at] == text[at]);
        invalid_digit_stays(text.drop_last(), at, radix);
    }
}

pub open spec fn digit_char(digit: int) -> char {
    (48 + digit) as char
}

/// Decimal digits of a number.
pub open spec fn decimal_text(value: nat) -> Seq<char>
    decreases value,
{
    if value < 10 {
        seq![digit_char(value as int)]
    } else {
        decimal_text(value / 10).push(digit_char((value % 10) as int))
    }
}

fn digit_text(digit: u64) -> (result: &'static str)
    requires
        digit < 10,
    ensures
        result@ == seq![digit_char(digit as int)],
{
    proof {
        reveal_strlit("0");
        reveal_strlit("1");
        reveal_strlit("2");
        reveal_strlit("3");
        reveal_strlit("4");
        reveal_strlit("5");
        reveal_strlit("6");
        reveal_strlit("7");
        reveal_strlit("8");
        reveal_strlit("9");
    }
    let text: &'static str = match digit {
        0 => "0",
        1 => "1",
        2 => "2",
        3 => "3",
        4 => "4",
        5 => "5",
        6 => "6",
        7 => "7",
        8 => "8",
        _ => "9",
    };
    assert(text@ =~= seq![digit_char(digit as int)]);
    text
}

/// A number in decimal.
pub fn decimal(value: u64) -> (result: String)
    ensures
        result@ == decimal_text(value as nat),
    decreases value,
{
    if value < 10 {
        digit_text(value).to_owned()
    } else {
        let mut text = decimal(value / 10);
        let digit: &'static str = digit_text(value % 10);
        text.append(digit);
        assert(text@ =~= decimal_text((value / 10) as nat).push(digit_char((value % 10) as int)));
        text
    }
}

/// Reading a written number gives the number back.
pub proof fn decimal_round_trips(value: nat)
    ensures
        digits_value(decimal_text(value), 10) == Some(value as int),
        decimal_text(value).len() > 0,
        decimal_text(value)[0] != '+',
    decreases value,
{
    if value < 10 {
        let text = decimal_text(value);
        assert(text.drop_last() =~= Seq::<char>::empty());
        assert(digits_value(Seq::<char>::empty(), 10) == Some(0int));
        assert(text.last() == digit_char(value as int));
        assert(digit_of(digit_char(value as int), 10) == Some(value as int));
    } else {
        decimal_round_trips(value / 10);
        let text = decimal_text(value);
        assert(text.drop_last() =~= decimal_text(value / 10));
        assert(text.last() == digit_char((value % 10) as int));
        assert(digit_of(digit_char((value % 10) as int), 10) == Some((value % 10) as int));
    }
}

/// Two texts one behind the other.
pub fn joined(first: &str, second: &str) -> (result: String)
    ensures
        result@ == first@ + second@,
{
    let mut text = first.to_owned();
    text.append(second);
    text
}

/// Only white space.
pub open spec fn is_blank(text: Seq<char>) -> bool {
    forall|i: int| 0 <= i < text.len() ==> is_space(#[trigger] text[i])
}

proof fn skip_space_stops(text: Seq<char>, from: int)
    requires
        0 <= from <= text.len(),
    ensures
        from <= skip_space(text, from) <= text.len(),
        forall|i: int| from <= i < skip_space(text, from) ==> is_space(#[trigger] text[i]),
        skip_space(text, from) < text.len() ==> !is_space(text[skip_space(text, from)]),
    decreases text.len() - from,
{
    if from < text.len() && is_space(text[from]) {
        skip_space_stops(text, from + 1);
    }
}

proof fn drop_space_stops(text: Seq<char>, high: int, low: int)
    requires
        0 <= low <= high <= text.len(),
    ensures
        low <= drop_space(text, high, low) <= high,
        forall|i: int| drop_space(text, high, low) <= i < high ==> is_space(#[trigger] text[i]),
        drop_space(text, high, low) > low ==> !is_space(text[drop_space(text, high, low) - 1]),
    decreases high - low,
{
    if high > low && is_space(text[high - 1]) {
        drop_space_stops(text, high - 1, low);
    }
}

/// Trimming takes nothing but white space, and all of it, off both ends.
pub proof fn trimming_takes_only_space(text: Seq<char>)
    ensures
        exists|low: int, high: int|
            {
                &&& 0 <= low <= high <= text.len()
                &&& trimmed(text) == #[trigger] text.subrange(low, high)
                &&& is_blank(text.take(low))
                &&& is_blank(text.skip(high))
            },
        trimmed(text).len() > 0 ==> !is_space(trimmed(text)[0]) && !is_space(
            trimmed(text).last(),
        ),
{
    let n = text.len() as int;
    let low = skip_space(text, 0);
    let high = drop_space(text, n, low);
    skip_space_stops(text, 0);
    drop_space_stops(text, n, low);
    let before = text.take(low);
    let after = text.skip(high);
    assert(is_blank(before));
    assert forall|i: int| 0 <= i < after.len() implies is_space(#[trigger] after[i]) by {
        assert(is_space(text[high + i]));
    }
    assert(trimmed(text) == text.subrange(low, high));
}

/// A word: not empty, and without white space.
pub open spec fn is_word(text: Seq<char>) -> bool {
    text.len() > 0 && forall|i: int| 0 <= i < text.len() ==> !is_space(#[trigger] text[i])
}

/// White space parts words and is none itself: a word behind it is one more word,
/// and white space at the end changes nothing.
pub proof fn words_are_parted_by_space(text: Seq<char>, space: char, word: Seq<char>)
    requires
        is_space(space),
        is_word(word),
    ensures
        words(text + seq![space]) == words(text),
        words(text + seq![space] + word) == words(text).push(word),
        words(word) == seq![word],
    decreases word.len(),
{
    let spaced = text + seq![space];
    assert(spaced.drop_last() =~= text);
    let whole = spaced + word;
    let shorter = word.drop_last();
    assert(whole.drop_last() =~= spaced + shorter);
    assert(whole.last() == word[word.len() - 1]);
    assert(!is_space(word[word.len() - 1]));
    if word.len() == 1 {
        assert(spaced + shorter =~= spaced);
        assert(spaced.last() == space);
        assert(word =~= seq![word[0]]);
        assert(words(shorter) =~= Seq::empty());
        assert(words(word) =~= seq![word]);
    } else {
        assert forall|i: int| 0 <= i < shorter.len() implies !is_space(#[trigger] shorter[i]) by {
            assert(!is_space(word[i]));
        }
        words_are_parted_by_space(text, space, shorter);
        assert((spaced + shorter).last() == shorter.last());
        assert(shorter.last() == word[word.len() - 2]);
        assert(word =~= shorter.push(word.last()));
        assert(words(text).push(shorter).drop_last() =~= words(text));
        assert(seq![shorter].drop_last() =~= Seq::<Seq<char>>::empty());
        assert(words(word) =~= seq![word]);
    }
}

/// Every word is a word.
pub proof fn words_are_words(text: Seq<char>, at: int)
    requires
        0 <= at < words(text).len(),
    ensures
        is_word(words(text)[at]),
    decreases text.len(),
{
    if text.len() > 0 {
        let earlier = text.drop_last();
        let before = words(earlier);
        if at < before.len() {
            words_are_words(earlier, at);
        }
        words_end(earlier);
    }
}

proof fn words_end(text: Seq<char>)
    ensures
        text.len() > 0 && !is_space(text.last()) ==> words(text).len() > 0,
    decreases text.len(),
{
    if text.len() > 0 {
        words_end(text.drop_last());
    }
}

/// The digits of every radix up to sixteen, in their order: the decimal digits and
/// then the letters, small or large.
pub proof fn digits_count_up(digit: int, radix: int)
    requires
        0 <= digit < radix <= 16,
    ensures
        digit < 10 ==> digit_of((48 + digit) as char, radix) == Some(digit),
        digit >= 10 ==> digit_of(('a' as int + digit - 10) as char, radix) == Some(digit),
        digit >= 10 ==> digit_of(('A' as int + digit - 10) as char, radix) == Some(digit),
{
}

/// A number is read from its digits one by one, the highest first.
pub proof fn numbers_are_read_digit_by_digit(text: Seq<char>, digit: char, radix: int)
    ensures
        digits_value(text.push(digit), radix) == match (
            digits_value(text, radix),
            digit_of(digit, radix),
        ) {
            (Some(value), Some(last)) => Some(radix * value + last),
            _ => None,
        },
{
    assert(text.push(digit).drop_last() =~= text);
    if let Some(value) = digits_value(text, radix) {
        assert(value * radix == radix * value) by (nonlinear_arith);
    }
}

/// White space is the space, the tab, line breaks and the wider spaces of Unicode;
/// nothing that is printed in ASCII is.
pub proof fn white_space_is_not_printed(c: char)
    ensures
        '!' <= c <= '~' ==> !is_space(c),
        c == ' ' || c == '\t' || c == '\n' || c == '\r' || c == '\u{b}' || c == '\u{c}'
            ==> is_space(c),
        c == '\u{85}' || c == '\u{a0}' || c == '\u{1680}' || c == '\u{3000}' ==> is_space(c),
        '\u{2000}' <= c <= '\u{200a}' ==> is_space(c),
        c == '\u{2028}' || c == '\u{2029}' || c == '\u{202f}' || c == '\u{205f}' ==> is_space(c),
        is_space(c) && c > '\u{a0}' ==> c == '\u{1680}' || '\u{2000}' <= c <= '\u{205f}' || c
            == '\u{3000}',
        c == '\u{200b}' || c == '\u{2060}' || c == '\u{feff}' ==> !is_space(c),
{
}

} // verus!
