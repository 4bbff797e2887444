//! Texts made of parts.
use vstd::prelude::*;

use crate::scan::{lines_of, pieces, views};
use crate::text::same_text;

verus! {

/// Parts with a separator between any two.
pub open spec fn join_with(parts: Seq<Seq<char>>, separator: Seq<char>) -> Seq<char>
    decreases parts.len(),
{
    if parts.len() == 0 {
        Seq::empty()
    } else if parts.len() == 1 {
        parts[0]
    } else {
        join_with(parts.drop_last(), separator) + separator + parts.last()
    }
}

pub fn join(parts: &Vec<String>, separator: &str) -> (result: String)
    ensures
        result@ == join_with(views(parts@), separator@),
{
    let mut text = String::new();
    let mut at: usize = 0;
    let ghost all = views(parts@);
    assert(all.take(0) =~= Seq::empty());
    assert(text@ =~= join_with(all.take(0), separator@));
    while at < parts.len()
        invariant
            at <= parts@.len(),
            all == views(parts@),
            text@ == join_with(all.take(at as int), separator@),
        decreases parts@.len() - at,
    {
        assert(all.take(at + 1).drop_last() =~= all.take(at as int));
        let ghost before = text@;
        if at > 0 {
            text.append(separator);
        }
        text.append(parts[at].as_str());
        assert(all.take(at + 1).last() == parts@[at as int]@);
        proof {
            if at == 0 {
                assert(text@ =~= parts@[0]@);
            } else {
                assert(text@ =~= before + separator@ + parts@[at as int]@);
            }
        }
        at = at + 1;
    }
    assert(all.take(at as int) =~= all);
    text
}

/// Joining the pieces of a text gives the text.
pub proof fn joined_pieces_are_the_text(text: Seq<char>, separator: char)
    ensures
        pieces(text, separator).len() > 0,
        join_with(pieces(text, separator), seq![separator]) == text,
    decreases text.len(),
{
    let between = seq![separator];
    if text.len() == 0 {
        assert(join_with(pieces(text, separator), between) =~= text);
    } else {
        let shorter = text.drop_last();
        let before = pieces(shorter, separator);
        joined_pieces_are_the_text(shorter, separator);
        assert(text =~= shorter.push(text.last()));
        if text.last() == separator {
            let now = before.push(Seq::empty());
            assert(now.drop_last() =~= before);
            assert(join_with(now, between) =~= text);
        } else {
            let grown = before.last().push(text.last());
            let now = before.drop_last().push(grown);
            assert(now.drop_last() =~= before.drop_last());
            assert(join_with(now, between) =~= text);
        }
    }
}

/// A text without the separator.
pub open spec fn free_of(text: Seq<char>, separator: char) -> bool {
    forall|i: int| 0 <= i < text.len() ==> #[trigger] text[i] != separator
}

/// A part behind a separator is a piece of its own.
pub proof fn a_part_is_a_piece(text: Seq<char>, part: Seq<char>, separator: char)
    requires
        free_of(part, separator),
    ensures
        pieces(text + seq![separator] + part, separator) == pieces(text, separator).push(part),
        pieces(part, separator) == seq![part],
    decreases part.len(),
{
    let whole = text + seq![separator] + part;
    if part.len() == 0 {
        assert(whole.drop_last() =~= text);
        assert(whole.last() == separator);
        assert(part =~= Seq::empty());
    } else {
        let shorter = part.drop_last();
        assert forall|i: int| 0 <= i < shorter.len() implies #[trigger] shorter[i]
            != separator by {
            assert(part[i] != separator);
        }
        a_part_is_a_piece(text, shorter, separator);
        assert(part.last() == part[part.len() - 1]);
        assert(whole.drop_last() =~= text + seq![separator] + shorter);
        assert(part =~= shorter.push(part.last()));
        let before = pieces(text, separator).push(shorter);
        assert(before.drop_last() =~= pieces(text, separator));
        assert(seq![shorter].drop_last() =~= Seq::<Seq<char>>::empty());
        assert(pieces(part, separator) =~= seq![part]);
    }
}

/// Joined parts without the separator come apart again.
pub proof fn pieces_of_joined_parts(parts: Seq<Seq<char>>, separator: char)
    requires
        parts.len() > 0,
        forall|i: int| 0 <= i < parts.len() ==> free_of(#[trigger] parts[i], separator),
    ensures
        pieces(join_with(parts, seq![separator]), separator) == parts,
    decreases parts.len(),
{
    let last = parts.last();
    assert(free_of(parts[parts.len() - 1], separator));
    if parts.len() == 1 {
        a_part_is_a_piece(Seq::empty(), last, separator);
        assert(parts =~= seq![last]);
    } else {
        let before = parts.drop_last();
        assert forall|i: int| 0 <= i < before.len() implies free_of(
            #[trigger] before[i],
            separator,
        ) by {
            assert(free_of(parts[i], separator));
        }
        pieces_of_joined_parts(before, separator);
        a_part_is_a_piece(join_with(before, seq![separator]), last, separator);
        assert(before.push(last) =~= parts);
    }
}

pub fn copy_texts(texts: &Vec<String>) -> (result: Vec<String>)
    ensures
        views(result@) == views(texts@),
{
    let mut copied: Vec<String> = Vec::new();
    let mut at: usize = 0;
    while at < texts.len()
        invariant
            at <= texts@.len(),
            copied@.len() == at,
            forall|i: int| 0 <= i < at ==> (#[trigger] copied@[i])@ == texts@[i]@,
        decreases texts@.len() - at,
    {
        copied.push(texts[at].clone());
        at = at + 1;
    }
    assert(views(copied@) =~= views(texts@));
    copied
}


pub fn same_texts(left: &Vec<String>, right: &Vec<String>) -> (result: bool)
    ensures
        result == (views(left@) == views(right@)),
{
    if left.len() != right.len() {
        assert(views(left@).len() != views(right@).len());
        return false;
    }
    let mut at: usize = 0;
    while at < left.len()
        invariant
            at <= left@.len(),
            left@.len() == right@.len(),
            forall|i: int| 0 <= i < at ==> (#[trigger] left@[i])@ == right@[i]@,
        decreases left@.len() - at,
    {
        if !same_text(left[at].as_str(), right[at].as_str()) {
            assert(views(left@)[at as int] != views(right@)[at as int]);
            return false;
        }
        at = at + 1;
    }
    assert(views(left@) =~= views(right@));
    true
}

/// Lines end at line breaks, with or without a carriage return before them; what
/// stands behind the last one is a line if there is something.
pub proof fn lines_end_at_line_breaks(text: Seq<char>, line: Seq<char>)
    requires
        text.len() == 0 || text.last() == '\n',
        free_of(line, '\n'),
        line.len() == 0 || line.last() != '\r',
    ensures
        lines_of(text + line + seq!['\n']) == lines_of(text).push(line),
        lines_of(text + line + seq!['\r', '\n']) == lines_of(text).push(line),
        line.len() > 0 ==> lines_of(text + line) == lines_of(text).push(line),
        line.len() == 0 ==> lines_of(text + line) == lines_of(text),
{
    let none = Seq::<char>::empty();
    let returned = line.push('\r');
    let all = pieces(text, '\n');
    assert(all.last().len() == 0);
    let body = all.drop_last();
    // The pieces of the text with something behind it.
    assert(pieces(text + line, '\n') == body.push(line) && pieces(text + returned, '\n')
        == body.push(returned)) by {
        if text.len() == 0 {
            assert(text + line =~= line);
            assert(text + returned =~= returned);
            a_part_is_a_piece(text, line, '\n');
            a_part_is_a_piece(text, returned, '\n');
            assert(body.push(line) =~= seq![line]);
            assert(body.push(returned) =~= seq![returned]);
        } else {
            let before = text.drop_last();
            assert(before + seq!['\n'] + line =~= text + line);
            assert(before + seq!['\n'] + returned =~= text + returned);
            a_part_is_a_piece(before, line, '\n');
            a_part_is_a_piece(before, returned, '\n');
            assert(body =~= pieces(before, '\n'));
        }
    }
    assert((text + line).push('\n') =~= text + line + seq!['\n']);
    assert((text + line + seq!['\n']).drop_last() =~= text + line);
    assert((text + line + seq!['\r', '\n']).drop_last() =~= text + returned);
    assert(returned.drop_last() =~= line);
    let plain = pieces(text + line + seq!['\n'], '\n');
    let ended = pieces(text + line + seq!['\r', '\n'], '\n');
    assert(plain == body.push(line).push(none));
    assert(ended == body.push(returned).push(none));
    assert(lines_of(text + line + seq!['\n']) =~= lines_of(text).push(line));
    assert(lines_of(text + line + seq!['\r', '\n']) =~= lines_of(text).push(line));
    if line.len() > 0 {
        assert(lines_of(text + line) =~= lines_of(text).push(line));
    } else {
        assert(text + line =~= text);
    }
}

} // verus!
