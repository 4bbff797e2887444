//! Small helpers for comparing, ordering and copying text.
use vstd::prelude::*;

verus! {

/// The characters of an optional text.
pub open spec fn text_of(text: Option<String>) -> Option<Seq<char>> {
    match text {
        Some(text) => Some(text@),
        None => None,
    }
}

pub fn same_text(left: &str, right: &str) -> (result: bool)
    ensures
        result == (left@ == right@),
{
    left.to_owned() == right.to_owned()
}

pub fn same_optional_text(left: &Option<String>, right: &Option<String>) -> (result: bool)
    ensures
        result == (text_of(*left) == text_of(*right)),
{
    match (left, right) {
        (Some(left), Some(right)) => *left == *right,
        (None, None) => true,
        _ => false,
    }
}

pub fn copy_optional_text(text: &Option<String>) -> (result: Option<String>)
    ensures
        text_of(result) == text_of(*text),
{
    match text {
        Some(text) => Some(text.clone()),
        None => None,
    }
}

/// How two texts relate in some order.
#[derive(Clone, Copy, Debug, PartialEq, Eq, Structural)]
pub enum KeyOrder {
    Before,
    Same,
    After,
}

/// Strict lexicographic order by characters.
pub open spec fn text_precedes(left: Seq<char>, right: Seq<char>) -> bool
    decreases left.len(),
{
    if right.len() == 0 {
        false
    } else if left.len() == 0 {
        true
    } else if left[0] == right[0] {
        text_precedes(left.drop_first(), right.drop_first())
    } else {
        left[0] < right[0]
    }
}

pub proof fn text_order_is_irreflexive(text: Seq<char>)
    ensures
        !text_precedes(text, text),
    decreases text.len(),
{
    if text.len() > 0 {
        text_order_is_irreflexive(text.drop_first());
    }
}

pub proof fn text_order_is_transitive(a: Seq<char>, b: Seq<char>, c: Seq<char>)
    requires
        text_precedes(a, b),
        text_precedes(b, c),
    ensures
        text_precedes(a, c),
    decreases a.len(),
{
    if a.len() > 0 && b.len() > 0 && c.len() > 0 {
        if a[0] == b[0] && b[0] == c[0] {
            text_order_is_transitive(a.drop_first(), b.drop_first(), c.drop_first());
        }
    }
}

pub proof fn text_order_is_total(left: Seq<char>, right: Seq<char>)
    ensures
        text_precedes(left, right) || text_precedes(right, left) || left == right,
    decreases left.len(),
{
    if left.len() > 0 && right.len() > 0 && left[0] == right[0] {
        text_order_is_total(left.drop_first(), right.drop_first());
        if left.drop_first() == right.drop_first() {
            assert(left =~= seq![left[0]] + left.drop_first());
            assert(right =~= seq![right[0]] + right.drop_first());
        }
    } else if left.len() == 0 && right.len() == 0 {
        assert(left =~= right);
    }
}

proof fn skip_equal_heads(left: Seq<char>, right: Seq<char>, at: int)
    requires
        0 <= at < left.len(),
        at < right.len(),
        left[at] == right[at],
    ensures
        text_precedes(left.skip(at), right.skip(at)) == text_precedes(
            left.skip(at + 1),
            right.skip(at + 1),
        ),
        text_precedes(right.skip(at), left.skip(at)) == text_precedes(
            right.skip(at + 1),
            left.skip(at + 1),
        ),
{
    assert(left.skip(at).drop_first() =~= left.skip(at + 1));
    assert(right.skip(at).drop_first() =~= right.skip(at + 1));
}

/// Relates two texts by their characters.
pub fn text_order(left: &str, right: &str) -> (result: KeyOrder)
    ensures
        match result {
            KeyOrder::Before => text_precedes(left@, right@),
            KeyOrder::Same => left@ == right@,
            KeyOrder::After => text_precedes(right@, left@),
        },
{
    let left_len: usize = left.unicode_len();
    let right_len: usize = right.unicode_len();
    let mut at: usize = 0;
    assert(left@.skip(0) =~= left@);
    assert(right@.skip(0) =~= right@);
    while at < left_len && at < right_len
        invariant
            left_len == left@.len(),
            right_len == right@.len(),
            at <= left_len,
            at <= right_len,
            forall|i: int| 0 <= i < at ==> left@[i] == right@[i],
            text_precedes(left@, right@) == text_precedes(
                left@.skip(at as int),
                right@.skip(at as int),
            ),
            text_precedes(right@, left@) == text_precedes(
                right@.skip(at as int),
                left@.skip(at as int),
            ),
        decreases left_len - at,
    {
        let a = left.get_char(at);
        let b = right.get_char(at);
        if a != b {
            if (a as u32) < (b as u32) {
                return KeyOrder::Before;
            }
            return KeyOrder::After;
        }
        proof {
            skip_equal_heads(left@, right@, at as int);
        }
        at = at + 1;
    }
    if left_len < right_len {
        KeyOrder::Before
    } else if right_len < left_len {
        KeyOrder::After
    } else {
        assert(left@ =~= right@);
        KeyOrder::Same
    }
}

/// Position of a text in a list.
pub fn position_of_text(texts: &Vec<String>, text: &str) -> (result: Option<usize>)
    ensures
        match result {
            Some(at) => at < texts@.len() && texts@[at as int]@ == text@ && forall|i: int|
                0 <= i < at ==> (#[trigger] texts@[i])@ != text@,
            None => forall|i: int| 0 <= i < texts@.len() ==> (#[trigger] texts@[i])@ != text@,
        },
{
    let mut at: usize = 0;
    while at < texts.len()
        invariant
            at <= texts@.len(),
            forall|i: int| 0 <= i < at ==> (#[trigger] texts@[i])@ != text@,
        decreases texts@.len() - at,
    {
        if same_text(texts[at].as_str(), text) {
            return Some(at);
        }
        at = at + 1;
    }
    None
}

/// Texts come by the first character in which they differ, and a text comes before
/// every longer one that begins with it.
pub proof fn texts_come_by_their_first_difference(
    start: Seq<char>,
    left: Seq<char>,
    right: Seq<char>,
)
    requires
        left.len() > 0,
        right.len() > 0,
        left[0] < right[0],
    ensures
        text_precedes(start + left, start + right),
        !text_precedes(start + right, start + left),
        text_precedes(start, start + left),
        !text_precedes(start + left, start),
    decreases start.len(),
{
    if start.len() > 0 {
        let rest = start.drop_first();
        texts_come_by_their_first_difference(rest, left, right);
        assert((start + left).drop_first() =~= rest + left);
        assert((start + right).drop_first() =~= rest + right);
    } else {
        assert(start + left =~= left);
        assert(start + right =~= right);
    }
}

} // verus!
