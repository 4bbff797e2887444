//! Paths as texts.
//!
//! Two texts name the same path when their components agree. Repeated and
//! trailing separators do not count, nor do `.` components behind the first.
use vstd::prelude::*;

use crate::lists::{a_part_is_a_piece, free_of, join, join_with};
use crate::scan::{pieces, split_on, views};
use crate::text::{
    same_text, text_order, text_order_is_irreflexive, text_order_is_total,
    text_order_is_transitive, text_precedes, KeyOrder,
};

verus! {

/// A piece between separators that is a component of its path. A `.` is one only
/// at the start of a relative path.
pub open spec fn is_component(piece: Seq<char>, at: int) -> bool {
    piece.len() > 0 && (piece != seq!['.'] || at == 0)
}

/// Components among the first `count` pieces.
pub open spec fn components(split: Seq<Seq<char>>, count: nat) -> Seq<Seq<char>>
    decreases count,
{
    if count == 0 {
        Seq::empty()
    } else {
        let before = components(split, (count - 1) as nat);
        if is_component(split[count - 1], count - 1) {
            before.push(split[count - 1])
        } else {
            before
        }
    }
}

pub open spec fn components_of(text: Seq<char>) -> Seq<Seq<char>> {
    components(pieces(text, '/'), pieces(text, '/').len())
}

pub open spec fn is_absolute(text: Seq<char>) -> bool {
    text.len() > 0 && text[0] == '/'
}

/// The path that a text names, in its shortest form.
pub open spec fn path_of(text: Seq<char>) -> Seq<char> {
    let joined = join_with(components_of(text), seq!['/']);
    if is_absolute(text) {
        seq!['/'] + joined
    } else {
        joined
    }
}

/// The components of the path that a text names.
fn split_path(text: &str) -> (result: Vec<String>)
    ensures
        views(result@) == components_of(text@),
{
    let split = split_on(text, '/');
    let ghost all = pieces(text@, '/');
    let mut kept: Vec<String> = Vec::new();
    let mut at: usize = 0;
    assert(views(kept@) =~= components(all, 0));
    while at < split.len()
        invariant
            all == views(split@),
            at <= split@.len(),
            views(kept@) == components(all, at as nat),
        decreases split@.len() - at,
    {
        proof {
            reveal_strlit(".");
            assert("."@ =~= seq!['.']);
        }
        assert(all[at as int] == split@[at as int]@);
        let ghost before = kept@;
        if split[at].as_str().unicode_len() > 0 && (at == 0 || !same_text(split[at].as_str(), "."))
        {
            kept.push(split[at].clone());
            assert(views(kept@) =~= views(before).push(all[at as int]));
        }
        at = at + 1;
    }
    kept
}

fn has_root(text: &str) -> (result: bool)
    ensures
        result == is_absolute(text@),
{
    text.unicode_len() > 0 && text.get_char(0) == '/'
}

/// The shortest text for the same path.
pub fn normalized(text: &str) -> (result: String)
    ensures
        result@ == path_of(text@),
{
    let kept = split_path(text);
    let joined = join(&kept, "/");
    proof {
        reveal_strlit("/");
        assert("/"@ =~= seq!['/']);
    }
    if has_root(text) {
        let mut whole = String::new();
        whole.append("/");
        whole.append(joined.as_str());
        assert(whole@ =~= seq!['/'] + joined@);
        whole
    } else {
        joined
    }
}

/// Whether two texts name the same path.
pub fn same_path(left: &str, right: &str) -> (result: bool)
    ensures
        result == (path_of(left@) == path_of(right@)),
{
    normalized(left) == normalized(right)
}

/// The path of an optional text.
pub open spec fn optional_path(text: Option<String>) -> Option<Seq<char>> {
    match text {
        Some(text) => Some(path_of(text@)),
        None => None,
    }
}

proof fn pieces_are_free(text: Seq<char>)
    ensures
        pieces(text, '/').len() > 0,
        forall|i: int|
            0 <= i < pieces(text, '/').len() ==> free_of(#[trigger] pieces(text, '/')[i], '/'),
    decreases text.len(),
{
    if text.len() > 0 {
        pieces_are_free(text.drop_last());
        let before = pieces(text.drop_last(), '/');
        assert forall|i: int| 0 <= i < pieces(text, '/').len() implies free_of(
            #[trigger] pieces(text, '/')[i],
            '/',
        ) by {
            if i < before.len() {
                assert(free_of(before[i], '/'));
            }
        }
    }
}

/// Parts that a path can have.
spec fn is_list_of_components(parts: Seq<Seq<char>>, absolute: bool) -> bool {
    forall|i: int|
        0 <= i < parts.len() ==> free_of(#[trigger] parts[i], '/') && is_component(
            parts[i],
            if absolute {
                i + 1
            } else {
                i
            },
        )
}

proof fn first_piece(text: Seq<char>)
    requires
        is_absolute(text),
    ensures
        pieces(text, '/').len() > 1,
        pieces(text, '/')[0].len() == 0,
    decreases text.len(),
{
    if text.len() == 1 {
        assert(text.drop_last() =~= Seq::empty());
    } else {
        first_piece(text.drop_last());
    }
}

proof fn components_are_components(text: Seq<char>, count: nat)
    requires
        count <= pieces(text, '/').len(),
    ensures
        is_list_of_components(components(pieces(text, '/'), count), is_absolute(text)),
        components(pieces(text, '/'), count).len() <= count,
        is_absolute(text) && count > 0 ==> components(pieces(text, '/'), count).len() < count,
    decreases count,
{
    if count > 0 {
        components_are_components(text, (count - 1) as nat);
        pieces_are_free(text);
        if is_absolute(text) {
            first_piece(text);
        }
        let all = pieces(text, '/');
        let before = components(all, (count - 1) as nat);
        let now = components(all, count);
        assert(free_of(all[count - 1], '/'));
        if now.len() > before.len() && !(count - 1 == 0) {
            assert(all[count - 1] != seq!['.']);
        }
        assert forall|i: int| 0 <= i < now.len() implies free_of(#[trigger] now[i], '/')
            && is_component(
            now[i],
            if is_absolute(text) {
                i + 1
            } else {
                i
            },
        ) by {
            if i < before.len() {
                assert(now[i] == before[i]);
            }
        }
    }
}

/// The pieces of a joined path are its components, behind an empty piece where
/// it is absolute.
proof fn pieces_of_joined(parts: Seq<Seq<char>>, absolute: bool)
    requires
        parts.len() > 0,
        is_list_of_components(parts, absolute),
    ensures
        ({
            let joined = join_with(parts, seq!['/']);
            if absolute {
                pieces(seq!['/'] + joined, '/') == seq![Seq::<char>::empty()] + parts
            } else {
                pieces(joined, '/') == parts && joined.len() > 0 && joined[0] != '/'
            }
        }),
    decreases parts.len(),
{
    let joined = join_with(parts, seq!['/']);
    let last = parts.last();
    assert(last == parts[parts.len() - 1]);
    assert(free_of(last, '/'));
    if parts.len() == 1 {
        a_part_is_a_piece(Seq::empty(), last, '/');
        assert(Seq::<char>::empty() + seq!['/'] + last =~= seq!['/'] + joined);
        assert(pieces(Seq::<char>::empty(), '/').push(last) =~= seq![Seq::<char>::empty()] + parts);
        assert(seq![last] =~= parts);
        assert(is_component(parts[0], if absolute { 1 } else { 0 }));
        assert(parts[0][0] != '/');
    } else {
        let before = parts.drop_last();
        assert forall|i: int| 0 <= i < before.len() implies free_of(#[trigger] before[i], '/')
            && is_component(
            before[i],
            if absolute {
                i + 1
            } else {
                i
            },
        ) by {
            assert(before[i] == parts[i]);
        }
        pieces_of_joined(before, absolute);
        let shorter = join_with(before, seq!['/']);
        if absolute {
            a_part_is_a_piece(seq!['/'] + shorter, last, '/');
            assert(seq!['/'] + shorter + seq!['/'] + last =~= seq!['/'] + joined);
            assert((seq![Seq::<char>::empty()] + before).push(last) =~= seq![Seq::<char>::empty()]
                + parts);
        } else {
            a_part_is_a_piece(shorter, last, '/');
            assert(before.push(last) =~= parts);
            assert(joined[0] == shorter[0]);
        }
    }
}

proof fn all_are_components(split: Seq<Seq<char>>, count: nat)
    requires
        count <= split.len(),
        forall|i: int| 0 <= i < count ==> is_component(#[trigger] split[i], i),
    ensures
        components(split, count) == split.take(count as int),
    decreases count,
{
    if count > 0 {
        all_are_components(split, (count - 1) as nat);
        assert(split.take(count as int) =~= split.take(count - 1).push(split[count - 1]));
    } else {
        assert(split.take(0) =~= Seq::empty());
    }
}

proof fn all_but_the_first_are_components(split: Seq<Seq<char>>, count: nat)
    requires
        0 < count <= split.len(),
        split[0].len() == 0,
        forall|i: int| 0 < i < count ==> is_component(#[trigger] split[i], i),
    ensures
        components(split, count) == split.subrange(1, count as int),
    decreases count,
{
    if count > 1 {
        all_but_the_first_are_components(split, (count - 1) as nat);
        assert(is_component(split[count - 1], count - 1));
        assert(split.subrange(1, count as int) =~= split.subrange(1, count - 1).push(
            split[count - 1],
        ));
    } else {
        assert(components(split, 0) =~= Seq::empty());
        assert(split.subrange(1, 1) =~= Seq::empty());
    }
}

/// The components of a path are those of its shortest form.
pub proof fn shortest_forms_keep_components(text: Seq<char>)
    ensures
        components_of(path_of(text)) == components_of(text),
        is_absolute(path_of(text)) == is_absolute(text),
{
    let parts = components_of(text);
    let joined = join_with(parts, seq!['/']);
    components_are_components(text, pieces(text, '/').len());
    if parts.len() == 0 {
        if is_absolute(text) {
            assert(path_of(text) =~= seq!['/']);
            a_part_is_a_piece(Seq::empty(), Seq::empty(), '/');
            assert(Seq::<char>::empty() + seq!['/'] + Seq::<char>::empty() =~= seq!['/']);
            let split = pieces(seq!['/'], '/');
            assert(split =~= seq![Seq::<char>::empty(), Seq::<char>::empty()]);
            assert(components(split, 2) =~= Seq::empty()) by {
                reveal_with_fuel(components, 3);
            }
        } else {
            assert(path_of(text) =~= Seq::empty());
            let split = pieces(Seq::empty(), '/');
            assert(components(split, 1) =~= Seq::empty()) by {
                reveal_with_fuel(components, 2);
            }
        }
        assert(parts =~= Seq::empty());
    } else if is_absolute(text) {
        pieces_of_joined(parts, true);
        let split = seq![Seq::<char>::empty()] + parts;
        assert forall|i: int| 0 < i < split.len() implies is_component(
            #[trigger] split[i],
            i,
        ) by {
            assert(split[i] == parts[i - 1]);
        }
        all_but_the_first_are_components(split, split.len());
        assert(split.subrange(1, split.len() as int) =~= parts);
    } else {
        pieces_of_joined(parts, false);
        all_are_components(parts, parts.len());
        assert(parts.take(parts.len() as int) =~= parts);
    }
}

/// Two texts name the same path exactly if both or neither are absolute and
/// their components agree.
pub proof fn paths_are_their_components(left: Seq<char>, right: Seq<char>)
    ensures
        path_of(left) == path_of(right) <==> (is_absolute(left) == is_absolute(right)
            && components_of(left) == components_of(right)),
{
    shortest_forms_keep_components(left);
    shortest_forms_keep_components(right);
}

/// The shortest form of a path names that path.
pub proof fn shortest_forms_stay(text: Seq<char>)
    ensures
        path_of(path_of(text)) == path_of(text),
{
    shortest_forms_keep_components(text);
}

// ---------------------------------------------------------------------------
// Order
// ---------------------------------------------------------------------------

/// The components of a path behind its root, which counts as one of them.
pub open spec fn path_parts(text: Seq<char>) -> Seq<Seq<char>> {
    if is_absolute(text) {
        seq![seq!['/']] + components_of(text)
    } else {
        components_of(text)
    }
}

/// The root comes first, then `.`, then `..`, then every name.
pub open spec fn part_rank(part: Seq<char>) -> int {
    if part == seq!['/'] {
        0
    } else if part == seq!['.'] {
        1
    } else if part == seq!['.', '.'] {
        2
    } else {
        3
    }
}

pub open spec fn part_precedes(left: Seq<char>, right: Seq<char>) -> bool {
    ||| part_rank(left) < part_rank(right)
    ||| part_rank(left) == part_rank(right) && text_precedes(left, right)
}

/// Strict lexicographic order by components.
pub open spec fn parts_precede(left: Seq<Seq<char>>, right: Seq<Seq<char>>) -> bool
    decreases left.len(),
{
    if right.len() == 0 {
        false
    } else if left.len() == 0 {
        true
    } else if left[0] == right[0] {
        parts_precede(left.drop_first(), right.drop_first())
    } else {
        part_precedes(left[0], right[0])
    }
}

/// The order of paths: component by component.
pub open spec fn path_precedes(left: Seq<char>, right: Seq<char>) -> bool {
    parts_precede(path_parts(left), path_parts(right))
}

pub proof fn parts_order_is_irreflexive(parts: Seq<Seq<char>>)
    ensures
        !parts_precede(parts, parts),
    decreases parts.len(),
{
    if parts.len() > 0 {
        parts_order_is_irreflexive(parts.drop_first());
    }
}

pub proof fn parts_order_is_transitive(a: Seq<Seq<char>>, b: Seq<Seq<char>>, c: Seq<Seq<char>>)
    requires
        parts_precede(a, b),
        parts_precede(b, c),
    ensures
        parts_precede(a, c),
    decreases a.len(),
{
    if a.len() > 0 && b.len() > 0 && c.len() > 0 {
        if a[0] == b[0] && b[0] == c[0] {
            parts_order_is_transitive(a.drop_first(), b.drop_first(), c.drop_first());
        } else if a[0] != b[0] && b[0] != c[0] {
            text_order_is_irreflexive(a[0]);
            if text_precedes(a[0], b[0]) && text_precedes(b[0], c[0]) {
                text_order_is_transitive(a[0], b[0], c[0]);
            }
        }
    }
}

pub proof fn parts_order_is_total(left: Seq<Seq<char>>, right: Seq<Seq<char>>)
    ensures
        parts_precede(left, right) || parts_precede(right, left) || left == right,
    decreases left.len(),
{
    if left.len() > 0 && right.len() > 0 && left[0] == right[0] {
        parts_order_is_total(left.drop_first(), right.drop_first());
        if left.drop_first() == right.drop_first() {
            assert(left =~= seq![left[0]] + left.drop_first());
            assert(right =~= seq![right[0]] + right.drop_first());
        }
    } else if left.len() == 0 && right.len() == 0 {
        assert(left =~= right);
    } else if left.len() > 0 && right.len() > 0 {
        text_order_is_total(left[0], right[0]);
    }
}

proof fn parts_are_the_path(left: Seq<char>, right: Seq<char>)
    ensures
        path_parts(left) == path_parts(right) <==> path_of(left) == path_of(right),
{
    paths_are_their_components(left, right);
    components_are_components(left, pieces(left, '/').len());
    components_are_components(right, pieces(right, '/').len());
    let l = path_parts(left);
    let r = path_parts(right);
    if l == r {
        if is_absolute(left) && !is_absolute(right) {
            assert(l[0] == seq!['/']);
            assert(free_of(r[0], '/'));
            assert(r[0][0] == '/');
        }
        if is_absolute(right) && !is_absolute(left) {
            assert(r[0] == seq!['/']);
            assert(free_of(l[0], '/'));
            assert(l[0][0] == '/');
        }
        if is_absolute(left) && is_absolute(right) {
            assert(components_of(left) =~= l.drop_first());
            assert(components_of(right) =~= r.drop_first());
        }
    }
}

/// Of two paths either one comes first or they are the same path, never both.
pub proof fn paths_are_ordered(left: Seq<char>, right: Seq<char>)
    ensures
        path_precedes(left, right) || path_precedes(right, left) || path_of(left) == path_of(
            right,
        ),
        path_precedes(left, right) ==> !path_precedes(right, left) && path_of(left) != path_of(
            right,
        ),
{
    parts_order_is_total(path_parts(left), path_parts(right));
    parts_order_is_irreflexive(path_parts(left));
    parts_are_the_path(left, right);
    if path_precedes(left, right) && path_precedes(right, left) {
        parts_order_is_transitive(path_parts(left), path_parts(right), path_parts(left));
    }
}

fn rank_of(part: &str) -> (result: u8)
    ensures
        result == part_rank(part@),
{
    proof {
        reveal_strlit("/");
        reveal_strlit(".");
        reveal_strlit("..");
        assert("/"@ =~= seq!['/']);
        assert("."@ =~= seq!['.']);
        assert(".."@ =~= seq!['.', '.']);
    }
    if same_text(part, "/") {
        0
    } else if same_text(part, ".") {
        1
    } else if same_text(part, "..") {
        2
    } else {
        3
    }
}

fn part_order(left: &str, right: &str) -> (result: KeyOrder)
    ensures
        match result {
            KeyOrder::Before => part_precedes(left@, right@) && left@ != right@,
            KeyOrder::Same => left@ == right@,
            KeyOrder::After => part_precedes(right@, left@) && left@ != right@,
        },
{
    let left_rank: u8 = rank_of(left);
    let right_rank: u8 = rank_of(right);
    proof {
        text_order_is_irreflexive(left@);
    }
    if left_rank < right_rank {
        KeyOrder::Before
    } else if right_rank < left_rank {
        KeyOrder::After
    } else {
        text_order(left, right)
    }
}

fn parts_of(text: &str) -> (result: Vec<String>)
    ensures
        views(result@) == path_parts(text@),
{
    let mut parts: Vec<String> = Vec::new();
    let components = split_path(text);
    if has_root(text) {
        proof {
            reveal_strlit("/");
            assert("/"@ =~= seq!['/']);
        }
        parts.push("/".to_owned());
    }
    let ghost root = views(parts@);
    let mut at: usize = 0;
    assert(views(parts@) =~= root + components_of(text@).take(0));
    while at < components.len()
        invariant
            at <= components@.len(),
            views(components@) == components_of(text@),
            views(parts@) == root + components_of(text@).take(at as int),
        decreases components@.len() - at,
    {
        let ghost before = views(parts@);
        parts.push(components[at].clone());
        proof {
            assert(components_of(text@)[at as int] == components@[at as int]@);
            assert(views(parts@) =~= before.push(components@[at as int]@));
            assert(components_of(text@).take(at + 1) =~= components_of(text@).take(at as int).push(
                components@[at as int]@,
            ));
            assert(views(parts@) =~= root + components_of(text@).take(at + 1));
        }
        at = at + 1;
    }
    assert(components_of(text@).take(at as int) =~= components_of(text@));
    assert(views(parts@) =~= path_parts(text@));
    parts
}

proof fn skip_equal_parts(left: Seq<Seq<char>>, right: Seq<Seq<char>>, at: int)
    requires
        0 <= at < left.len(),
        at < right.len(),
        left[at] == right[at],
    ensures
        parts_precede(left.skip(at), right.skip(at)) == parts_precede(
            left.skip(at + 1),
            right.skip(at + 1),
        ),
        parts_precede(right.skip(at), left.skip(at)) == parts_precede(
            right.skip(at + 1),
            left.skip(at + 1),
        ),
{
    assert(left.skip(at).drop_first() =~= left.skip(at + 1));
    assert(right.skip(at).drop_first() =~= right.skip(at + 1));
}

/// Relates two paths.
pub fn path_order(left: &str, right: &str) -> (result: KeyOrder)
    ensures
        match result {
            KeyOrder::Before => path_precedes(left@, right@),
            KeyOrder::Same => path_parts(left@) == path_parts(right@),
            KeyOrder::After => path_precedes(right@, left@),
        },
{
    let left_parts = parts_of(left);
    let right_parts = parts_of(right);
    let ghost l = path_parts(left@);
    let ghost r = path_parts(right@);
    let mut at: usize = 0;
    assert(l.skip(0) =~= l);
    assert(r.skip(0) =~= r);
    while at < left_parts.len() && at < right_parts.len()
        invariant
            l == path_parts(left@),
            r == path_parts(right@),
            views(left_parts@) == l,
            views(right_parts@) == r,
            at <= left_parts@.len(),
            at <= right_parts@.len(),
            forall|i: int| 0 <= i < at ==> l[i] == r[i],
            parts_precede(l, r) == parts_precede(l.skip(at as int), r.skip(at as int)),
            parts_precede(r, l) == parts_precede(r.skip(at as int), l.skip(at as int)),
        decreases left_parts@.len() - at,
    {
        assert(l[at as int] == left_parts@[at as int]@);
        assert(r[at as int] == right_parts@[at as int]@);
        match part_order(left_parts[at].as_str(), right_parts[at].as_str()) {
            KeyOrder::Before => return KeyOrder::Before,
            KeyOrder::After => return KeyOrder::After,
            KeyOrder::Same => {},
        }
        proof {
            skip_equal_parts(l, r, at as int);
        }
        at = at + 1;
    }
    if left_parts.len() < right_parts.len() {
        KeyOrder::Before
    } else if right_parts.len() < left_parts.len() {
        KeyOrder::After
    } else {
        assert(l =~= r);
        KeyOrder::Same
    }
}

/// A path holds what is added to it: a name behind a slash is one more component, and
/// another slash or a dot behind one adds nothing.
pub proof fn added_names_are_components(text: Seq<char>, name: Seq<char>)
    requires
        free_of(name, '/'),
        name.len() > 0,
        name != seq!['.'],
    ensures
        components_of(text + seq!['/'] + name) == components_of(text).push(name),
        components_of(text + seq!['/']) == components_of(text),
        components_of(text + seq!['/'] + seq!['.']) == components_of(text),
        components_of(name) == seq![name],
        text.len() > 0 ==> is_absolute(text + seq!['/'] + name) == is_absolute(text),
        text.len() == 0 ==> is_absolute(text + seq!['/'] + name),
{
    let split = pieces(text, '/');
    pieces_are_free(text);
    let none = Seq::<char>::empty();
    let dot = seq!['.'];
    a_part_is_a_piece(text, name, '/');
    a_part_is_a_piece(text, none, '/');
    a_part_is_a_piece(text, dot, '/');
    assert(text + seq!['/'] + none =~= text + seq!['/']);
    earlier_components_stay(split, name, split.len());
    earlier_components_stay(split, none, split.len());
    earlier_components_stay(split, dot, split.len());
    assert(components(seq![name], 0) =~= Seq::empty());
    reveal_with_fuel(components, 2);
    if text.len() > 0 {
        assert((text + seq!['/'] + name)[0] == text[0]);
    }
}

proof fn earlier_components_stay(split: Seq<Seq<char>>, more: Seq<char>, count: nat)
    requires
        count <= split.len(),
    ensures
        components(split.push(more), count) == components(split, count),
    decreases count,
{
    if count > 0 {
        earlier_components_stay(split, more, (count - 1) as nat);
        assert(split.push(more)[count - 1] == split[count - 1]);
    }
}

/// A directory comes before what it holds, and two entries of it come as their names
/// do.
pub proof fn directories_come_before_their_entries(
    parts: Seq<Seq<char>>,
    left: Seq<char>,
    right: Seq<char>,
)
    requires
        part_rank(left) == 3,
        part_rank(right) == 3,
    ensures
        parts_precede(parts, parts.push(left)),
        !parts_precede(parts.push(left), parts),
        left != right ==> parts_precede(parts.push(left), parts.push(right)) == text_precedes(
            left,
            right,
        ),
    decreases parts.len(),
{
    if parts.len() > 0 {
        let rest = parts.drop_first();
        directories_come_before_their_entries(rest, left, right);
        assert(parts.push(left).drop_first() =~= rest.push(left));
        assert(parts.push(right).drop_first() =~= rest.push(right));
    }
}

/// A path from the root comes before every other one, then one from the current
/// directory, then one from above it.
pub proof fn roots_come_first(rest: Seq<Seq<char>>, other: Seq<Seq<char>>, name: Seq<char>)
    requires
        name.len() > 2,
    ensures
        parts_precede(seq![seq!['/']] + rest, seq![seq!['.']] + other),
        parts_precede(seq![seq!['.']] + rest, seq![seq!['.', '.']] + other),
        parts_precede(seq![seq!['.', '.']] + rest, seq![name] + other),
{
    let slash = seq!['/'];
    let dot = seq!['.'];
    let up = seq!['.', '.'];
    assert(slash[0] != dot[0]);
    assert(slash.len() != up.len() && dot.len() != up.len());
    assert(name != slash && name != dot && name != up);
    assert((seq![slash] + rest)[0] == slash);
    assert((seq![dot] + other)[0] == dot);
    assert((seq![dot] + rest)[0] == dot);
    assert((seq![up] + other)[0] == up);
    assert((seq![up] + rest)[0] == up);
    assert((seq![name] + other)[0] == name);
}

} // verus!
