//! The layout as it is shown and edited: one tile for each computer.
use vstd::prelude::*;

use super::displays::Desktop;
use super::layout_model::{
    can_snap, is_valid, moves_keep_layouts_valid, snap_place, snap_result, snapped, snaps_to,
    DropPoint, Layout, LayoutDocument, Monitor, MonitorModel,
};
use crate::config::Config;
use crate::identity::{hex, hex_text, hex_text_names_its_bytes, sha256, sha256_of};
use crate::ordered::OrderedMap;
use crate::text::{same_text, text_of};

verus! {

/// Id of a computer's tile: the same for the same name, whoever asks.
pub open spec fn id_of_computer(peer: Option<Seq<char>>) -> Seq<char> {
    match peer {
        Some(name) => "computer:"@ + hex_text(sha256_of(vstd::utf8::encode_utf8(name))),
        None => "computer:local"@,
    }
}

pub fn computer_id(peer: Option<&str>) -> (result: String)
    ensures
        result@ == id_of_computer(
            match peer {
                Some(name) => Some(name@),
                None => None,
            },
        ),
{
    match peer {
        Some(name) => {
            let digest = sha256(&name.as_bytes_vec());
            let mut id = "computer:".to_owned();
            id.append(hex(digest.as_slice()).as_str());
            id
        },
        None => "computer:local".to_owned(),
    }
}

/// The furthest right edge; zero without monitors.
pub open spec fn right_edge(monitors: Seq<MonitorModel>) -> int
    decreases monitors.len(),
{
    if monitors.len() == 0 {
        0
    } else if monitors.len() == 1 {
        monitors[0].right()
    } else {
        let rest = right_edge(monitors.drop_last());
        if monitors.last().right() > rest {
            monitors.last().right()
        } else {
            rest
        }
    }
}

pub open spec fn label_of(peer: Option<Seq<char>>) -> Seq<char> {
    match peer {
        Some(name) => name,
        None => "This computer"@,
    }
}

/// The size of a tile: that of the desktop, else that of the earlier tile.
pub open spec fn tile_size(desktop: Option<Desktop>, earlier: Option<MonitorModel>) -> (u32, u32) {
    match desktop {
        Some(desktop) => (desktop.width, desktop.height),
        None => match earlier {
            Some(monitor) => (monitor.width, monitor.height),
            None => (1920, 1080),
        },
    }
}

/// A computer's tile at a place.
pub open spec fn tile(
    peer: Option<Seq<char>>,
    desktop: Option<Desktop>,
    earlier: Option<MonitorModel>,
    x: i32,
    y: i32,
) -> MonitorModel {
    MonitorModel {
        id: id_of_computer(peer),
        label: label_of(peer),
        peer,
        x,
        y,
        width: tile_size(desktop, earlier).0,
        height: tile_size(desktop, earlier).1,
    }
}

/// Adds a computer's tile. It keeps its earlier place where that is free, else
/// it goes to the right of all others; a computer of which nothing is known,
/// or for which there is no room, gets none.
pub open spec fn with_tile(
    monitors: Seq<MonitorModel>,
    peer: Option<Seq<char>>,
    desktop: Option<Desktop>,
    earlier: Option<MonitorModel>,
) -> Seq<MonitorModel> {
    let right = right_edge(monitors) as i32;
    let kept = match earlier {
        Some(monitor) => tile(peer, desktop, earlier, monitor.x, monitor.y),
        None => tile(peer, desktop, earlier, right, 0),
    };
    let moved = tile(peer, desktop, earlier, right, 0);
    if peer is Some && desktop is None && earlier is None {
        monitors
    } else if is_valid(monitors.push(kept)) {
        monitors.push(kept)
    } else if is_valid(monitors.push(moved)) {
        monitors.push(moved)
    } else {
        monitors
    }
}

/// The first tile of a computer.
pub open spec fn tile_of(monitors: Seq<MonitorModel>, peer: Option<Seq<char>>) -> Option<
    MonitorModel,
>
    decreases monitors.len(),
{
    if monitors.len() == 0 {
        None
    } else if monitors[0].peer == peer {
        Some(monitors[0])
    } else {
        tile_of(monitors.drop_first(), peer)
    }
}

pub open spec fn known_desktop(desktop: Option<Desktop>) -> Option<Desktop> {
    match desktop {
        Some(known) => if known.is_valid() {
            Some(known)
        } else {
            None
        },
        None => None,
    }
}

/// What is known when the tiles are laid out.
pub struct Desktops {
    pub previous: Seq<MonitorModel>,
    pub local: Option<Desktop>,
    pub remote: Map<Seq<char>, Desktop>,
    pub names: Seq<Seq<char>>,
}

impl Desktops {
    pub open spec fn of_peer(self, name: Seq<char>) -> Option<Desktop> {
        if self.remote.dom().contains(name) {
            known_desktop(Some(self.remote[name]))
        } else {
            None
        }
    }

    /// The tiles of this computer and of the first `count` paired ones.
    pub open spec fn tiles(self, count: int) -> Seq<MonitorModel>
        decreases count,
    {
        if count <= 0 {
            with_tile(
                Seq::empty(),
                None,
                known_desktop(self.local),
                tile_of(self.previous, None),
            )
        } else {
            let name = self.names[count - 1];
            with_tile(
                self.tiles(count - 1),
                Some(name),
                self.of_peer(name),
                tile_of(self.previous, Some(name)),
            )
        }
    }

    /// The ids of the tiles whose desktop is known.
    pub open spec fn ready(self, count: int) -> Seq<Seq<char>>
        decreases count,
    {
        if count <= 0 {
            if known_desktop(self.local) is Some && self.tiles(0).len() > 0 {
                seq![id_of_computer(None)]
            } else {
                Seq::empty()
            }
        } else {
            let name = self.names[count - 1];
            if self.of_peer(name) is Some && self.tiles(count).len() > self.tiles(
                count - 1,
            ).len() {
                self.ready(count - 1).push(id_of_computer(Some(name)))
            } else {
                self.ready(count - 1)
            }
        }
    }

    /// The paired computers that did not tell their desktop.
    pub open spec fn waiting(self, count: int) -> Seq<Seq<char>>
        decreases count,
    {
        if count <= 0 {
            Seq::empty()
        } else if self.remote.dom().contains(self.names[count - 1]) {
            self.waiting(count - 1)
        } else {
            self.waiting(count - 1).push(self.names[count - 1])
        }
    }
}

proof fn tile_keeps_valid(
    monitors: Seq<MonitorModel>,
    peer: Option<Seq<char>>,
    desktop: Option<Desktop>,
    earlier: Option<MonitorModel>,
)
    requires
        is_valid(monitors),
    ensures
        is_valid(with_tile(monitors, peer, desktop, earlier)),
{
}

/// Whatever desktops are reported, the tiles are a valid layout.
pub proof fn tiles_are_always_valid(desktops: Desktops, count: int)
    ensures
        is_valid(desktops.tiles(count)),
    decreases count,
{
    if count <= 0 {
        assert(is_valid(Seq::<MonitorModel>::empty()));
        tile_keeps_valid(
            Seq::empty(),
            None,
            known_desktop(desktops.local),
            tile_of(desktops.previous, None),
        );
    } else {
        tiles_are_always_valid(desktops, count - 1);
        let name = desktops.names[count - 1];
        tile_keeps_valid(
            desktops.tiles(count - 1),
            Some(name),
            desktops.of_peer(name),
            tile_of(desktops.previous, Some(name)),
        );
    }
}

/// Only this computer and paired computers have tiles: a report of another
/// computer adds none.
pub proof fn tiles_belong_to_paired_computers(desktops: Desktops, count: int, at: int)
    requires
        0 <= count <= desktops.names.len(),
        0 <= at < desktops.tiles(count).len(),
    ensures
        desktops.tiles(count)[at].peer is Some ==> desktops.names.contains(
            desktops.tiles(count)[at].peer->0,
        ),
    decreases count,
{
    if count > 0 {
        if at < desktops.tiles(count - 1).len() {
            tiles_belong_to_paired_computers(desktops, count - 1, at);
        } else {
            assert(desktops.names[count - 1] == desktops.tiles(count)[at].peer->0);
        }
    }
}

proof fn tile_of_first(monitors: Seq<MonitorModel>, peer: Option<Seq<char>>, at: int)
    requires
        0 <= at < monitors.len(),
        monitors[at].peer == peer,
        forall|i: int| 0 <= i < at ==> (#[trigger] monitors[i]).peer != peer,
    ensures
        tile_of(monitors, peer) == Some(monitors[at]),
    decreases monitors.len(),
{
    if at > 0 {
        let rest = monitors.drop_first();
        assert(monitors[0].peer != peer);
        assert forall|i: int| 0 <= i < at - 1 implies (#[trigger] rest[i]).peer != peer by {
            assert(monitors[i + 1].peer != peer);
        }
        tile_of_first(rest, peer, at - 1);
    }
}

proof fn tile_of_absent(monitors: Seq<MonitorModel>, peer: Option<Seq<char>>)
    requires
        forall|i: int| 0 <= i < monitors.len() ==> (#[trigger] monitors[i]).peer != peer,
    ensures
        tile_of(monitors, peer) is None,
    decreases monitors.len(),
{
    if monitors.len() > 0 {
        let rest = monitors.drop_first();
        assert(monitors[0].peer != peer);
        assert forall|i: int| 0 <= i < rest.len() implies (#[trigger] rest[i]).peer != peer by {
            assert(monitors[i + 1].peer != peer);
        }
        tile_of_absent(rest, peer);
    }
}

/// Tiles come in the order of the computers: those of the first ones stay a
/// prefix, and each later tile belongs to a later computer.
proof fn tiles_grow(desktops: Desktops, first: int, count: int)
    requires
        0 <= first <= count <= desktops.names.len(),
    ensures
        desktops.tiles(first).len() <= desktops.tiles(count).len(),
        desktops.tiles(count).take(desktops.tiles(first).len() as int) == desktops.tiles(first),
        forall|at: int|
            desktops.tiles(first).len() <= at < desktops.tiles(count).len() ==> exists|j: int|
                first <= j < count && (#[trigger] desktops.tiles(count)[at]).peer == Some(
                    #[trigger] desktops.names[j],
                ),
    decreases count,
{
    let early = desktops.tiles(first);
    let late = desktops.tiles(count);
    if first == count {
        assert(late.take(early.len() as int) =~= early);
    } else {
        tiles_grow(desktops, first, count - 1);
        let before = desktops.tiles(count - 1);
        assert(late.take(early.len() as int) =~= before.take(early.len() as int));
        assert forall|at: int| early.len() <= at < late.len() implies exists|j: int|
            first <= j < count && (#[trigger] late[at]).peer == Some(
                #[trigger] desktops.names[j],
            ) by {
            if at < before.len() {
                assert(late[at] == before[at]);
            } else {
                assert(late[at].peer == Some(desktops.names[count - 1]));
            }
        }
    }
}

/// What is reported now is what was reported before, or nothing.
pub open spec fn reports_less(now: Desktops, before: Desktops) -> bool {
    &&& now.names == before.names
    &&& known_desktop(now.local) is None || known_desktop(now.local) == known_desktop(before.local)
    &&& forall|name: Seq<char>|
        now.of_peer(name) is None || #[trigger] now.of_peer(name) == before.of_peer(name)
}

/// Once this computer has a tile, laying out again changes nothing, whether the
/// same desktops are reported or some reports are lost.
pub proof fn tiles_survive_lost_reports(before: Desktops, now: Desktops, count: int)
    requires
        0 <= count <= before.names.len(),
        before.names.no_duplicates(),
        before.tiles(0).len() == 1,
        now.previous == before.tiles(before.names.len() as int),
        reports_less(now, before),
    ensures
        now.tiles(count) == before.tiles(count),
    decreases count,
{
    let total = before.names.len() as int;
    let all = before.tiles(total);
    tiles_grow(before, 0, total);
    tiles_are_always_valid(before, count);
    assert(all[0] == all.take(1)[0]);
    if count == 0 {
        tile_of_first(all, None, 0);
        assert(now.tiles(0) =~= before.tiles(0));
    } else {
        tiles_survive_lost_reports(before, now, count - 1);
        let name = before.names[count - 1];
        let shorter = before.tiles(count - 1);
        let longer = before.tiles(count);
        tiles_grow(before, 0, count - 1);
        tiles_grow(before, count, total);
        assert forall|at: int| 0 <= at < shorter.len() implies (#[trigger] all[at]).peer != Some(
            name,
        ) by {
            assert(all[at] == all.take(longer.len() as int)[at]);
            assert(longer[at] == shorter[at]);
            if at >= 1 {
                let j = choose|j: int|
                    0 <= j < count - 1 && shorter[at].peer == Some(#[trigger] before.names[j]);
                assert(before.names[j] != before.names[count - 1]);
            } else {
                assert(shorter.take(1)[0] == before.tiles(0)[0]);
            }
        }
        if longer.len() > shorter.len() {
            let at = shorter.len() as int;
            assert(all[at] == all.take(longer.len() as int)[at]);
            assert(longer[at].peer == Some(name));
            tile_of_first(all, Some(name), at);
            assert(shorter.push(longer[at]) =~= longer);
            let again = tile(
                Some(name),
                now.of_peer(name),
                Some(longer[at]),
                longer[at].x,
                longer[at].y,
            );
            assert(again =~= longer[at]);
        } else {
            assert(longer =~= shorter);
            assert forall|at: int| 0 <= at < all.len() implies (
            #[trigger] all[at]).peer != Some(name) by {
                if at >= longer.len() {
                    let j = choose|j: int|
                        count <= j < total && all[at].peer == Some(#[trigger] before.names[j]);
                    assert(before.names[j] != before.names[count - 1]);
                }
            }
            tile_of_absent(all, Some(name));
        }
    }
}

/// The right edge of every monitor can be told.
pub open spec fn edges_fit(monitors: Seq<MonitorModel>) -> bool {
    forall|i: int|
        0 <= i < monitors.len() ==> (#[trigger] monitors[i]).width <= i32::MAX
            && monitors[i].right() <= i32::MAX
}

proof fn valid_edges_fit(monitors: Seq<MonitorModel>)
    requires
        is_valid(monitors),
    ensures
        edges_fit(monitors),
{
    assert forall|at: int| 0 <= at < monitors.len() implies (
    #[trigger] monitors[at]).in_bounds() by {
        assert(super::layout_model::problem_at(monitors, at) is None);
    }
}

fn right_of(layout: &Layout) -> (result: i32)
    requires
        edges_fit(layout@),
    ensures
        result == right_edge(layout@),
{
    let ghost monitors = layout@;
    let mut right: i32 = 0;
    let mut at: usize = 0;
    assert(monitors.take(0) =~= Seq::empty());
    while at < layout.monitors.len()
        invariant
            at <= layout.monitors@.len(),
            monitors == layout@,
            edges_fit(monitors),
            right == right_edge(monitors.take(at as int)),
        decreases layout.monitors@.len() - at,
    {
        let monitor = &layout.monitors[at];
        assert(monitors[at as int] == monitor@);
        let edge: i32 = monitor.x + monitor.width as i32;
        assert(monitors.take(at + 1).drop_last() =~= monitors.take(at as int));
        if at == 0 || edge > right {
            right = edge;
        }
        at = at + 1;
    }
    assert(monitors.take(at as int) =~= monitors);
    right
}

fn name_of(peer: Option<&str>) -> (result: Option<String>)
    ensures
        text_of(result) == match peer {
            Some(name) => Some(name@),
            None => None,
        },
{
    match peer {
        Some(name) => Some(name.to_owned()),
        None => None,
    }
}

pub open spec fn owner_of(peer: Option<&str>) -> Option<Seq<char>> {
    match peer {
        Some(name) => Some(name@),
        None => None,
    }
}

fn find_tile<'a>(layout: &'a Layout, peer: Option<&str>) -> (result: Option<&'a Monitor>)
    ensures
        match result {
            Some(monitor) => tile_of(layout@, owner_of(peer)) == Some(monitor@),
            None => tile_of(layout@, owner_of(peer)) is None,
        },
{
    let mut at: usize = 0;
    while at < layout.monitors.len()
        invariant
            at <= layout.monitors@.len(),
            forall|i: int| 0 <= i < at ==> (#[trigger] layout@[i]).peer != owner_of(peer),
        decreases layout.monitors@.len() - at,
    {
        let monitor = &layout.monitors[at];
        assert(layout@[at as int] == monitor@);
        let owned = match (&monitor.peer, peer) {
            (Some(owner), Some(name)) => same_text(owner.as_str(), name),
            (None, None) => true,
            _ => false,
        };
        if owned {
            proof {
                tile_of_first(layout@, owner_of(peer), at as int);
            }
            return Some(monitor);
        }
        at = at + 1;
    }
    proof {
        tile_of_absent(layout@, owner_of(peer));
    }
    None
}

fn make_tile(
    peer: Option<&str>,
    desktop: Option<Desktop>,
    earlier: Option<&Monitor>,
    x: i32,
    y: i32,
) -> (result: Monitor)
    ensures
        result@ == tile(
            owner_of(peer),
            desktop,
            match earlier {
                Some(monitor) => Some(monitor@),
                None => None,
            },
            x,
            y,
        ),
{
    let (width, height) = match desktop {
        Some(desktop) => (desktop.width, desktop.height),
        None => match earlier {
            Some(monitor) => (monitor.width, monitor.height),
            None => (1920, 1080),
        },
    };
    let label = match peer {
        Some(name) => name.to_owned(),
        None => "This computer".to_owned(),
    };
    Monitor { id: computer_id(peer), label, peer: name_of(peer), x, y, width, height }
}

fn add_tile(
    layout: &mut Layout,
    peer: Option<&str>,
    desktop: Option<Desktop>,
    earlier: Option<&Monitor>,
) -> (placed: bool)
    requires
        is_valid(old(layout)@),
    ensures
        is_valid(final(layout)@),
        final(layout)@ == with_tile(
            old(layout)@,
            owner_of(peer),
            desktop,
            match earlier {
                Some(monitor) => Some(monitor@),
                None => None,
            },
        ),
        placed == (final(layout)@.len() > old(layout)@.len()),
{
    let ghost before = layout@;
    if peer.is_some() && desktop.is_none() && earlier.is_none() {
        return false;
    }
    proof {
        valid_edges_fit(layout@);
    }
    let right: i32 = right_of(layout);
    let (x, y) = match earlier {
        Some(monitor) => (monitor.x, monitor.y),
        None => (right, 0),
    };
    layout.monitors.push(make_tile(peer, desktop, earlier, x, y));
    assert(layout@ =~= before.push(layout.monitors@.last()@));
    if layout.validate().is_ok() {
        return true;
    }
    let _ = layout.monitors.pop();
    assert(layout@ =~= before);
    layout.monitors.push(make_tile(peer, desktop, earlier, right, 0));
    assert(layout@ =~= before.push(layout.monitors@.last()@));
    if layout.validate().is_ok() {
        return true;
    }
    let _ = layout.monitors.pop();
    assert(layout@ =~= before);
    false
}

fn usable(desktop: Option<Desktop>) -> (result: Option<Desktop>)
    ensures
        result == known_desktop(desktop),
{
    match desktop {
        Some(known) => if known.valid() {
            Some(known)
        } else {
            None
        },
        None => None,
    }
}

pub open spec fn texts(strings: Seq<String>) -> Seq<Seq<char>> {
    strings.map_values(|text: String| text@)
}

/// The tiles, the ids of those whose desktop is known, and the computers whose
/// desktop is not.
pub struct Tiles {
    pub layout: Layout,
    pub ready: Vec<String>,
    pub waiting: Vec<String>,
}

/// Lays out one tile for each computer.
pub fn lay_out(
    previous: &Layout,
    local: Option<Desktop>,
    remote: &OrderedMap<Desktop>,
    config: &Config,
) -> (result: Tiles)
    requires
        remote.wf(),
        config.wf(),
    ensures
        ({
            let desktops = Desktops {
                previous: previous@,
                local,
                remote: remote@,
                names: config.peers.keys(),
            };
            let count = config.peers.keys().len() as int;
            &&& result.layout@ == desktops.tiles(count)
            &&& is_valid(result.layout@)
            &&& texts(result.ready@) == desktops.ready(count)
            &&& texts(result.waiting@) == desktops.waiting(count)
        }),
{
    let ghost desktops = Desktops {
        previous: previous@,
        local,
        remote: remote@,
        names: config.peers.keys(),
    };
    let mut layout = Layout::default();
    let mut ready: Vec<String> = Vec::new();
    let mut waiting: Vec<String> = Vec::new();
    assert(is_valid(layout@));
    let known = usable(local);
    let earlier = find_tile(previous, None);
    let placed = add_tile(&mut layout, None, known, earlier);
    if known.is_some() && placed {
        ready.push(computer_id(None));
    }
    assert(texts(ready@) =~= desktops.ready(0));
    assert(texts(waiting@) =~= desktops.waiting(0));
    let count: usize = config.peers.len();
    let mut at: usize = 0;
    while at < count
        invariant
            remote.wf(),
            config.wf(),
            count == config.peers.keys().len(),
            at <= count,
            desktops == (Desktops {
                previous: previous@,
                local,
                remote: remote@,
                names: config.peers.keys(),
            }),
            is_valid(layout@),
            layout@ == desktops.tiles(at as int),
            texts(ready@) == desktops.ready(at as int),
            texts(waiting@) == desktops.waiting(at as int),
        decreases count - at,
    {
        let name: &str = config.peers.key_at(at).as_str();
        let told = match remote.get(name) {
            Some(desktop) => Some(*desktop),
            None => None,
        };
        let ghost waited = waiting@;
        if told.is_none() {
            waiting.push(name.to_owned());
            assert(texts(waiting@) =~= texts(waited).push(name@));
        }
        let known = usable(told);
        let earlier = find_tile(previous, Some(name));
        let placed = add_tile(&mut layout, Some(name), known, earlier);
        let ghost readied = ready@;
        if known.is_some() && placed {
            ready.push(computer_id(Some(name)));
            assert(texts(ready@) =~= texts(readied).push(id_of_computer(Some(name@))));
        }
        at = at + 1;
    }
    Tiles { layout, ready, waiting }
}

/// The layout that is proposed before one was saved: this computer alone.
pub open spec fn suggestion() -> Seq<MonitorModel> {
    seq![tile(None, None, None, 0, 0)]
}

/// Puts a computer of usual size to the right of all others.
pub fn add_monitor(layout: &mut Layout, peer: Option<&str>)
    requires
        edges_fit(old(layout)@),
    ensures
        final(layout)@ == old(layout)@.push(
            tile(owner_of(peer), None, None, right_edge(old(layout)@) as i32, 0),
        ),
{
    let ghost before = layout@;
    let right: i32 = right_of(layout);
    layout.monitors.push(make_tile(peer, None, None, right, 0));
    assert(layout@ =~= before.push(layout.monitors@.last()@));
}

pub fn suggested_layout() -> (result: Layout)
    ensures
        result@ == suggestion(),
{
    let mut result = Layout { monitors: Vec::new() };
    assert(result@ =~= Seq::empty());
    add_monitor(&mut result, None);
    assert(result@ =~= suggestion());
    result
}

/// The layout page of the desktop program.
pub struct LayoutEditor {
    /// None until a layout file could be read.
    pub document: Option<LayoutDocument>,
    pub error: Option<String>,
    pub detected: Option<Layout>,
    pub ready: Vec<String>,
    pub waiting: Vec<String>,
    pub drag: Option<Drag>,
    pub edited: bool,
}

/// A tile that is being dragged.
pub struct Drag {
    pub index: usize,
    /// The layout when the drag began.
    pub original: Layout,
    /// Where the tile would land now, if it may land there.
    pub position: Option<(i32, i32)>,
}

#[derive(Clone, Copy, Debug, PartialEq, Eq, Structural)]
pub enum DropOutcome {
    /// Nothing was dragged.
    Nothing,
    Moved,
    /// The tile may not lie there.
    Rejected,
}

/// What a tile says below its name.
#[derive(Clone, Copy, Debug, PartialEq, Eq, Structural)]
pub enum TileState {
    Waiting,
    Local,
    Paired,
}

pub open spec fn saturated_sum(a: i32, b: i32) -> i32 {
    if a + b > i32::MAX {
        i32::MAX
    } else if a + b < i32::MIN {
        i32::MIN
    } else {
        (a + b) as i32
    }
}

fn saturating_sum(a: i32, b: i32) -> (result: i32)
    ensures
        result == saturated_sum(a, b),
{
    let sum: i64 = a as i64 + b as i64;
    if sum > i32::MAX as i64 {
        i32::MAX
    } else if sum < i32::MIN as i64 {
        i32::MIN
    } else {
        sum as i32
    }
}

/// Moves a tile by arrow keys. It moves only where it fits; gives where to.
pub fn nudge(layout: &mut Layout, index: usize, dx: i32, dy: i32) -> (place: Option<(i32, i32)>)
    requires
        index < old(layout)@.len(),
    ensures
        snap_result(
            old(layout)@,
            index as int,
            saturated_sum(old(layout)@[index as int].x, dx) as int,
            saturated_sum(old(layout)@[index as int].y, dy) as int,
            0,
            place,
        ),
        final(layout)@ == moved_to(old(layout)@, index as int, place),
        is_valid(old(layout)@) ==> is_valid(final(layout)@),
{
    let ghost before = layout@;
    assert(layout@[index as int] == layout.monitors@[index as int]@);
    let x: i32 = saturating_sum(layout.monitors[index].x, dx);
    let y: i32 = saturating_sum(layout.monitors[index].y, dy);
    let place = layout.snap_move(index, x, y, 0);
    if let Some(landed) = place {
        place_tile(layout, index, landed);
        proof {
            if is_valid(before) {
                moves_keep_layouts_valid(before, index as int, landed.0, landed.1);
            }
        }
    }
    place
}

/// A layout with one tile at another place, or as it was.
pub open spec fn moved_to(
    monitors: Seq<MonitorModel>,
    index: int,
    place: Option<(i32, i32)>,
) -> Seq<MonitorModel> {
    match place {
        Some((x, y)) => monitors.update(index, monitors[index].at(x, y)),
        None => monitors,
    }
}

fn place_tile(layout: &mut Layout, index: usize, place: (i32, i32))
    requires
        index < old(layout)@.len(),
    ensures
        final(layout)@ == moved_to(old(layout)@, index as int, Some(place)),
{
    let mut monitor = layout.monitors[index].copy();
    assert(layout@[index as int] == layout.monitors@[index as int]@);
    monitor.x = place.0;
    monitor.y = place.1;
    layout.monitors.set(index, monitor);
    assert(layout@ =~= moved_to(old(layout)@, index as int, Some(place)));
}

impl LayoutEditor {
    /// An editor of a document, or of none for the reason why it cannot be read.
    pub fn open(document: Result<LayoutDocument, String>) -> (result: Self)
        ensures
            match document {
                Ok(opened) => result.document == Some(opened) && result.error is None,
                Err(reason) => result.document is None && result.error == Some(reason),
            },
            result.detected is None,
            result.ready@.len() == 0,
            result.waiting@.len() == 0,
            result.drag is None,
            !result.edited,
    {
        let (document, error) = match document {
            Ok(opened) => (Some(opened), None),
            Err(reason) => (None, Some(reason)),
        };
        LayoutEditor {
            document,
            error,
            detected: None,
            ready: Vec::new(),
            waiting: Vec::new(),
            drag: None,
            edited: false,
        }
    }

    /// The document was read again. A failure leaves everything but the error.
    pub fn reload(&mut self, document: Result<LayoutDocument, String>)
        ensures
            match document {
                Ok(opened) => {
                    &&& final(self).document == Some(opened)
                    &&& final(self).error is None
                    &&& final(self).detected is None
                    &&& final(self).ready@.len() == 0
                    &&& final(self).waiting@.len() == 0
                    &&& final(self).drag is None
                    &&& !final(self).edited
                },
                Err(reason) => *final(self) == (LayoutEditor {
                    error: Some(reason),
                    ..*old(self)
                }),
            },
    {
        match document {
            Ok(opened) => {
                self.document = Some(opened);
                self.error = None;
                self.detected = None;
                self.ready = Vec::new();
                self.waiting = Vec::new();
                self.drag = None;
                self.edited = false;
            },
            Err(reason) => {
                self.error = Some(reason);
            },
        }
    }

    pub open spec fn dirty(&self) -> bool {
        self.edited || (self.document matches Some(document) && document.draft@
            != document.saved@)
    }

    pub fn is_dirty(&self) -> (result: bool)
        ensures
            result == self.dirty(),
    {
        self.edited || match &self.document {
            Some(document) => document.is_dirty(),
            None => false,
        }
    }

    /// Nothing was saved or edited yet.
    pub open spec fn suggests(&self) -> bool {
        !self.edited && (self.document matches Some(document) && document.disk_contents is None
            && document.draft@.len() == 0)
    }

    pub fn suggested(&self) -> (result: bool)
        ensures
            result == self.suggests(),
    {
        !self.edited && match &self.document {
            Some(document) => {
                assert(document.draft@.len() == document.draft.monitors@.len());
                document.is_new() && document.draft.monitors.len() == 0
            },
            None => false,
        }
    }

    /// The layout that is shown: what was laid out, else the suggestion, else
    /// the draft.
    pub open spec fn effective(&self) -> Seq<MonitorModel> {
        if let Some(detected) = self.detected {
            detected@
        } else if self.suggests() {
            suggestion()
        } else if let Some(document) = self.document {
            document.draft@
        } else {
            Seq::empty()
        }
    }

    pub fn effective_layout(&self) -> (result: Layout)
        ensures
            result@ == self.effective(),
    {
        if let Some(detected) = &self.detected {
            return detected.copy();
        }
        if self.suggested() {
            return suggested_layout();
        }
        match &self.document {
            Some(document) => document.draft.copy(),
            None => Layout::default(),
        }
    }

    /// What tiles keep their places from.
    pub open spec fn previous(&self) -> Seq<MonitorModel> {
        if let Some(detected) = self.detected {
            detected@
        } else if let Some(document) = self.document {
            document.draft@
        } else {
            Seq::empty()
        }
    }

    /// Lays the tiles out for the desktops that are known now. Nothing moves
    /// during a drag.
    pub fn update_desktops(
        &mut self,
        local: Option<Desktop>,
        remote: &OrderedMap<Desktop>,
        config: &Config,
    )
        requires
            remote.wf(),
            config.wf(),
        ensures
            old(self).drag is Some ==> *final(self) == *old(self),
            old(self).drag is None ==> {
                let desktops = Desktops {
                    previous: old(self).previous(),
                    local,
                    remote: remote@,
                    names: config.peers.keys(),
                };
                let count = config.peers.keys().len() as int;
                &&& final(self).detected is Some
                &&& final(self).detected->0@ == desktops.tiles(count)
                &&& texts(final(self).ready@) == desktops.ready(count)
                &&& texts(final(self).waiting@) == desktops.waiting(count)
                &&& *final(self) == (LayoutEditor {
                    detected: final(self).detected,
                    ready: final(self).ready,
                    waiting: final(self).waiting,
                    ..*old(self)
                })
            },
    {
        if self.drag.is_some() {
            return;
        }
        let nothing = Layout::default();
        let tiles = match &self.detected {
            Some(detected) => lay_out(detected, local, remote, config),
            None => match &self.document {
                Some(document) => lay_out(&document.draft, local, remote, config),
                None => lay_out(&nothing, local, remote, config),
            },
        };
        self.detected = Some(tiles.layout);
        self.ready = tiles.ready;
        self.waiting = tiles.waiting;
    }

    /// There is something to save, this computer's desktop is known, and the
    /// layout that is shown is valid.
    pub open spec fn saveable(&self) -> bool {
        &&& self.error is None
        &&& self.document matches Some(document) && (document.disk_contents is None
            || self.dirty() || self.effective() != document.draft@)
        &&& texts(self.ready@).contains(id_of_computer(None))
        &&& is_valid(self.effective())
    }

    pub fn can_save(&self) -> (result: bool)
        ensures
            result == self.saveable(),
    {
        if self.error.is_some() {
            return false;
        }
        let layout = self.effective_layout();
        let changed = match &self.document {
            Some(document) => document.is_new() || self.is_dirty() || !layout.same_as(
                &document.draft,
            ),
            None => false,
        };
        if !changed {
            return false;
        }
        let id = computer_id(None);
        let local_ready = crate::text::position_of_text(&self.ready, id.as_str()).is_some();
        proof {
            if local_ready {
                let k = choose|k: int|
                    0 <= k < self.ready@.len() && (#[trigger] self.ready@[k])@ == id@;
                assert(texts(self.ready@)[k] == id@);
            } else if texts(self.ready@).contains(id@) {
                let k = choose|k: int|
                    0 <= k < texts(self.ready@).len() && texts(self.ready@)[k] == id@;
                assert(self.ready@[k]@ == id@);
            }
        }
        local_ready && layout.validate().is_ok()
    }

    /// Makes what is shown the draft, to be saved. Gives whether there is
    /// anything to save into.
    pub fn stage(&mut self) -> (result: bool)
        ensures
            result == (old(self).error is None && old(self).document is Some),
            !result ==> *final(self) == *old(self),
            result ==> {
                &&& final(self).document is Some
                &&& final(self).document->0.draft@ == old(self).effective()
                &&& final(self).document->0 == (LayoutDocument {
                    draft: final(self).document->0.draft,
                    ..old(self).document->0
                })
                &&& *final(self) == (LayoutEditor {
                    document: final(self).document,
                    ..*old(self)
                })
            },
    {
        if self.error.is_some() || self.document.is_none() {
            return false;
        }
        let layout = self.effective_layout();
        if let Some(document) = &mut self.document {
            document.draft = layout;
        }
        true
    }

    /// The draft was written as these bytes: nothing is left to save.
    pub fn save(&mut self, written: Vec<u8>)
        requires
            old(self).document is Some,
        ensures
            !final(self).dirty(),
            final(self).document is Some,
            final(self).document->0.path == old(self).document->0.path,
            final(self).document->0.draft == old(self).document->0.draft,
            final(self).document->0.saved@ == old(self).document->0.draft@,
            final(self).document->0.disk_contents == Some(written),
            *final(self) == (LayoutEditor {
                document: final(self).document,
                edited: false,
                ..*old(self)
            }),
    {
        self.edited = false;
        if let Some(document) = &mut self.document {
            document.save(written);
        }
    }

    /// The layout on the page was changed by hand, or not.
    pub fn apply_edit(&mut self, layout: Layout)
        ensures
            if layout@ == old(self).effective() || old(self).document is None {
                *final(self) == *old(self)
            } else {
                &&& final(self).document is Some
                &&& final(self).document->0.draft@ == layout@
                &&& final(self).document->0 == (LayoutDocument {
                    draft: final(self).document->0.draft,
                    ..old(self).document->0
                })
                &&& final(self).detected is Some == old(self).detected is Some
                &&& final(self).detected is Some ==> final(self).detected->0@ == layout@
                &&& final(self).edited
                &&& *final(self) == (LayoutEditor {
                    document: final(self).document,
                    detected: final(self).detected,
                    edited: true,
                    ..*old(self)
                })
            },
    {
        let before = self.effective_layout();
        if layout.same_as(&before) || self.document.is_none() {
            return;
        }
        let draft = layout.copy();
        if let Some(document) = &mut self.document {
            document.draft = draft;
        }
        if self.detected.is_some() {
            self.detected = Some(layout);
        }
        self.edited = true;
    }
}

impl LayoutEditor {
    /// A tile of the layout that is shown is taken up.
    pub fn start_drag(&mut self, index: usize, layout: &Layout)
        requires
            index < layout@.len(),
        ensures
            final(self).drag is Some,
            final(self).drag->0.index == index,
            final(self).drag->0.original@ == layout@,
            final(self).drag->0.position == Some(
                (layout@[index as int].x, layout@[index as int].y),
            ),
            *final(self) == (LayoutEditor { drag: final(self).drag, ..*old(self) }),
    {
        assert(layout@[index as int] == layout.monitors@[index as int]@);
        let position = (layout.monitors[index].x, layout.monitors[index].y);
        self.drag = Some(Drag { index, original: layout.copy(), position: Some(position) });
    }

    /// The dragged tile is this far from where it was taken up. Gives where it
    /// is shown: where it would land, or under the pointer.
    pub fn drag_to(&mut self, dx: i32, dy: i32, tolerance: i32) -> (shown: Option<(i32, i32)>)
        requires
            old(self).drag matches Some(drag) ==> drag.index < drag.original@.len(),
        ensures
            old(self).drag is None ==> shown is None && *final(self) == *old(self),
            old(self).drag matches Some(drag) ==> {
                let origin = drag.original@[drag.index as int];
                let x = saturated_sum(origin.x, dx);
                let y = saturated_sum(origin.y, dy);
                &&& final(self).drag is Some
                &&& final(self).drag->0 == (Drag {
                    position: final(self).drag->0.position,
                    ..drag
                })
                &&& snap_result(
                    drag.original@,
                    drag.index as int,
                    x as int,
                    y as int,
                    tolerance as int,
                    final(self).drag->0.position,
                )
                &&& shown == match final(self).drag->0.position {
                    Some(place) => Some(place),
                    None => Some((x, y)),
                }
                &&& *final(self) == (LayoutEditor { drag: final(self).drag, ..*old(self) })
            },
    {
        match &mut self.drag {
            None => None,
            Some(drag) => {
                assert(drag.original@[drag.index as int]
                    == drag.original.monitors@[drag.index as int]@);
                let x: i32 = saturating_sum(drag.original.monitors[drag.index].x, dx);
                let y: i32 = saturating_sum(drag.original.monitors[drag.index].y, dy);
                let place = drag.original.snap_move(drag.index, x, y, tolerance);
                drag.position = place;
                match place {
                    Some(place) => Some(place),
                    None => Some((x, y)),
                }
            },
        }
    }

    /// The pointer was released: the tile lands, or goes back to where it was.
    pub fn drop_tile(&mut self, layout: &mut Layout) -> (outcome: DropOutcome)
        requires
            old(self).drag matches Some(drag) ==> drag.index < old(layout)@.len(),
        ensures
            *final(self) == (LayoutEditor { drag: None, ..*old(self) }),
            match old(self).drag {
                None => outcome == DropOutcome::Nothing && final(layout)@ == old(layout)@,
                Some(drag) => {
                    &&& outcome == if drag.position is Some {
                        DropOutcome::Moved
                    } else {
                        DropOutcome::Rejected
                    }
                    &&& final(layout)@ == moved_to(
                        old(layout)@,
                        drag.index as int,
                        drag.position,
                    )
                },
            },
    {
        let (index, position) = match &self.drag {
            Some(drag) => (drag.index, drag.position),
            None => return DropOutcome::Nothing,
        };
        self.drag = None;
        match position {
            Some(place) => {
                place_tile(layout, index, place);
                DropOutcome::Moved
            },
            None => DropOutcome::Rejected,
        }
    }

    pub fn tile_state(&self, monitor: &Monitor) -> (result: TileState)
        ensures
            result == if !texts(self.ready@).contains(monitor.id@) {
                TileState::Waiting
            } else if monitor.peer is None {
                TileState::Local
            } else {
                TileState::Paired
            },
    {
        let ready = crate::text::position_of_text(&self.ready, monitor.id.as_str()).is_some();
        proof {
            if ready {
                let k = choose|k: int|
                    0 <= k < self.ready@.len() && (#[trigger] self.ready@[k])@ == monitor.id@;
                assert(texts(self.ready@)[k] == monitor.id@);
            } else if texts(self.ready@).contains(monitor.id@) {
                let k = choose|k: int|
                    0 <= k < texts(self.ready@).len() && texts(self.ready@)[k] == monitor.id@;
                assert(self.ready@[k]@ == monitor.id@);
            }
        }
        if !ready {
            TileState::Waiting
        } else if monitor.peer.is_none() {
            TileState::Local
        } else {
            TileState::Paired
        }
    }
}

/// Wherever a tile of a valid layout is dragged and dropped, the layout stays
/// valid.
pub proof fn drops_keep_layouts_valid(
    monitors: Seq<MonitorModel>,
    index: int,
    x: int,
    y: int,
    tolerance: int,
    place: Option<(i32, i32)>,
)
    requires
        is_valid(monitors),
        0 <= index < monitors.len(),
        i32::MIN <= x <= i32::MAX,
        i32::MIN <= y <= i32::MAX,
        snap_result(monitors, index, x, y, tolerance, place),
    ensures
        is_valid(moved_to(monitors, index, place)),
{
    if let Some((px, py)) = place {
        let drop = DropPoint { index, x, y, tolerance };
        if exists|number: int| #[trigger] can_snap(monitors, drop, number) {
            let number = choose|number: int| #[trigger]
                snaps_to(monitors, drop, number) && place == snapped(
                    snap_place(monitors, drop, number),
                );
            assert(can_snap(monitors, drop, number));
        }
        moves_keep_layouts_valid(monitors, index, px, py);
    }
}

/// The right edge is that of the monitor that reaches farthest, or zero without
/// monitors.
pub proof fn the_right_edge_is_the_farthest(monitors: Seq<MonitorModel>, at: int)
    requires
        0 <= at < monitors.len(),
    ensures
        monitors[at].x + monitors[at].width <= right_edge(monitors),
        exists|i: int|
            0 <= i < monitors.len() && (#[trigger] monitors[i]).x + monitors[i].width
                == right_edge(monitors),
        right_edge(Seq::empty()) == 0,
    decreases monitors.len(),
{
    if monitors.len() == 1 {
        assert(monitors[0].x + monitors[0].width == right_edge(monitors));
    } else {
        let before = monitors.drop_last();
        the_right_edge_is_the_farthest(before, if at < before.len() {
            at
        } else {
            0
        });
        let k = choose|k: int|
            0 <= k < before.len() && (#[trigger] before[k]).x + before[k].width == right_edge(
                before,
            );
        assert(monitors[k] == before[k]);
        assert(monitors[monitors.len() - 1] == monitors.last());
    }
}

/// A computer that was placed keeps its place as long as it fits there; a new one
/// is put to the right of all others. It is as large as its desktop, or as it was
/// when nothing is known of its desktop; a computer of which nothing was ever known
/// gets no tile. The other tiles stay as they are.
pub proof fn computers_keep_their_place(
    monitors: Seq<MonitorModel>,
    peer: Option<Seq<char>>,
    desktop: Option<Desktop>,
    earlier: Option<MonitorModel>,
)
    ensures
        ({
            let after = with_tile(monitors, peer, desktop, earlier);
            &&& after == monitors || (after.len() == monitors.len() + 1 && after.drop_last()
                == monitors)
            &&& peer is Some && desktop is None && earlier is None ==> after == monitors
            &&& after != monitors ==> after.last().peer == peer && is_valid(after) && (
            desktop matches Some(size) ==> after.last().width == size.width && after.last().height
                == size.height) && (desktop is None && earlier is Some ==> after.last().width
                == earlier->0.width && after.last().height == earlier->0.height) && (
            peer matches Some(name) ==> after.last().label == name)
            &&& after != monitors && earlier is Some && is_valid(
                monitors.push(
                    MonitorModel { x: earlier->0.x, y: earlier->0.y, ..after.last() },
                ),
            ) ==> after.last().x == earlier->0.x && after.last().y == earlier->0.y
            &&& after != monitors && earlier is None ==> after.last().x == right_edge(
                monitors,
            ) as i32 && after.last().y == 0
        }),
{
    let after = with_tile(monitors, peer, desktop, earlier);
    let right = right_edge(monitors) as i32;
    let moved = tile(peer, desktop, earlier, right, 0);
    assert(monitors.push(moved).drop_last() =~= monitors);
    if let Some(monitor) = earlier {
        let kept = tile(peer, desktop, earlier, monitor.x, monitor.y);
        assert(monitors.push(kept).drop_last() =~= monitors);
    }
}

/// Exactly the paired computers that announced no desktop are waited for.
pub proof fn unannounced_computers_are_waited_for(desktops: Desktops, count: int, name: Seq<char>)
    requires
        0 <= count <= desktops.names.len(),
    ensures
        desktops.waiting(count).contains(name) <==> desktops.names.take(count).contains(name)
            && !desktops.remote.dom().contains(name),
    decreases count,
{
    let taken = desktops.names.take(count);
    if count > 0 {
        unannounced_computers_are_waited_for(desktops, count - 1, name);
        let earlier = desktops.names.take(count - 1);
        let before = desktops.waiting(count - 1);
        let now = desktops.waiting(count);
        let last = desktops.names[count - 1];
        assert(taken =~= earlier.push(last));
        assert(taken[count - 1] == last);
        if earlier.contains(name) {
            let i = choose|i: int| 0 <= i < earlier.len() && earlier[i] == name;
            assert(taken[i] == name);
        }
        if taken.contains(name) && name != last {
            let i = choose|i: int| 0 <= i < taken.len() && taken[i] == name;
            assert(earlier[i] == name);
        }
        if !desktops.remote.dom().contains(last) {
            assert(now == before.push(last));
            assert(now[before.len() as int] == last);
            if before.contains(name) {
                let i = choose|i: int| 0 <= i < before.len() && before[i] == name;
                assert(now[i] == name);
            }
            if now.contains(name) && name != last {
                let i = choose|i: int| 0 <= i < now.len() && now[i] == name;
                assert(before[i] == name);
            }
        }
    } else {
        assert(taken =~= Seq::empty());
    }
}

/// A moved tile is where it was put and as it was otherwise; the others stay.
pub proof fn moves_change_one_place(
    monitors: Seq<MonitorModel>,
    index: int,
    place: (i32, i32),
    other: int,
)
    requires
        0 <= index < monitors.len(),
        0 <= other < monitors.len(),
    ensures
        ({
            let after = moved_to(monitors, index, Some(place));
            &&& after.len() == monitors.len()
            &&& after[index].x == place.0 && after[index].y == place.1
            &&& after[index] == (MonitorModel { x: place.0, y: place.1, ..monitors[index] })
            &&& other != index ==> after[other] == monitors[other]
        }),
        moved_to(monitors, index, None) == monitors,
{
}

/// A sum that does not fit is the nearest number that does.
pub proof fn saturated_sums_are_nearest(a: i32, b: i32, other: i32)
    ensures
        a + b == saturated_sum(a, b) || (a + b > saturated_sum(a, b) && other <= saturated_sum(
            a,
            b,
        )) || (a + b < saturated_sum(a, b) && other >= saturated_sum(a, b)),
{
}

/// A layout that is suggested holds this computer alone, at the origin, at the usual
/// size.
pub proof fn suggestions_hold_this_computer()
    ensures
        suggestion().len() == 1,
        suggestion()[0].peer is None,
        suggestion()[0].x == 0,
        suggestion()[0].y == 0,
        suggestion()[0].width == 1920,
        suggestion()[0].height == 1080,
{
}

/// The first tile of a computer is its tile.
pub proof fn computers_have_their_first_tile(
    monitors: Seq<MonitorModel>,
    peer: Option<Seq<char>>,
    at: int,
)
    requires
        0 <= at < monitors.len(),
        monitors[at].peer == peer,
        forall|i: int| 0 <= i < at ==> (#[trigger] monitors[i]).peer != peer,
    ensures
        tile_of(monitors, peer) == Some(monitors[at]),
    decreases monitors.len(),
{
    if at > 0 {
        let rest = monitors.drop_first();
        assert(monitors[0].peer != peer);
        assert forall|i: int| 0 <= i < at - 1 implies (#[trigger] rest[i]).peer != peer by {
            assert(rest[i] == monitors[i + 1]);
        }
        computers_have_their_first_tile(rest, peer, at - 1);
    }
}

/// This computer's tile is no other computer's, and all are named as computers.
pub proof fn this_computer_has_its_own_tile(name: Seq<char>)
    ensures
        id_of_computer(Some(name)) != id_of_computer(None),
        id_of_computer(None).take(9) == "computer:"@,
        id_of_computer(Some(name)).take(9) == "computer:"@,
{
    reveal_strlit("computer:");
    reveal_strlit("computer:local");
    let digest = sha256_of(vstd::utf8::encode_utf8(name));
    if digest.len() > 0 {
        hex_text_names_its_bytes(digest, 0);
    }
    assert(id_of_computer(Some(name)).len() != id_of_computer(None).len());
    assert(id_of_computer(None).take(9) =~= "computer:"@);
    assert(id_of_computer(Some(name)).take(9) =~= "computer:"@);
}

/// Only computers whose desktop is known are ready.
pub proof fn ready_computers_have_a_desktop(desktops: Desktops, count: int, id: Seq<char>)
    requires
        0 <= count <= desktops.names.len(),
        desktops.ready(count).contains(id),
    ensures
        (id == id_of_computer(None) && known_desktop(desktops.local) is Some) || exists|at: int|
            0 <= at < count && id == id_of_computer(Some(#[trigger] desktops.names[at]))
                && desktops.of_peer(desktops.names[at]) is Some,
    decreases count,
{
    if count > 0 {
        let before = desktops.ready(count - 1);
        let now = desktops.ready(count);
        let name = desktops.names[count - 1];
        let i = choose|i: int| 0 <= i < now.len() && now[i] == id;
        if i < before.len() {
            assert(before[i] == id);
            ready_computers_have_a_desktop(desktops, count - 1, id);
        } else {
            assert(id == id_of_computer(Some(name)));
        }
    }
}

} // verus!
