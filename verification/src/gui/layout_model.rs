//! Arrangement of the computers' monitors.
use vstd::prelude::*;

use crate::identity::same_bytes;
use crate::pairing::{byte_length, is_control};
use crate::scan::{trim, trimmed};
use crate::text::{copy_optional_text, same_optional_text, same_text, text_of};

verus! {

pub const MAX_MONITORS: usize = 32;

pub const MAX_COORDINATE: i32 = 100_000;

pub const MAX_DIMENSION: u32 = 16_384;

/// Longest id, label or peer name, in bytes.
pub const MAX_TEXT_BYTES: usize = 128;

#[derive(Debug, PartialEq, Eq)]
pub struct Layout {
    pub monitors: Vec<Monitor>,
}

#[derive(Debug, PartialEq, Eq)]
pub struct Monitor {
    pub id: String,
    pub label: String,
    /// The computer that owns the monitor; none is this computer.
    pub peer: Option<String>,
    pub x: i32,
    pub y: i32,
    pub width: u32,
    pub height: u32,
}

#[derive(Clone, Copy, Debug, PartialEq, Eq, Structural)]
pub enum Edge {
    Left,
    Right,
    Top,
    Bottom,
}

impl Edge {
    pub open spec fn opposite(self) -> Edge {
        match self {
            Edge::Left => Edge::Right,
            Edge::Right => Edge::Left,
            Edge::Top => Edge::Bottom,
            Edge::Bottom => Edge::Top,
        }
    }
}

/// A shared edge between monitors of two computers. Starts and ends count from
/// the beginning of an edge of the given length.
#[derive(Clone, Copy, Debug, PartialEq, Eq, Structural)]
pub struct Transition {
    pub source: usize,
    pub target: usize,
    pub edge: Edge,
    pub source_start: i64,
    pub source_end: i64,
    pub source_length: i64,
    pub target_start: i64,
    pub target_end: i64,
    pub target_length: i64,
}

/// A monitor as mathematical values.
#[verifier::ext_equal]
pub struct MonitorModel {
    pub id: Seq<char>,
    pub label: Seq<char>,
    pub peer: Option<Seq<char>>,
    pub x: i32,
    pub y: i32,
    pub width: u32,
    pub height: u32,
}

impl View for Monitor {
    type V = MonitorModel;

    open spec fn view(&self) -> MonitorModel {
        MonitorModel {
            id: self.id@,
            label: self.label@,
            peer: text_of(self.peer),
            x: self.x,
            y: self.y,
            width: self.width,
            height: self.height,
        }
    }
}

impl View for Layout {
    type V = Seq<MonitorModel>;

    open spec fn view(&self) -> Seq<MonitorModel> {
        self.monitors@.map_values(|monitor: Monitor| monitor@)
    }
}

impl MonitorModel {
    pub open spec fn right(self) -> int {
        self.x + self.width
    }

    pub open spec fn bottom(self) -> int {
        self.y + self.height
    }

    /// The two monitors have a point in common that is on no edge.
    pub open spec fn overlapping(self, other: MonitorModel) -> bool {
        self.x < other.right() && self.right() > other.x && self.y < other.bottom()
            && self.bottom() > other.y
    }

    pub open spec fn in_bounds(self) -> bool {
        &&& -MAX_COORDINATE <= self.x <= MAX_COORDINATE
        &&& -MAX_COORDINATE <= self.y <= MAX_COORDINATE
        &&& 1 <= self.width <= MAX_DIMENSION
        &&& 1 <= self.height <= MAX_DIMENSION
    }

    pub open spec fn has_valid_texts(self) -> bool {
        &&& is_name(self.id)
        &&& is_name(self.label)
        &&& self.peer matches Some(peer) ==> is_name(peer)
    }

    pub open spec fn at(self, x: i32, y: i32) -> MonitorModel {
        MonitorModel { x, y, ..self }
    }
}

/// Text that is not blank, not too long, and printable.
pub open spec fn is_name(text: Seq<char>) -> bool {
    &&& trimmed(text).len() > 0
    &&& byte_length(text) <= MAX_TEXT_BYTES
    &&& forall|i: int| 0 <= i < text.len() ==> !is_control(#[trigger] text[i])
}

fn check_name(text: &str) -> (result: bool)
    ensures
        result == is_name(text@),
{
    if trim(text).unicode_len() == 0 || text.as_bytes().len() > MAX_TEXT_BYTES {
        return false;
    }
    let len: usize = text.unicode_len();
    let mut at: usize = 0;
    while at < len
        invariant
            len == text@.len(),
            at <= len,
            forall|i: int| 0 <= i < at ==> !is_control(#[trigger] text@[i]),
        decreases len - at,
    {
        let c: u32 = text.get_char(at) as u32;
        if c <= 0x1f || (0x7f <= c && c <= 0x9f) {
            assert(is_control(text@[at as int]));
            return false;
        }
        at = at + 1;
    }
    true
}

impl Monitor {
    pub fn copy(&self) -> (result: Self)
        ensures
            result@ == self@,
    {
        Monitor {
            id: self.id.clone(),
            label: self.label.clone(),
            peer: copy_optional_text(&self.peer),
            x: self.x,
            y: self.y,
            width: self.width,
            height: self.height,
        }
    }

    pub fn same_as(&self, other: &Monitor) -> (result: bool)
        ensures
            result == (self@ == other@),
    {
        same_text(self.id.as_str(), other.id.as_str()) && same_text(
            self.label.as_str(),
            other.label.as_str(),
        ) && same_optional_text(&self.peer, &other.peer) && self.x == other.x && self.y == other.y
            && self.width == other.width && self.height == other.height
    }

    /// Left, top, right and bottom.
    pub fn bounds(&self) -> (result: (i64, i64, i64, i64))
        ensures
            result.0 == self@.x,
            result.1 == self@.y,
            result.2 == self@.right(),
            result.3 == self@.bottom(),
    {
        let x: i64 = self.x as i64;
        let y: i64 = self.y as i64;
        (x, y, x + self.width as i64, y + self.height as i64)
    }

    pub fn overlaps(&self, other: &Monitor) -> (result: bool)
        ensures
            result == self@.overlapping(other@),
    {
        let (left, top, right, bottom) = self.bounds();
        let (other_left, other_top, other_right, other_bottom) = other.bounds();
        left < other_right && right > other_left && top < other_bottom && bottom > other_top
    }

    pub fn valid_geometry(&self) -> (result: bool)
        ensures
            result == self@.in_bounds(),
    {
        -MAX_COORDINATE <= self.x && self.x <= MAX_COORDINATE && -MAX_COORDINATE <= self.y
            && self.y <= MAX_COORDINATE && 1 <= self.width && self.width <= MAX_DIMENSION && 1
            <= self.height && self.height <= MAX_DIMENSION
    }

    fn has_names(&self) -> (result: bool)
        ensures
            result == self@.has_valid_texts(),
    {
        let peer_named = match &self.peer {
            Some(peer) => check_name(peer.as_str()),
            None => true,
        };
        check_name(self.id.as_str()) && check_name(self.label.as_str()) && peer_named
    }
}

/// Why a layout is refused. Numbers are places in the list of monitors.
#[derive(Clone, Copy, Debug, PartialEq, Eq, Structural)]
pub enum LayoutProblem {
    TooMany,
    InvalidText(usize),
    RepeatedId(usize),
    OutOfBounds(usize),
    Overlap(usize, usize),
}

/// What is wrong with the monitor at a place, given the monitors before it.
pub open spec fn problem_at(monitors: Seq<MonitorModel>, at: int) -> Option<LayoutProblem> {
    let monitor = monitors[at];
    if !monitor.has_valid_texts() {
        Some(LayoutProblem::InvalidText(at as usize))
    } else if exists|i: int| 0 <= i < at && (#[trigger] monitors[i]).id == monitor.id {
        Some(LayoutProblem::RepeatedId(at as usize))
    } else if !monitor.in_bounds() {
        Some(LayoutProblem::OutOfBounds(at as usize))
    } else if exists|i: int| first_overlap(monitors, at, i) {
        Some(
            LayoutProblem::Overlap(
                at as usize,
                (choose|i: int| first_overlap(monitors, at, i)) as usize,
            ),
        )
    } else {
        None
    }
}

/// `other` is the first monitor before `at` that it overlaps.
pub open spec fn first_overlap(monitors: Seq<MonitorModel>, at: int, other: int) -> bool {
    &&& 0 <= other < at
    &&& monitors[at].overlapping(monitors[other])
    &&& forall|i: int| 0 <= i < other ==> !monitors[at].overlapping(#[trigger] monitors[i])
}

pub open spec fn is_valid(monitors: Seq<MonitorModel>) -> bool {
    monitors.len() <= MAX_MONITORS && forall|at: int|
        0 <= at < monitors.len() ==> #[trigger] problem_at(monitors, at) is None
}

proof fn overlap_is_found(monitors: Seq<MonitorModel>, at: int, other: int)
    requires
        0 <= other < at,
        monitors[at].overlapping(monitors[other]),
    ensures
        exists|i: int| first_overlap(monitors, at, i),
    decreases other,
{
    if exists|i: int| 0 <= i < other && monitors[at].overlapping(#[trigger] monitors[i]) {
        let i = choose|i: int|
            0 <= i < other && monitors[at].overlapping(#[trigger] monitors[i]);
        overlap_is_found(monitors, at, i);
    } else {
        assert(first_overlap(monitors, at, other));
    }
}

proof fn first_overlap_is_unique(monitors: Seq<MonitorModel>, at: int, first: int, second: int)
    requires
        first_overlap(monitors, at, first),
        first_overlap(monitors, at, second),
    ensures
        first == second,
{
}

/// In a valid layout no two monitors overlap or have the same id, and every
/// monitor is within bounds.
pub proof fn valid_layouts_are_disjoint(monitors: Seq<MonitorModel>, first: int, second: int)
    requires
        is_valid(monitors),
        0 <= first < monitors.len(),
        0 <= second < monitors.len(),
        first != second,
    ensures
        !monitors[first].overlapping(monitors[second]),
        monitors[first].id != monitors[second].id,
        monitors[first].in_bounds(),
{
    let later = if first < second {
        second
    } else {
        first
    };
    let earlier = if first < second {
        first
    } else {
        second
    };
    assert(problem_at(monitors, later) is None);
    assert(problem_at(monitors, first) is None);
    if monitors[later].overlapping(monitors[earlier]) {
        overlap_is_found(monitors, later, earlier);
    }
}

impl Default for Layout {
    fn default() -> (result: Self)
        ensures
            result@ == Seq::<MonitorModel>::empty(),
    {
        let result = Layout { monitors: Vec::new() };
        assert(result@ =~= Seq::empty());
        result
    }
}

impl Layout {
    pub fn copy(&self) -> (result: Self)
        ensures
            result@ == self@,
    {
        let mut monitors: Vec<Monitor> = Vec::new();
        let mut at: usize = 0;
        while at < self.monitors.len()
            invariant
                at <= self.monitors@.len(),
                monitors@.len() == at,
                forall|i: int| 0 <= i < at ==> (#[trigger] monitors@[i])@ == self.monitors@[i]@,
            decreases self.monitors@.len() - at,
        {
            monitors.push(self.monitors[at].copy());
            at = at + 1;
        }
        let result = Layout { monitors };
        assert(result@ =~= self@);
        result
    }

    pub fn same_as(&self, other: &Layout) -> (result: bool)
        ensures
            result == (self@ == other@),
    {
        if self.monitors.len() != other.monitors.len() {
            assert(self@.len() != other@.len());
            return false;
        }
        let mut at: usize = 0;
        while at < self.monitors.len()
            invariant
                at <= self.monitors@.len(),
                self.monitors@.len() == other.monitors@.len(),
                forall|i: int|
                    0 <= i < at ==> (#[trigger] self.monitors@[i])@ == other.monitors@[i]@,
            decreases self.monitors@.len() - at,
        {
            if !self.monitors[at].same_as(&other.monitors[at]) {
                assert(self@[at as int] != other@[at as int]);
                return false;
            }
            at = at + 1;
        }
        assert(self@ =~= other@);
        true
    }

    fn check_monitor(&self, at: usize) -> (result: Result<(), LayoutProblem>)
        requires
            at < self.monitors@.len(),
        ensures
            result == match problem_at(self@, at as int) {
                Some(problem) => Err::<(), LayoutProblem>(problem),
                None => Ok(()),
            },
    {
        let monitor = &self.monitors[at];
        assert(self@[at as int] == monitor@);
        if !monitor.has_names() {
            return Err(LayoutProblem::InvalidText(at));
        }
        let mut i: usize = 0;
        while i < at
            invariant
                i <= at < self.monitors@.len(),
                self.monitors@[at as int] == *monitor,
                monitor@.has_valid_texts(),
                forall|k: int| 0 <= k < i ==> (#[trigger] self@[k]).id != monitor@.id,
            decreases at - i,
        {
            assert(self@[i as int] == self.monitors@[i as int]@);
            if same_text(self.monitors[i].id.as_str(), monitor.id.as_str()) {
                assert(self@[i as int].id == self@[at as int].id);
                return Err(LayoutProblem::RepeatedId(at));
            }
            i = i + 1;
        }
        if !monitor.valid_geometry() {
            return Err(LayoutProblem::OutOfBounds(at));
        }
        let mut i: usize = 0;
        while i < at
            invariant
                i <= at < self.monitors@.len(),
                self.monitors@[at as int] == *monitor,
                monitor@.has_valid_texts(),
                monitor@.in_bounds(),
                forall|k: int| 0 <= k < at ==> (#[trigger] self@[k]).id != monitor@.id,
                forall|k: int| 0 <= k < i ==> !monitor@.overlapping(#[trigger] self@[k]),
            decreases at - i,
        {
            assert(self@[i as int] == self.monitors@[i as int]@);
            if monitor.overlaps(&self.monitors[i]) {
                proof {
                    assert(first_overlap(self@, at as int, i as int));
                    let found = choose|k: int| first_overlap(self@, at as int, k);
                    first_overlap_is_unique(self@, at as int, found, i as int);
                }
                return Err(LayoutProblem::Overlap(at, i));
            }
            i = i + 1;
        }
        Ok(())
    }

    /// The first thing that is wrong with the layout.
    pub open spec fn refused_for(&self, problem: LayoutProblem) -> bool {
        if self@.len() > MAX_MONITORS {
            problem == LayoutProblem::TooMany
        } else {
            exists|at: int|
                0 <= at < self@.len() && #[trigger] problem_at(self@, at) == Some(problem)
                    && forall|i: int| 0 <= i < at ==> #[trigger] problem_at(self@, i) is None
        }
    }

    /// Refuses a layout for the first thing that is wrong with it.
    pub fn validate(&self) -> (result: Result<(), LayoutProblem>)
        ensures
            result is Ok <==> is_valid(self@),
            result matches Err(problem) ==> self.refused_for(problem),
    {
        if self.monitors.len() > MAX_MONITORS {
            return Err(LayoutProblem::TooMany);
        }
        let mut at: usize = 0;
        while at < self.monitors.len()
            invariant
                at <= self.monitors@.len() <= MAX_MONITORS,
                forall|i: int| 0 <= i < at ==> #[trigger] problem_at(self@, i) is None,
            decreases self.monitors@.len() - at,
        {
            if let Err(problem) = self.check_monitor(at) {
                assert(problem_at(self@, at as int) == Some(problem));
                return Err(problem);
            }
            at = at + 1;
        }
        Ok(())
    }
}

/// The edge of `a` that lies on an edge of `b`.
pub open spec fn shared_edge(a: MonitorModel, b: MonitorModel) -> Option<Edge> {
    if a.right() == b.x {
        Some(Edge::Right)
    } else if a.x == b.right() {
        Some(Edge::Left)
    } else if a.bottom() == b.y {
        Some(Edge::Bottom)
    } else if a.y == b.bottom() {
        Some(Edge::Top)
    } else {
        None
    }
}

/// Start and end of a monitor along an edge.
pub open spec fn along(monitor: MonitorModel, edge: Edge) -> (int, int) {
    match edge {
        Edge::Left | Edge::Right => (monitor.y as int, monitor.bottom()),
        Edge::Top | Edge::Bottom => (monitor.x as int, monitor.right()),
    }
}

pub open spec fn larger(a: int, b: int) -> int {
    if a > b {
        a
    } else {
        b
    }
}

pub open spec fn smaller(a: int, b: int) -> int {
    if a < b {
        a
    } else {
        b
    }
}

/// The way from one monitor to another: monitors of different computers whose
/// edges touch along more than a point.
pub open spec fn link(monitors: Seq<MonitorModel>, source: int, target: int) -> Option<Transition> {
    let a = monitors[source];
    let b = monitors[target];
    if source == target || a.peer == b.peer {
        None
    } else {
        match shared_edge(a, b) {
            None => None,
            Some(edge) => {
                let (a_start, a_end) = along(a, edge);
                let (b_start, b_end) = along(b, edge);
                let start = larger(a_start, b_start);
                let end = smaller(a_end, b_end);
                if start < end {
                    Some(
                        Transition {
                            source: source as usize,
                            target: target as usize,
                            edge,
                            source_start: (start - a_start) as i64,
                            source_end: (end - a_start) as i64,
                            source_length: (a_end - a_start) as i64,
                            target_start: (start - b_start) as i64,
                            target_end: (end - b_start) as i64,
                            target_length: (b_end - b_start) as i64,
                        },
                    )
                } else {
                    None
                }
            },
        }
    }
}

/// The ways from a monitor to the first `targets` monitors.
pub open spec fn links_from(monitors: Seq<MonitorModel>, source: int, targets: int) -> Seq<
    Transition,
>
    decreases targets,
{
    if targets <= 0 {
        Seq::empty()
    } else {
        let before = links_from(monitors, source, targets - 1);
        match link(monitors, source, targets - 1) {
            Some(transition) => before.push(transition),
            None => before,
        }
    }
}

/// The ways from the first `sources` monitors to all others.
pub open spec fn all_links(monitors: Seq<MonitorModel>, sources: int) -> Seq<Transition>
    decreases sources,
{
    if sources <= 0 {
        Seq::empty()
    } else {
        all_links(monitors, sources - 1) + links_from(
            monitors,
            sources - 1,
            monitors.len() as int,
        )
    }
}

/// Every way has a way back: from the other monitor, over the opposite edge,
/// with the two ranges exchanged.
pub proof fn transitions_are_reciprocal(monitors: Seq<MonitorModel>, source: int, target: int)
    requires
        0 <= source < monitors.len() <= usize::MAX,
        0 <= target < monitors.len(),
        monitors[source].in_bounds(),
        monitors[target].in_bounds(),
        link(monitors, source, target) is Some,
    ensures
        ({
            let there = link(monitors, source, target)->0;
            let back = link(monitors, target, source);
            &&& back is Some
            &&& back->0 == (Transition {
                source: there.target,
                target: there.source,
                edge: there.edge.opposite(),
                source_start: there.target_start,
                source_end: there.target_end,
                source_length: there.target_length,
                target_start: there.source_start,
                target_end: there.source_end,
                target_length: there.source_length,
            })
        }),
{
}

/// The ranges of a way are not empty and lie within their edges, and both
/// cover the same distance.
pub proof fn transition_ranges_are_normalized(
    monitors: Seq<MonitorModel>,
    source: int,
    target: int,
)
    requires
        0 <= source < monitors.len() <= usize::MAX,
        0 <= target < monitors.len(),
        link(monitors, source, target) is Some,
    ensures
        ({
            let way = link(monitors, source, target)->0;
            &&& 0 <= way.source_start < way.source_end <= way.source_length
            &&& 0 <= way.target_start < way.target_end <= way.target_length
            &&& way.source_end - way.source_start == way.target_end - way.target_start
        }),
{
}

/// `position` lies on the part of a side that begins at `start`, from one offset
/// up to another.
pub open spec fn on_part(position: int, start: int, from: int, to: int) -> bool {
    start + from <= position < start + to
}

/// A way leads over two sides that lie on each other, and both of its ranges name
/// the same points of the plane: exactly those that both monitors have there.
pub open spec fn way_lies_on_both(a: MonitorModel, b: MonitorModel, way: Transition) -> bool {
    match way.edge {
        Edge::Left | Edge::Right => {
            &&& if way.edge == Edge::Right {
                a.x + a.width == b.x
            } else {
                b.x + b.width == a.x
            }
            &&& way.source_length == a.height
            &&& way.target_length == b.height
            &&& a.y + way.source_start == b.y + way.target_start
            &&& a.y + way.source_end == b.y + way.target_end
            &&& forall|y: int| #[trigger]
                on_part(y, a.y as int, way.source_start as int, way.source_end as int) <==> (a.y
                    <= y < a.y + a.height && b.y <= y < b.y + b.height)
        },
        Edge::Top | Edge::Bottom => {
            &&& if way.edge == Edge::Bottom {
                a.y + a.height == b.y
            } else {
                b.y + b.height == a.y
            }
            &&& way.source_length == a.width
            &&& way.target_length == b.width
            &&& a.x + way.source_start == b.x + way.target_start
            &&& a.x + way.source_end == b.x + way.target_end
            &&& forall|x: int| #[trigger]
                on_part(x, a.x as int, way.source_start as int, way.source_end as int) <==> (a.x
                    <= x < a.x + a.width && b.x <= x < b.x + b.width)
        },
    }
}

/// Two monitors have a stretch of a side in common.
pub open spec fn touch_along_a_side(a: MonitorModel, b: MonitorModel) -> bool {
    ||| (a.x + a.width == b.x || b.x + b.width == a.x) && a.y < b.y + b.height && b.y < a.y
        + a.height
    ||| (a.y + a.height == b.y || b.y + b.height == a.y) && a.x < b.x + b.width && b.x < a.x
        + a.width
}

/// The pointer crosses where the two computers touch and lands where it left: a
/// way's two ranges are the same points. Monitors of different computers that
/// touch have a way, and no others do.
pub proof fn crossings_meet_in_the_plane(monitors: Seq<MonitorModel>, source: int, target: int)
    requires
        0 <= source < monitors.len() <= usize::MAX,
        0 <= target < monitors.len(),
        monitors[source].in_bounds(),
        monitors[target].in_bounds(),
    ensures
        link(monitors, source, target) matches Some(way) ==> way.source == source && way.target
            == target && way_lies_on_both(monitors[source], monitors[target], way),
        link(monitors, source, target) is Some <==> source != target && monitors[source].peer
            != monitors[target].peer && touch_along_a_side(monitors[source], monitors[target]),
{
}

proof fn links_from_hold(monitors: Seq<MonitorModel>, source: int, target: int, targets: int)
    requires
        0 <= target < targets,
        link(monitors, source, target) is Some,
    ensures
        links_from(monitors, source, targets).contains(link(monitors, source, target)->0),
    decreases targets,
{
    let way = link(monitors, source, target)->0;
    let before = links_from(monitors, source, targets - 1);
    let now = links_from(monitors, source, targets);
    if target < targets - 1 {
        links_from_hold(monitors, source, target, targets - 1);
        let i = choose|i: int| 0 <= i < before.len() && before[i] == way;
        assert(now[i] == way);
    } else {
        assert(now[before.len() as int] == way);
    }
}

/// Every way between two monitors is among the ways of the layout.
pub proof fn every_crossing_is_listed(
    monitors: Seq<MonitorModel>,
    source: int,
    target: int,
    sources: int,
)
    requires
        0 <= source < sources,
        0 <= target < monitors.len(),
        link(monitors, source, target) is Some,
    ensures
        all_links(monitors, sources).contains(link(monitors, source, target)->0),
    decreases sources,
{
    let way = link(monitors, source, target)->0;
    let before = all_links(monitors, sources - 1);
    let more = links_from(monitors, sources - 1, monitors.len() as int);
    let now = all_links(monitors, sources);
    if source < sources - 1 {
        every_crossing_is_listed(monitors, source, target, sources - 1);
        let i = choose|i: int| 0 <= i < before.len() && before[i] == way;
        assert(now[i] == way);
    } else {
        links_from_hold(monitors, source, target, monitors.len() as int);
        let i = choose|i: int| 0 <= i < more.len() && more[i] == way;
        assert(now[before.len() + i] == way);
    }
}

impl Layout {
    fn link_between(&self, source: usize, target: usize) -> (result: Option<Transition>)
        requires
            source < self.monitors@.len(),
            target < self.monitors@.len(),
        ensures
            result == link(self@, source as int, target as int),
    {
        let a = &self.monitors[source];
        let b = &self.monitors[target];
        assert(self@[source as int] == a@);
        assert(self@[target as int] == b@);
        if source == target || same_optional_text(&a.peer, &b.peer) {
            return None;
        }
        let (al, at, ar, ab) = a.bounds();
        let (bl, bt, br, bb) = b.bounds();
        let edge = if ar == bl {
            Edge::Right
        } else if al == br {
            Edge::Left
        } else if ab == bt {
            Edge::Bottom
        } else if at == bb {
            Edge::Top
        } else {
            return None;
        };
        let (a_start, a_end, b_start, b_end) = match edge {
            Edge::Left | Edge::Right => (at, ab, bt, bb),
            Edge::Top | Edge::Bottom => (al, ar, bl, br),
        };
        let start: i64 = if a_start > b_start {
            a_start
        } else {
            b_start
        };
        let end: i64 = if a_end < b_end {
            a_end
        } else {
            b_end
        };
        if start < end {
            Some(
                Transition {
                    source,
                    target,
                    edge,
                    source_start: start - a_start,
                    source_end: end - a_start,
                    source_length: a_end - a_start,
                    target_start: start - b_start,
                    target_end: end - b_start,
                    target_length: b_end - b_start,
                },
            )
        } else {
            None
        }
    }

    /// The ways between computers, in the order of their monitors. An invalid
    /// layout has none.
    pub fn transitions(&self) -> (result: Vec<Transition>)
        ensures
            result@ == if is_valid(self@) {
                all_links(self@, self@.len() as int)
            } else {
                Seq::empty()
            },
    {
        let mut transitions: Vec<Transition> = Vec::new();
        assert(transitions@ =~= Seq::empty());
        if self.validate().is_err() {
            return transitions;
        }
        let count: usize = self.monitors.len();
        assert(self@.len() == count);
        let mut source: usize = 0;
        while source < count
            invariant
                count == self.monitors@.len(),
                source <= count,
                transitions@ == all_links(self@, source as int),
            decreases count - source,
        {
            let ghost before = transitions@;
            let mut target: usize = 0;
            assert(before + links_from(self@, source as int, 0) =~= before);
            while target < count
                invariant
                    count == self.monitors@.len(),
                    source < count,
                    target <= count,
                    transitions@ == before + links_from(self@, source as int, target as int),
                decreases count - target,
            {
                let ghost seen = links_from(self@, source as int, target as int);
                if let Some(transition) = self.link_between(source, target) {
                    transitions.push(transition);
                    assert(before + seen.push(transition) =~= (before + seen).push(transition));
                }
                target = target + 1;
            }
            assert(self@.len() == count);
            source = source + 1;
        }
        transitions
    }
}

/// A monitor may stand at a place: within bounds and on no other monitor.
pub open spec fn fits(monitors: Seq<MonitorModel>, index: int, x: int, y: int) -> bool {
    &&& i32::MIN <= x <= i32::MAX
    &&& i32::MIN <= y <= i32::MAX
    &&& monitors[index].at(x as i32, y as i32).in_bounds()
    &&& forall|i: int|
        0 <= i < monitors.len() && i != index ==> !monitors[index].at(
            x as i32,
            y as i32,
        ).overlapping(#[trigger] monitors[i])
}

/// The places beside `other` for a moving monitor that was dropped at `x`, `y`:
/// on its left and right, and then above and below it; each time where it was
/// dropped, and with the edges flush at either end.
pub open spec fn beside(
    moving: MonitorModel,
    other: MonitorModel,
    x: int,
    y: int,
    choice: int,
) -> (int, int) {
    let cx = if choice < 3 {
        other.x - moving.width
    } else {
        other.right()
    };
    let cy = if choice < 9 {
        other.y - moving.height
    } else {
        other.bottom()
    };
    let turn = choice % 3;
    if choice < 6 {
        (
            cx,
            if turn == 0 {
                y
            } else if turn == 1 {
                other.y as int
            } else {
                other.bottom() - moving.height
            },
        )
    } else {
        (
            if turn == 0 {
                x
            } else if turn == 1 {
                other.x as int
            } else {
                other.right() - moving.width
            },
            cy,
        )
    }
}

/// The two monitors share more than a corner at that place.
pub open spec fn shares_an_edge(
    moving: MonitorModel,
    other: MonitorModel,
    place: (int, int),
    choice: int,
) -> bool {
    if choice < 6 {
        place.1 < other.bottom() && place.1 + moving.height > other.y
    } else {
        place.0 < other.right() && place.0 + moving.width > other.x
    }
}

/// A drop of a monitor.
pub struct DropPoint {
    pub index: int,
    pub x: int,
    pub y: int,
    pub tolerance: int,
}

/// The numbered places to snap to, twelve beside each other monitor.
pub open spec fn snap_place(monitors: Seq<MonitorModel>, drop: DropPoint, number: int) -> (int, int) {
    beside(monitors[drop.index], monitors[number / 12], drop.x, drop.y, number % 12)
}

/// A place that is near enough, shares an edge and is free.
pub open spec fn can_snap(monitors: Seq<MonitorModel>, drop: DropPoint, number: int) -> bool {
    let place = snap_place(monitors, drop, number);
    &&& 0 <= number < 12 * monitors.len()
    &&& number / 12 != drop.index
    &&& shares_an_edge(
        monitors[drop.index],
        monitors[number / 12],
        place,
        number % 12,
    )
    &&& -drop.tolerance <= place.0 - drop.x <= drop.tolerance
    &&& -drop.tolerance <= place.1 - drop.y <= drop.tolerance
    &&& fits(monitors, drop.index, place.0, place.1)
}

/// Squared distance between a place and the drop.
pub open spec fn snap_distance(monitors: Seq<MonitorModel>, drop: DropPoint, number: int) -> int {
    let place = snap_place(monitors, drop, number);
    (place.0 - drop.x) * (place.0 - drop.x) + (place.1 - drop.y) * (place.1 - drop.y)
}

/// The nearest place to snap to among the first ones, and the first such place.
pub open spec fn is_nearest(
    monitors: Seq<MonitorModel>,
    drop: DropPoint,
    number: int,
    places: int,
) -> bool {
    &&& can_snap(monitors, drop, number)
    &&& number < places
    &&& forall|other: int|
        other < places && #[trigger] can_snap(monitors, drop, other) ==> snap_distance(
            monitors,
            drop,
            number,
        ) <= snap_distance(monitors, drop, other)
    &&& forall|other: int|
        other < number && #[trigger] can_snap(monitors, drop, other) ==> snap_distance(
            monitors,
            drop,
            number,
        ) < snap_distance(monitors, drop, other)
}

/// The place that a drop snaps to.
pub open spec fn snaps_to(monitors: Seq<MonitorModel>, drop: DropPoint, number: int) -> bool {
    is_nearest(monitors, drop, number, 12 * monitors.len() as int)
}

pub open spec fn snapped(place: (int, int)) -> Option<(i32, i32)> {
    Some((place.0 as i32, place.1 as i32))
}

/// Where a monitor lands that is dropped at a place: the nearest place to snap
/// to, else where it was dropped if it fits there, else nowhere.
pub open spec fn snap_result(
    monitors: Seq<MonitorModel>,
    index: int,
    x: int,
    y: int,
    tolerance: int,
    result: Option<(i32, i32)>,
) -> bool {
    let drop = DropPoint { index, x, y, tolerance };
    if index >= monitors.len() || !(0 <= tolerance <= MAX_COORDINATE) {
        result is None
    } else if exists|number: int| #[trigger] can_snap(monitors, drop, number) {
        exists|number: int| #[trigger]
            snaps_to(monitors, drop, number) && result == snapped(
                snap_place(monitors, drop, number),
            )
    } else if fits(monitors, index, x, y) {
        result == Some((x as i32, y as i32))
    } else {
        result is None
    }
}

impl Layout {
    fn check_fit(&self, index: usize, x: i64, y: i64) -> (result: bool)
        requires
            index < self.monitors@.len(),
        ensures
            result == fits(self@, index as int, x as int, y as int),
    {
        if x < i32::MIN as i64 || x > i32::MAX as i64 || y < i32::MIN as i64 || y
            > i32::MAX as i64 {
            return false;
        }
        let moving = &self.monitors[index];
        assert(self@[index as int] == moving@);
        let candidate = Monitor {
            id: String::new(),
            label: String::new(),
            peer: None,
            x: x as i32,
            y: y as i32,
            width: moving.width,
            height: moving.height,
        };
        if !candidate.valid_geometry() {
            return false;
        }
        let ghost moved = self@[index as int].at(x as i32, y as i32);
        let mut i: usize = 0;
        while i < self.monitors.len()
            invariant
                i <= self.monitors@.len(),
                index < self.monitors@.len(),
                candidate@.in_bounds(),
                i32::MIN <= x <= i32::MAX,
                i32::MIN <= y <= i32::MAX,
                moved == self@[index as int].at(x as i32, y as i32),
                candidate@.x == moved.x,
                candidate@.y == moved.y,
                candidate@.width == moved.width,
                candidate@.height == moved.height,
                forall|k: int|
                    0 <= k < i && k != index ==> !moved.overlapping(#[trigger] self@[k]),
            decreases self.monitors@.len() - i,
        {
            assert(self@[i as int] == self.monitors@[i as int]@);
            if i != index && candidate.overlaps(&self.monitors[i]) {
                assert(moved.overlapping(self@[i as int]));
                return false;
            }
            i = i + 1;
        }
        true
    }

    fn place_beside(&self, index: usize, other: usize, x: i64, y: i64, choice: usize) -> (result: (
        i64,
        i64,
        bool,
    ))
        requires
            index < self.monitors@.len(),
            other < self.monitors@.len(),
            choice < 12,
            i32::MIN <= x <= i32::MAX,
            i32::MIN <= y <= i32::MAX,
        ensures
            (result.0 as int, result.1 as int) == beside(
                self@[index as int],
                self@[other as int],
                x as int,
                y as int,
                choice as int,
            ),
            result.2 == shares_an_edge(
                self@[index as int],
                self@[other as int],
                (result.0 as int, result.1 as int),
                choice as int,
            ),
            -0x4_0000_0000 <= result.0 <= 0x4_0000_0000,
            -0x4_0000_0000 <= result.1 <= 0x4_0000_0000,
    {
        assert(self@[index as int] == self.monitors@[index as int]@);
        assert(self@[other as int] == self.monitors@[other as int]@);
        let width: i64 = self.monitors[index].width as i64;
        let height: i64 = self.monitors[index].height as i64;
        let (left, top, right, bottom) = self.monitors[other].bounds();
        let turn: usize = choice % 3;
        if choice < 6 {
            let cx: i64 = if choice < 3 {
                left - width
            } else {
                right
            };
            let cy: i64 = if turn == 0 {
                y
            } else if turn == 1 {
                top
            } else {
                bottom - height
            };
            (cx, cy, cy < bottom && cy + height > top)
        } else {
            let cy: i64 = if choice < 9 {
                top - height
            } else {
                bottom
            };
            let cx: i64 = if turn == 0 {
                x
            } else if turn == 1 {
                left
            } else {
                right - width
            };
            (cx, cy, cx < right && cx + width > left)
        }
    }

    /// Snap to a nearby shared edge, or keep a valid free position. Reject overlap.
    pub fn snap_move(&self, index: usize, x: i32, y: i32, tolerance: i32) -> (result: Option<
        (i32, i32),
    >)
        ensures
            snap_result(self@, index as int, x as int, y as int, tolerance as int, result),
            result matches Some(place) ==> fits(
                self@,
                index as int,
                place.0 as int,
                place.1 as int,
            ),
    {
        if index >= self.monitors.len() || tolerance < 0 || tolerance > MAX_COORDINATE {
            return None;
        }
        let ghost drop = DropPoint {
            index: index as int,
            x: x as int,
            y: y as int,
            tolerance: tolerance as int,
        };
        let wide_x: i64 = x as i64;
        let wide_y: i64 = y as i64;
        let reach: i64 = tolerance as i64;
        let mut best: Option<(i64, (i32, i32))> = None;
        let ghost mut chosen: int = -1;
        let mut other: usize = 0;
        while other < self.monitors.len()
            invariant
                index < self.monitors@.len(),
                other <= self.monitors@.len(),
                0 <= tolerance <= MAX_COORDINATE,
                wide_x == x,
                wide_y == y,
                reach == tolerance,
                drop == (DropPoint {
                    index: index as int,
                    x: x as int,
                    y: y as int,
                    tolerance: tolerance as int,
                }),
                self@.len() == self.monitors@.len(),
                match best {
                    Some((distance, place)) => {
                        &&& is_nearest(self@, drop, chosen, 12 * other)
                        &&& distance == snap_distance(self@, drop, chosen)
                        &&& (place.0 as int, place.1 as int) == snap_place(self@, drop, chosen)
                    },
                    None => forall|number: int|
                        number < 12 * other ==> !#[trigger] can_snap(self@, drop, number),
                },
            decreases self.monitors@.len() - other,
        {
            if other != index {
                let mut choice: usize = 0;
                while choice < 12
                    invariant
                        index < self.monitors@.len(),
                        other < self.monitors@.len(),
                        other != index,
                        choice <= 12,
                        0 <= tolerance <= MAX_COORDINATE,
                        wide_x == x,
                        wide_y == y,
                        reach == tolerance,
                        drop == (DropPoint {
                            index: index as int,
                            x: x as int,
                            y: y as int,
                            tolerance: tolerance as int,
                        }),
                        self@.len() == self.monitors@.len(),
                        match best {
                            Some((distance, place)) => {
                                &&& is_nearest(self@, drop, chosen, 12 * other + choice)
                                &&& distance == snap_distance(self@, drop, chosen)
                                &&& (place.0 as int, place.1 as int) == snap_place(
                                    self@,
                                    drop,
                                    chosen,
                                )
                            },
                            None => forall|number: int|
                                number < 12 * other + choice ==> !#[trigger] can_snap(
                                    self@,
                                    drop,
                                    number,
                                ),
                        },
                    decreases 12 - choice,
                {
                    let ghost number: int = 12 * other + choice;
                    assert(number / 12 == other && number % 12 == choice);
                    let (cx, cy, touches) = self.place_beside(
                        index,
                        other,
                        wide_x,
                        wide_y,
                        choice,
                    );
                    let dx: i64 = cx - wide_x;
                    let dy: i64 = cy - wide_y;
                    if touches && -reach <= dx && dx <= reach && -reach <= dy && dy <= reach {
                        assert(0 <= dx * dx <= 10_000_000_000 && 0 <= dy * dy
                            <= 10_000_000_000) by (nonlinear_arith)
                            requires
                                -100_000 <= dx <= 100_000,
                                -100_000 <= dy <= 100_000,
                        ;
                        let distance: i64 = dx * dx + dy * dy;
                        let nearer = match best {
                            Some((best_distance, _)) => distance < best_distance,
                            None => true,
                        };
                        if nearer && self.check_fit(index, cx, cy) {
                            best = Some((distance, (cx as i32, cy as i32)));
                            proof {
                                chosen = number;
                            }
                        }
                    }
                    choice = choice + 1;
                }
            } else {
                assert forall|number: int| 12 * other <= number < 12 * (other + 1) implies !(
                #[trigger] can_snap(self@, drop, number)) by {
                    assert(number / 12 == other);
                }
            }
            other = other + 1;
        }
        match best {
            Some((_, place)) => {
                assert(can_snap(self@, drop, chosen));
                assert(snaps_to(self@, drop, chosen));
                Some(place)
            },
            None => {
                assert forall|number: int| !#[trigger] can_snap(self@, drop, number) by {}
                if self.check_fit(index, wide_x, wide_y) {
                    Some((x, y))
                } else {
                    None
                }
            },
        }
    }
}

/// Moving a monitor of a valid layout to a place where it fits keeps the layout
/// valid.
pub proof fn moves_keep_layouts_valid(monitors: Seq<MonitorModel>, index: int, x: i32, y: i32)
    requires
        is_valid(monitors),
        0 <= index < monitors.len(),
        fits(monitors, index, x as int, y as int),
    ensures
        is_valid(monitors.update(index, monitors[index].at(x, y))),
{
    let moved = monitors.update(index, monitors[index].at(x, y));
    assert forall|at: int| 0 <= at < moved.len() implies #[trigger] problem_at(
        moved,
        at,
    ) is None by {
        assert(problem_at(monitors, at) is None);
        if exists|i: int| 0 <= i < at && (#[trigger] moved[i]).id == moved[at].id {
            let i = choose|i: int| 0 <= i < at && (#[trigger] moved[i]).id == moved[at].id;
            valid_layouts_are_disjoint(monitors, i, at);
        }
        if exists|i: int| first_overlap(moved, at, i) {
            let i = choose|i: int| first_overlap(moved, at, i);
            valid_layouts_are_disjoint(monitors, i, at);
            assert(moved[at].overlapping(moved[i]));
            if at == index {
                assert(!moved[at].overlapping(monitors[i]));
            } else if i == index {
                assert(!moved[i].overlapping(monitors[at]));
            }
        }
    }
}

/// Name of the layout file beside a configuration file.
pub fn layout_file_name(config_file_name: &str) -> (result: String)
    ensures
        result@ == config_file_name@ + ".layout.toml"@,
{
    let mut name = config_file_name.to_owned();
    name.append(".layout.toml");
    name
}

/// A layout that is kept in a file beside the configuration.
pub struct LayoutDocument {
    pub path: String,
    pub draft: Layout,
    /// The layout that was last read or written.
    pub saved: Layout,
    /// What the file held when it was last read or written, if it was there.
    pub disk_contents: Option<Vec<u8>>,
}

#[derive(Clone, Copy, Debug, PartialEq, Eq, Structural)]
pub enum SaveProblem {
    Invalid(LayoutProblem),
    /// The file is not as it was when it was last read or written.
    ChangedOnDisk,
}

pub open spec fn contents_of(contents: Option<Vec<u8>>) -> Option<Seq<u8>> {
    match contents {
        Some(bytes) => Some(bytes@),
        None => None,
    }
}

fn same_contents(left: &Option<Vec<u8>>, right: &Option<Vec<u8>>) -> (result: bool)
    ensures
        result == (contents_of(*left) == contents_of(*right)),
{
    match (left, right) {
        (Some(left), Some(right)) => same_bytes(left, right),
        (None, None) => true,
        _ => false,
    }
}

impl LayoutDocument {
    /// Nothing differs from the layout that the file holds.
    pub open spec fn holds(&self, stored: Layout, disk_contents: Option<Vec<u8>>) -> bool {
        &&& self.draft@ == stored@
        &&& self.saved@ == stored@
        &&& self.disk_contents == disk_contents
    }

    pub open spec fn dirty(&self) -> bool {
        self.draft@ != self.saved@
    }

    /// The draft may be written over what the file holds now.
    pub open spec fn may_save(&self, on_disk: Option<Seq<u8>>) -> bool {
        is_valid(self.draft@) && on_disk == contents_of(self.disk_contents)
    }

    /// A document with the layout that a file holds, if there is one.
    pub fn open(path: String, stored: Layout, disk_contents: Option<Vec<u8>>) -> (result: Result<
        Self,
        LayoutProblem,
    >)
        ensures
            result is Ok <==> is_valid(stored@),
            result matches Ok(document) ==> document.path == path && document.draft == stored
                && document.holds(stored, disk_contents),
            result matches Err(problem) ==> stored.refused_for(problem),
    {
        match stored.validate() {
            Err(problem) => Err(problem),
            Ok(_) => {
                let saved = stored.copy();
                Ok(LayoutDocument { path, draft: stored, saved, disk_contents })
            },
        }
    }

    pub fn is_dirty(&self) -> (result: bool)
        ensures
            result == self.dirty(),
    {
        !self.draft.same_as(&self.saved)
    }

    pub fn is_new(&self) -> (result: bool)
        ensures
            result == self.disk_contents is None,
    {
        self.disk_contents.is_none()
    }

    /// Decides whether the draft may be written over what the file holds now.
    pub fn check_save(&self, on_disk: &Option<Vec<u8>>) -> (result: Result<(), SaveProblem>)
        ensures
            match result {
                Ok(_) => self.may_save(contents_of(*on_disk)),
                Err(SaveProblem::Invalid(problem)) => self.draft.refused_for(problem),
                Err(SaveProblem::ChangedOnDisk) => is_valid(self.draft@) && contents_of(*on_disk)
                    != contents_of(self.disk_contents),
            },
    {
        if let Err(problem) = self.draft.validate() {
            return Err(SaveProblem::Invalid(problem));
        }
        if !same_contents(on_disk, &self.disk_contents) {
            return Err(SaveProblem::ChangedOnDisk);
        }
        Ok(())
    }

    /// The draft was written, as these bytes.
    pub fn save(&mut self, written: Vec<u8>)
        ensures
            final(self).path == old(self).path,
            final(self).draft == old(self).draft,
            final(self).holds(old(self).draft, Some(written)),
    {
        self.saved = self.draft.copy();
        self.disk_contents = Some(written);
    }

    /// Takes what the file holds now; a draft survives a file that cannot be used.
    pub fn reload(&mut self, stored: Result<(Layout, Option<Vec<u8>>), String>) -> (result: Result<
        (),
        ReloadProblem,
    >)
        ensures
            match stored {
                Err(reason) => result == Err::<(), ReloadProblem>(ReloadProblem::Unreadable(reason))
                    && *final(self) == *old(self),
                Ok((layout, contents)) => if is_valid(layout@) {
                    &&& result is Ok
                    &&& final(self).path == old(self).path
                    &&& final(self).draft == layout
                    &&& final(self).holds(layout, contents)
                } else {
                    &&& result matches Err(ReloadProblem::Invalid(problem))
                    &&& layout.refused_for(problem)
                    &&& *final(self) == *old(self)
                },
            },
    {
        match stored {
            Err(reason) => Err(ReloadProblem::Unreadable(reason)),
            Ok((layout, contents)) => {
                if let Err(problem) = layout.validate() {
                    return Err(ReloadProblem::Invalid(problem));
                }
                self.saved = layout.copy();
                self.draft = layout;
                self.disk_contents = contents;
                Ok(())
            },
        }
    }
}

/// A file and the document that is kept in it.
pub struct LayoutStore {
    pub document: LayoutDocument,
    pub on_disk: Option<Seq<u8>>,
}

impl LayoutStore {
    /// What a save does: the file and the document change together, and only
    /// where the document may be written over the file.
    pub open spec fn saves_to(self, written: Vec<u8>, after: LayoutStore) -> bool {
        if self.document.may_save(self.on_disk) {
            &&& after.on_disk == Some(written@)
            &&& after.document.path == self.document.path
            &&& after.document.holds(self.document.draft, Some(written))
        } else {
            after == self
        }
    }
}

/// A draft that is invalid, or whose file was created, changed or deleted
/// elsewhere, is not saved: file and document stay as they are. Any other draft
/// is. The document is then neither new nor dirty, it can be saved again, and
/// opening the file gives the draft back if what was written reads as the draft.
pub proof fn saved_layouts_open_again(
    before: LayoutStore,
    written: Vec<u8>,
    after: LayoutStore,
    read: Layout,
    reopened: LayoutDocument,
)
    requires
        before.saves_to(written, after),
        read@ == before.document.draft@,
        is_valid(read@) ==> reopened.holds(read, Some(written)),
    ensures
        !is_valid(before.document.draft@) || before.on_disk != contents_of(
            before.document.disk_contents,
        ) ==> after == before,
        is_valid(before.document.draft@) && before.on_disk == contents_of(
            before.document.disk_contents,
        ) ==> {
            &&& !after.document.dirty()
            &&& after.document.disk_contents is Some
            &&& after.document.draft@ == before.document.draft@
            &&& after.document.may_save(after.on_disk)
            &&& is_valid(read@)
            &&& reopened.draft@ == after.document.draft@
            &&& !reopened.dirty()
        },
{
}

#[derive(Debug, PartialEq, Eq)]
pub enum ReloadProblem {
    /// The file could not be read or understood.
    Unreadable(String),
    Invalid(LayoutProblem),
}

/// A point of the desktop plane lies on a monitor.
pub open spec fn has_point(monitor: MonitorModel, x: int, y: int) -> bool {
    monitor.x <= x < monitor.x + monitor.width && monitor.y <= y < monitor.y + monitor.height
}

/// Monitors overlap exactly if some point lies on both.
pub proof fn overlapping_monitors_share_a_point(a: MonitorModel, b: MonitorModel)
    requires
        a.in_bounds(),
        b.in_bounds(),
    ensures
        a.overlapping(b) <==> exists|x: int, y: int| #[trigger]
            has_point(a, x, y) && has_point(b, x, y),
{
    if a.overlapping(b) {
        let x = larger(a.x as int, b.x as int);
        let y = larger(a.y as int, b.y as int);
        assert(has_point(a, x, y) && has_point(b, x, y));
    }
}

/// A layout is valid exactly if it has at most 32 monitors with proper names and
/// ids of their own, none larger or farther away than allowed, and no point of the
/// plane lies on two of them.
pub proof fn layouts_are_valid_exactly_so(monitors: Seq<MonitorModel>)
    ensures
        is_valid(monitors) <==> {
            &&& monitors.len() <= 32
            &&& forall|i: int|
                0 <= i < monitors.len() ==> (#[trigger] monitors[i]).has_valid_texts() && -100_000
                    <= monitors[i].x <= 100_000 && -100_000 <= monitors[i].y <= 100_000 && 1
                    <= monitors[i].width <= 16_384 && 1 <= monitors[i].height <= 16_384
            &&& forall|i: int, j: int|
                0 <= i < j < monitors.len() ==> (#[trigger] monitors[i]).id != (
                #[trigger] monitors[j]).id && !monitors[j].overlapping(monitors[i])
        },
{
    if is_valid(monitors) {
        assert forall|i: int| 0 <= i < monitors.len() implies (
        #[trigger] monitors[i]).has_valid_texts() && monitors[i].in_bounds() by {
            assert(problem_at(monitors, i) is None);
        }
        assert forall|i: int, j: int| 0 <= i < j < monitors.len() implies (
        #[trigger] monitors[i]).id != (#[trigger] monitors[j]).id && !monitors[j].overlapping(
            monitors[i],
        ) by {
            assert(problem_at(monitors, j) is None);
            if monitors[j].overlapping(monitors[i]) {
                overlap_is_found(monitors, j, i);
            }
        }
    }
    let proper = {
        &&& monitors.len() <= 32
        &&& forall|i: int|
            0 <= i < monitors.len() ==> (#[trigger] monitors[i]).has_valid_texts()
                && monitors[i].in_bounds()
        &&& forall|i: int, j: int|
            0 <= i < j < monitors.len() ==> (#[trigger] monitors[i]).id != (
            #[trigger] monitors[j]).id && !monitors[j].overlapping(monitors[i])
    };
    if proper {
        assert forall|at: int| 0 <= at < monitors.len() implies #[trigger] problem_at(
            monitors,
            at,
        ) is None by {
            assert(monitors[at].has_valid_texts());
            if exists|i: int| first_overlap(monitors, at, i) {
                let i = choose|i: int| first_overlap(monitors, at, i);
                assert(monitors[i].id != monitors[at].id);
            }
        }
    }
}

/// A place that lies flush against another monitor: on one of its four sides, and
/// along that side where it was dropped or in line with one end of it.
pub open spec fn is_flush(
    moving: MonitorModel,
    other: MonitorModel,
    x: int,
    y: int,
    place: (int, int),
) -> bool {
    ||| {
        &&& place.0 == other.x - moving.width || place.0 == other.x + other.width
        &&& place.1 == y || place.1 == other.y || place.1 == other.y + other.height - moving.height
        &&& place.1 < other.y + other.height && other.y < place.1 + moving.height
    }
    ||| {
        &&& place.1 == other.y - moving.height || place.1 == other.y + other.height
        &&& place.0 == x || place.0 == other.x || place.0 == other.x + other.width - moving.width
        &&& place.0 < other.x + other.width && other.x < place.0 + moving.width
    }
}

/// A place to which a dropped monitor may jump: flush against another one, no
/// farther than allowed, and free.
pub open spec fn may_jump(monitors: Seq<MonitorModel>, drop: DropPoint, place: (int, int)) -> bool {
    &&& exists|other: int|
        0 <= other < monitors.len() && other != drop.index && is_flush(
            monitors[drop.index],
            #[trigger] monitors[other],
            drop.x,
            drop.y,
            place,
        )
    &&& -drop.tolerance <= place.0 - drop.x <= drop.tolerance
    &&& -drop.tolerance <= place.1 - drop.y <= drop.tolerance
    &&& fits(monitors, drop.index, place.0, place.1)
}

pub open spec fn place_of(result: Option<(i32, i32)>) -> (int, int) {
    match result {
        Some((x, y)) => (x as int, y as int),
        None => (0, 0),
    }
}

pub open spec fn distance_to(drop: DropPoint, place: (int, int)) -> int {
    (place.0 - drop.x) * (place.0 - drop.x) + (place.1 - drop.y) * (place.1 - drop.y)
}

proof fn snap_places_are_flush(monitors: Seq<MonitorModel>, drop: DropPoint, number: int)
    requires
        can_snap(monitors, drop, number),
    ensures
        may_jump(monitors, drop, snap_place(monitors, drop, number)),
{
    let other = number / 12;
    let choice = number % 12;
    let place = snap_place(monitors, drop, number);
    assert(0 <= other < monitors.len());
    assert(is_flush(monitors[drop.index], monitors[other], drop.x, drop.y, place));
}

proof fn flush_places_are_snap_places(
    monitors: Seq<MonitorModel>,
    drop: DropPoint,
    place: (int, int),
)
    requires
        may_jump(monitors, drop, place),
    ensures
        exists|number: int| #[trigger]
            can_snap(monitors, drop, number) && snap_place(monitors, drop, number) == place,
{
    let other = choose|other: int|
        0 <= other < monitors.len() && other != drop.index && is_flush(
            monitors[drop.index],
            #[trigger] monitors[other],
            drop.x,
            drop.y,
            place,
        );
    let m = monitors[drop.index];
    let o = monitors[other];
    let beside_it = {
        &&& place.0 == o.x - m.width || place.0 == o.x + o.width
        &&& place.1 == drop.y || place.1 == o.y || place.1 == o.y + o.height - m.height
        &&& place.1 < o.y + o.height && o.y < place.1 + m.height
    };
    let choice: int = if beside_it {
        (if place.0 == o.x - m.width {
            0int
        } else {
            3
        }) + (if place.1 == drop.y {
            0int
        } else if place.1 == o.y {
            1
        } else {
            2
        })
    } else {
        (if place.1 == o.y - m.height {
            6int
        } else {
            9
        }) + (if place.0 == drop.x {
            0int
        } else if place.0 == o.x {
            1
        } else {
            2
        })
    };
    let number = 12 * other + choice;
    assert(number / 12 == other && number % 12 == choice);
    assert(beside(m, o, drop.x, drop.y, choice) == place);
    assert(can_snap(monitors, drop, number) && snap_place(monitors, drop, number) == place);
}

/// A dropped monitor goes to the nearest place that is flush against another one,
/// if one is near enough and free. If none is, it stays where it was dropped, if
/// that is free; and it is not moved otherwise. It is not moved at all where more than
/// the largest distance, or less than none, is allowed.
pub proof fn drops_go_to_the_nearest_side(
    monitors: Seq<MonitorModel>,
    index: int,
    x: int,
    y: int,
    tolerance: int,
    result: Option<(i32, i32)>,
    elsewhere: (int, int),
)
    requires
        0 <= index < monitors.len(),
        i32::MIN <= x <= i32::MAX,
        i32::MIN <= y <= i32::MAX,
        snap_result(monitors, index, x, y, tolerance, result),
    ensures
        ({
            let drop = DropPoint { index, x, y, tolerance };
            let proper = 0 <= tolerance <= 100_000;
            &&& !proper ==> result is None
            &&& proper && may_jump(monitors, drop, elsewhere) ==> result is Some && may_jump(
                monitors,
                drop,
                place_of(result),
            ) && distance_to(drop, place_of(result)) <= distance_to(
                drop,
                elsewhere,
            )
            &&& result is Some && place_of(result) != (x, y) ==> may_jump(
                monitors,
                drop,
                place_of(result),
            )
            &&& proper && fits(monitors, index, x, y) ==> result is Some
        }),
{
    let drop = DropPoint { index, x, y, tolerance };
    if may_jump(monitors, drop, elsewhere) {
        flush_places_are_snap_places(monitors, drop, elsewhere);
    }
    if 0 <= tolerance <= 100_000 && exists|number: int| #[trigger]
        can_snap(monitors, drop, number) {
        let number = choose|number: int| #[trigger]
            snaps_to(monitors, drop, number) && result == snapped(
                snap_place(monitors, drop, number),
            );
        snap_places_are_flush(monitors, drop, number);
        let place = snap_place(monitors, drop, number);
        assert(place == place_of(result));
        if may_jump(monitors, drop, elsewhere) {
            let other = choose|other: int| #[trigger]
                can_snap(monitors, drop, other) && snap_place(monitors, drop, other) == elsewhere;
            assert(snap_distance(monitors, drop, number) <= snap_distance(monitors, drop, other));
        }
    }
}

} // verus!
